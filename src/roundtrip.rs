//! Parsing the layout of a well-formed model gives the model back.
use vstd::prelude::*;

use crate::chunks::{
    ChunkModel, DataModel, FmtModel, FrameModel, ID3v2Model, InfoRecordModel, ListInfoModel,
    UnknownModel, WavModel,
};
use crate::cursor::{be_u16_at, be_u32_at, le_u16_at, le_u32_at};
use crate::encode::{
    be16, be32, chunk_wf, data_wf, enc_chunk, enc_chunks, enc_data, enc_fmt, enc_frame,
    enc_frames, enc_id3v2, enc_list_info, enc_record, enc_records, enc_unknown, enc_wav,
    enc_xheader, fmt_wf, frames_wf, id3_wf, le16, le32, list_wf, pad_bytes, records_wf,
    wav_wf,
};
use crate::error::{FourCC, ParseError};
use crate::laws::{chunks_span, law_parse_consumes_buffer};
use crate::grammar::{
    data_tag, fmt_tag, id3_chunk_tag, info_tag, list_tag, riff_tag, spec_data, spec_fmt,
    spec_frames, spec_id3v2, spec_info_records, spec_list_info, spec_next_chunk, spec_parse,
    spec_unknown, spec_walk, wave_tag,
};

verus! {

/// `b` holds `e` at `p`.
pub open spec fn holds_at(b: Seq<u8>, p: int, e: Seq<u8>) -> bool {
    0 <= p && p + e.len() <= b.len() && b.subrange(p, p + e.len()) == e
}

/// Where `b` holds `x + y` at `p`, it holds `x` at `p` and `y` right after.
proof fn lemma_split(b: Seq<u8>, p: int, x: Seq<u8>, y: Seq<u8>)
    requires
        holds_at(b, p, x + y),
    ensures
        holds_at(b, p, x),
        holds_at(b, p + x.len(), y),
{
    assert forall|i: int| 0 <= i < x.len() implies b.subrange(p, p + x.len())[i] == x[i] by {
        assert(b.subrange(p, p + (x + y).len())[i] == (x + y)[i]);
    }
    assert(b.subrange(p, p + x.len()) =~= x);
    assert forall|i: int| 0 <= i < y.len() implies b.subrange(p + x.len(), p + x.len() + y.len())[i]
        == y[i] by {
        assert(b.subrange(p, p + (x + y).len())[x.len() + i] == (x + y)[x.len() + i]);
    }
    assert(b.subrange(p + x.len(), p + x.len() + y.len()) =~= y);
}

proof fn lemma_tag(b: Seq<u8>, p: int, t: FourCC)
    requires
        holds_at(b, p, t.spec_bytes()),
    ensures
        FourCC::spec_at(b, p) == t,
{
    assert(b[p] == b.subrange(p, p + 4)[0]);
    assert(b[p + 1] == b.subrange(p, p + 4)[1]);
    assert(b[p + 2] == b.subrange(p, p + 4)[2]);
    assert(b[p + 3] == b.subrange(p, p + 4)[3]);
}

proof fn lemma_le16(b: Seq<u8>, p: int, v: u16)
    requires
        holds_at(b, p, le16(v)),
    ensures
        le_u16_at(b, p) == v,
{
    assert(b[p] == b.subrange(p, p + 2)[0]);
    assert(b[p + 1] == b.subrange(p, p + 2)[1]);
}

proof fn lemma_be16(b: Seq<u8>, p: int, v: u16)
    requires
        holds_at(b, p, be16(v)),
    ensures
        be_u16_at(b, p) == v,
{
    assert(b[p] == b.subrange(p, p + 2)[0]);
    assert(b[p + 1] == b.subrange(p, p + 2)[1]);
}

proof fn lemma_le32(b: Seq<u8>, p: int, v: u32)
    requires
        holds_at(b, p, le32(v)),
    ensures
        le_u32_at(b, p) == v,
{
    assert(b[p] == b.subrange(p, p + 4)[0]);
    assert(b[p + 1] == b.subrange(p, p + 4)[1]);
    assert(b[p + 2] == b.subrange(p, p + 4)[2]);
    assert(b[p + 3] == b.subrange(p, p + 4)[3]);
}

proof fn lemma_be32(b: Seq<u8>, p: int, v: u32)
    requires
        holds_at(b, p, be32(v)),
    ensures
        be_u32_at(b, p) == v,
{
    assert(b[p] == b.subrange(p, p + 4)[0]);
    assert(b[p + 1] == b.subrange(p, p + 4)[1]);
    assert(b[p + 2] == b.subrange(p, p + 4)[2]);
    assert(b[p + 3] == b.subrange(p, p + 4)[3]);
}

proof fn lemma_decode_fmt(b: Seq<u8>, p: int, m: FmtModel)
    requires
        holds_at(b, p, enc_fmt(m)),
        fmt_wf(m),
    ensures
        spec_fmt(b, p) == Ok::<(FmtModel, int), ParseError>((m, p + enc_fmt(m).len())),
{
    let t = fmt_tag().spec_bytes();
    let head1 = t + le32(m.chunk_size);
    let head2 = head1 + le16(m.compression_code);
    let head3 = head2 + le16(m.number_of_channels);
    let head4 = head3 + le32(m.sample_rate);
    let head5 = head4 + le32(m.byte_rate);
    let head6 = head5 + le16(m.block_align);
    let head7 = head6 + le16(m.bits_per_sample);
    let ex = match m.extra_bytes {
        Some(e) => le16(e),
        None => Seq::empty(),
    };
    let xt = match m.extended {
        Some(x) => le16(x.num_valid_bits) + le32(x.channel_mask) + le16(x.compression_code)
            + x.wav_guid,
        None => Seq::empty(),
    };
    let head8 = head7 + ex;
    assert(enc_fmt(m) == head8 + xt);
    lemma_split(b, p, head8, xt);
    lemma_split(b, p, head7, ex);
    lemma_split(b, p, head6, le16(m.bits_per_sample));
    lemma_split(b, p, head5, le16(m.block_align));
    lemma_split(b, p, head4, le32(m.byte_rate));
    lemma_split(b, p, head3, le32(m.sample_rate));
    lemma_split(b, p, head2, le16(m.number_of_channels));
    lemma_split(b, p, head1, le16(m.compression_code));
    lemma_split(b, p, t, le32(m.chunk_size));
    lemma_tag(b, p, fmt_tag());
    lemma_le32(b, p + 4, m.chunk_size);
    lemma_le16(b, p + 8, m.compression_code);
    lemma_le16(b, p + 10, m.number_of_channels);
    lemma_le32(b, p + 12, m.sample_rate);
    lemma_le32(b, p + 16, m.byte_rate);
    lemma_le16(b, p + 20, m.block_align);
    lemma_le16(b, p + 22, m.bits_per_sample);
    if let Some(e) = m.extra_bytes {
        lemma_le16(b, p + 24, e);
    }
    if let Some(x) = m.extended {
        let q = p + head8.len();
        let x1 = le16(x.num_valid_bits) + le32(x.channel_mask);
        let x2 = x1 + le16(x.compression_code);
        lemma_split(b, q, x2, x.wav_guid);
        lemma_split(b, q, x1, le16(x.compression_code));
        lemma_split(b, q, le16(x.num_valid_bits), le32(x.channel_mask));
        lemma_le16(b, q, x.num_valid_bits);
        lemma_le32(b, q + 2, x.channel_mask);
        lemma_le16(b, q + 6, x.compression_code);
    }
}

proof fn lemma_decode_data(b: Seq<u8>, p: int, m: DataModel)
    requires
        holds_at(b, p, enc_data(m)),
        data_wf(m),
    ensures
        spec_data(b, p) == Ok::<(DataModel, int), ParseError>((m, p + enc_data(m).len())),
{
    let t = data_tag().spec_bytes();
    let head1 = t + le32(m.chunk_size);
    let head2 = head1 + m.sample_data;
    lemma_split(b, p, head2, pad_bytes(m.chunk_size));
    lemma_split(b, p, head1, m.sample_data);
    lemma_split(b, p, t, le32(m.chunk_size));
    lemma_tag(b, p, data_tag());
    lemma_le32(b, p + 4, m.chunk_size);
}

proof fn lemma_decode_records(b: Seq<u8>, q: int, rs: Seq<InfoRecordModel>)
    requires
        holds_at(b, q, enc_records(rs)),
        records_wf(rs),
    ensures
        spec_info_records(b, q, q + enc_records(rs).len()) == Ok::<
            Seq<InfoRecordModel>,
            ParseError,
        >(rs),
    decreases rs.len(),
{
    let end = q + enc_records(rs).len();
    if rs.len() == 0 {
        assert(rs =~= Seq::<InfoRecordModel>::empty());
    } else {
        let r = rs[0];
        let rest = rs.drop_first();
        lemma_split(b, q, enc_record(r), enc_records(rest));
        let t = r.info_id.spec_bytes();
        let head1 = t + le32(r.chunk_size);
        let head2 = head1 + r.text;
        lemma_split(b, q, head2, pad_bytes(r.chunk_size));
        lemma_split(b, q, head1, r.text);
        lemma_split(b, q, t, le32(r.chunk_size));
        lemma_tag(b, q, r.info_id);
        lemma_le32(b, q + 4, r.chunk_size);
        assert(records_wf(rest)) by {
            assert forall|i: int| 0 <= i < rest.len() implies (#[trigger] rest[i]).text.len()
                == rest[i].chunk_size by {
                assert(rest[i] == rs[i + 1]);
            }
        }
        assert(r.text.len() == r.chunk_size);
        lemma_decode_records(b, q + enc_record(r).len(), rest);
        assert(seq![r] + rest =~= rs);
    }
}

proof fn lemma_decode_list(b: Seq<u8>, p: int, m: ListInfoModel)
    requires
        holds_at(b, p, enc_list_info(m)),
        list_wf(m),
    ensures
        spec_list_info(b, p) == Ok::<(ListInfoModel, int), ParseError>(
            (m, p + enc_list_info(m).len()),
        ),
{
    let t = list_tag().spec_bytes();
    let head1 = t + le32(m.chunk_size);
    let head2 = head1 + info_tag().spec_bytes();
    lemma_split(b, p, head2, enc_records(m.data));
    lemma_split(b, p, head1, info_tag().spec_bytes());
    lemma_split(b, p, t, le32(m.chunk_size));
    lemma_tag(b, p, list_tag());
    lemma_tag(b, p + 8, info_tag());
    lemma_le32(b, p + 4, m.chunk_size);
    lemma_decode_records(b, p + 12, m.data);
}

proof fn lemma_decode_frames(b: Seq<u8>, q: int, fs: Seq<FrameModel>)
    requires
        holds_at(b, q, enc_frames(fs)),
        frames_wf(fs),
    ensures
        spec_frames(b, q, q + enc_frames(fs).len()) == Ok::<Seq<FrameModel>, ParseError>(fs),
    decreases fs.len(),
{
    if fs.len() == 0 {
        assert(fs =~= Seq::<FrameModel>::empty());
    } else {
        let f = fs[0];
        let rest = fs.drop_first();
        lemma_split(b, q, enc_frame(f), enc_frames(rest));
        let t = f.frame_id.spec_bytes();
        let head1 = t + be32(f.frame_size);
        let head2 = head1 + be16(f.flags);
        lemma_split(b, q, head2, f.data);
        lemma_split(b, q, head1, be16(f.flags));
        lemma_split(b, q, t, be32(f.frame_size));
        lemma_tag(b, q, f.frame_id);
        lemma_be32(b, q + 4, f.frame_size);
        lemma_be16(b, q + 8, f.flags);
        assert(frames_wf(rest)) by {
            assert forall|i: int| 0 <= i < rest.len() implies (#[trigger] rest[i]).data.len()
                == rest[i].frame_size by {
                assert(rest[i] == fs[i + 1]);
            }
        }
        assert(f.data.len() == f.frame_size);
        lemma_decode_frames(b, q + enc_frame(f).len(), rest);
        assert(seq![f] + rest =~= fs);
    }
}

#[verifier::rlimit(40)]
proof fn lemma_decode_id3v2(b: Seq<u8>, p: int, m: ID3v2Model)
    requires
        holds_at(b, p, enc_id3v2(m)),
        id3_wf(m),
    ensures
        spec_id3v2(b, p) == Ok::<(ID3v2Model, int), ParseError>((m, p + enc_id3v2(m).len())),
{
    let t = id3_chunk_tag().spec_bytes();
    let magic = seq![0x49u8, 0x44u8, 0x33u8];
    let hdr = seq![m.major_version, m.minor_version, m.flags];
    let xs = match m.xheader {
        Some(x) => enc_xheader(x),
        None => Seq::empty(),
    };
    let head1 = t + le32(m.chunk_size);
    let head2 = head1 + magic;
    let head3 = head2 + hdr;
    let head4 = head3 + be32(m.id3v2_size);
    let head5 = head4 + xs;
    let head6 = head5 + enc_frames(m.tags);
    lemma_split(b, p, head6, pad_bytes(m.id3v2_size));
    lemma_split(b, p, head5, enc_frames(m.tags));
    lemma_split(b, p, head4, xs);
    lemma_split(b, p, head3, be32(m.id3v2_size));
    lemma_split(b, p, head2, hdr);
    lemma_split(b, p, head1, magic);
    lemma_split(b, p, t, le32(m.chunk_size));
    lemma_tag(b, p, id3_chunk_tag());
    lemma_le32(b, p + 4, m.chunk_size);
    assert(b[p + 8] == b.subrange(p + 8, p + 11)[0]);
    assert(b[p + 9] == b.subrange(p + 8, p + 11)[1]);
    assert(b[p + 10] == b.subrange(p + 8, p + 11)[2]);
    assert(b[p + 11] == b.subrange(p + 11, p + 14)[0]);
    assert(b[p + 12] == b.subrange(p + 11, p + 14)[1]);
    assert(b[p + 13] == b.subrange(p + 11, p + 14)[2]);
    lemma_be32(b, p + 14, m.id3v2_size);
    if let Some(x) = m.xheader {
        let q = p + 18;
        let x1 = be32(x.chunk_size) + be16(x.extended_flags);
        let x2 = x1 + be32(x.padding_size);
        lemma_split(b, q, x2, x.data);
        lemma_split(b, q, x1, be32(x.padding_size));
        lemma_split(b, q, be32(x.chunk_size), be16(x.extended_flags));
        lemma_be32(b, q, x.chunk_size);
        lemma_be16(b, q + 4, x.extended_flags);
        lemma_be32(b, q + 6, x.padding_size);
    }
    lemma_decode_frames(b, p + head5.len(), m.tags);
}

proof fn lemma_decode_unknown(b: Seq<u8>, p: int, m: UnknownModel)
    requires
        holds_at(b, p, enc_unknown(m)),
        m.data.len() == m.chunk_size,
    ensures
        spec_unknown(b, p) == Ok::<(UnknownModel, int), ParseError>((m, p + enc_unknown(m).len())),
{
    let t = m.chunk_id.spec_bytes();
    let head1 = t + le32(m.chunk_size);
    let head2 = head1 + m.data;
    lemma_split(b, p, head2, pad_bytes(m.chunk_size));
    lemma_split(b, p, head1, m.data);
    lemma_split(b, p, t, le32(m.chunk_size));
    lemma_tag(b, p, m.chunk_id);
    lemma_le32(b, p + 4, m.chunk_size);
}

proof fn lemma_decode_chunk(b: Seq<u8>, p: int, c: ChunkModel)
    requires
        holds_at(b, p, enc_chunk(c)),
        chunk_wf(c),
    ensures
        spec_next_chunk(b, p) == Ok::<(ChunkModel, int), ParseError>(
            (c, p + enc_chunk(c).len()),
        ),
{
    reveal(spec_next_chunk);
    match c {
        ChunkModel::Fmt(m) => {
            lemma_decode_fmt(b, p, m);
        },
        ChunkModel::Data(m) => {
            let e = enc_data(m);
            assert(data_tag().spec_bytes() + e.subrange(4, e.len() as int) =~= e);
            lemma_split(b, p, data_tag().spec_bytes(), e.subrange(4, e.len() as int));
            lemma_tag(b, p, data_tag());
            lemma_decode_data(b, p, m);
        },
        ChunkModel::ListInfo(m) => {
            let e = enc_list_info(m);
            assert(list_tag().spec_bytes() + e.subrange(4, e.len() as int) =~= e);
            lemma_split(b, p, list_tag().spec_bytes(), e.subrange(4, e.len() as int));
            lemma_tag(b, p, list_tag());
            lemma_decode_list(b, p, m);
        },
        ChunkModel::ID3v2(m) => {
            let e = enc_id3v2(m);
            assert(id3_chunk_tag().spec_bytes() + e.subrange(4, e.len() as int) =~= e);
            lemma_split(b, p, id3_chunk_tag().spec_bytes(), e.subrange(4, e.len() as int));
            lemma_tag(b, p, id3_chunk_tag());
            lemma_decode_id3v2(b, p, m);
        },
        ChunkModel::Unknown(m) => {
            let e = enc_unknown(m);
            assert(m.chunk_id.spec_bytes() + e.subrange(4, e.len() as int) =~= e);
            lemma_split(b, p, m.chunk_id.spec_bytes(), e.subrange(4, e.len() as int));
            lemma_tag(b, p, m.chunk_id);
            lemma_decode_unknown(b, p, m);
        },
    }
}

proof fn lemma_decode_walk(b: Seq<u8>, p: int, declared: u32, cs: Seq<ChunkModel>)
    requires
        holds_at(b, p, enc_chunks(cs)),
        p + enc_chunks(cs).len() == b.len(),
        declared == b.len() - 8,
        forall|i: int| 0 <= i < cs.len() ==> chunk_wf(#[trigger] cs[i]),
    ensures
        spec_walk(b, p, declared) == Ok::<Seq<ChunkModel>, ParseError>(cs),
    decreases cs.len(),
{
    if cs.len() == 0 {
        assert(cs =~= Seq::<ChunkModel>::empty());
    } else {
        let c = cs[0];
        let rest = cs.drop_first();
        lemma_split(b, p, enc_chunk(c), enc_chunks(rest));
        assert(chunk_wf(c));
        lemma_decode_chunk(b, p, c);
        assert(enc_chunk(c).len() >= 8);
        assert forall|i: int| 0 <= i < rest.len() implies chunk_wf(#[trigger] rest[i]) by {
            assert(rest[i] == cs[i + 1]);
        }
        lemma_decode_walk(b, p + enc_chunk(c).len(), declared, rest);
        assert(seq![c] + rest =~= cs);
    }
}

/// Parsing the layout of a well-formed file model gives back the model,
/// field for field.
pub proof fn law_round_trip(w: WavModel)
    requires
        wav_wf(w),
    ensures
        spec_parse(enc_wav(w)) == Ok::<WavModel, ParseError>(w),
{
    let b = enc_wav(w);
    let head1 = riff_tag().spec_bytes() + le32(w.riff.file_size);
    let head2 = head1 + wave_tag().spec_bytes();
    assert(b.subrange(0, b.len() as int) =~= b);
    lemma_split(b, 0, head2, enc_chunks(w.chunks));
    lemma_split(b, 0, head1, wave_tag().spec_bytes());
    lemma_split(b, 0, riff_tag().spec_bytes(), le32(w.riff.file_size));
    lemma_tag(b, 0, riff_tag());
    lemma_tag(b, 8, wave_tag());
    lemma_le32(b, 4, w.riff.file_size);
    lemma_decode_walk(b, 12, w.riff.file_size, w.chunks);
}

/// The layout of a well-formed file model parses, and the walk takes its
/// bytes exactly: the twelve header bytes and then each chunk's span.
pub proof fn law_well_formed_file_consumed(w: WavModel)
    requires
        wav_wf(w),
    ensures
        spec_parse(enc_wav(w)) is Ok,
        12 + chunks_span(w.chunks) == enc_wav(w).len(),
{
    law_round_trip(w);
    law_parse_consumes_buffer(enc_wav(w));
}

} // verus!
