//! The bytes of a file as spec functions: how each chunk model is laid out,
//! and when a model is one that the layout can carry.
use vstd::prelude::*;

use crate::chunks::{
    ChunkModel, DataModel, FmtModel, FrameModel, ID3v2Model, InfoRecordModel, ListInfoModel,
    UnknownModel, WavModel, XHeaderModel,
};
use crate::grammar::{data_tag, fmt_tag, id3_chunk_tag, info_tag, list_tag, pad, riff_tag, wave_tag};

verus! {

pub open spec fn le16(v: u16) -> Seq<u8> {
    seq![(v % 256) as u8, (v / 256) as u8]
}

pub open spec fn le32(v: u32) -> Seq<u8> {
    seq![(v % 256) as u8, (v / 256 % 256) as u8, (v / 256 / 256 % 256) as u8, (v / 256 / 256 / 256) as u8]
}

pub open spec fn be16(v: u16) -> Seq<u8> {
    seq![(v / 256) as u8, (v % 256) as u8]
}

pub open spec fn be32(v: u32) -> Seq<u8> {
    seq![(v / 256 / 256 / 256) as u8, (v / 256 / 256 % 256) as u8, (v / 256 % 256) as u8, (v % 256) as u8]
}

/// The pad byte after an odd-sized payload.
pub open spec fn pad_bytes(n: u32) -> Seq<u8> {
    if n % 2 == 1 {
        seq![0u8]
    } else {
        Seq::empty()
    }
}

pub open spec fn enc_fmt(m: FmtModel) -> Seq<u8> {
    fmt_tag().spec_bytes() + le32(m.chunk_size) + le16(m.compression_code) + le16(
        m.number_of_channels,
    ) + le32(m.sample_rate) + le32(m.byte_rate) + le16(m.block_align) + le16(m.bits_per_sample)
        + match m.extra_bytes {
        Some(e) => le16(e),
        None => Seq::empty(),
    } + match m.extended {
        Some(x) => le16(x.num_valid_bits) + le32(x.channel_mask) + le16(x.compression_code)
            + x.wav_guid,
        None => Seq::empty(),
    }
}

pub open spec fn enc_data(m: DataModel) -> Seq<u8> {
    data_tag().spec_bytes() + le32(m.chunk_size) + m.sample_data + pad_bytes(m.chunk_size)
}

pub open spec fn enc_record(r: InfoRecordModel) -> Seq<u8> {
    r.info_id.spec_bytes() + le32(r.chunk_size) + r.text + pad_bytes(r.chunk_size)
}

pub open spec fn enc_records(rs: Seq<InfoRecordModel>) -> Seq<u8>
    decreases rs.len(),
{
    if rs.len() == 0 {
        Seq::empty()
    } else {
        enc_record(rs[0]) + enc_records(rs.drop_first())
    }
}

pub open spec fn enc_list_info(m: ListInfoModel) -> Seq<u8> {
    list_tag().spec_bytes() + le32(m.chunk_size) + info_tag().spec_bytes() + enc_records(m.data)
}

pub open spec fn enc_frame(f: FrameModel) -> Seq<u8> {
    f.frame_id.spec_bytes() + be32(f.frame_size) + be16(f.flags) + f.data
}

pub open spec fn enc_frames(fs: Seq<FrameModel>) -> Seq<u8>
    decreases fs.len(),
{
    if fs.len() == 0 {
        Seq::empty()
    } else {
        enc_frame(fs[0]) + enc_frames(fs.drop_first())
    }
}

pub open spec fn enc_xheader(x: XHeaderModel) -> Seq<u8> {
    be32(x.chunk_size) + be16(x.extended_flags) + be32(x.padding_size) + x.data
}

pub open spec fn enc_id3v2(m: ID3v2Model) -> Seq<u8> {
    id3_chunk_tag().spec_bytes() + le32(m.chunk_size) + seq![0x49u8, 0x44u8, 0x33u8] + seq![
        m.major_version,
        m.minor_version,
        m.flags,
    ] + be32(m.id3v2_size) + match m.xheader {
        Some(x) => enc_xheader(x),
        None => Seq::empty(),
    } + enc_frames(m.tags) + pad_bytes(m.id3v2_size)
}

pub open spec fn enc_unknown(m: UnknownModel) -> Seq<u8> {
    m.chunk_id.spec_bytes() + le32(m.chunk_size) + m.data + pad_bytes(m.chunk_size)
}

pub open spec fn enc_chunk(c: ChunkModel) -> Seq<u8> {
    match c {
        ChunkModel::Fmt(m) => enc_fmt(m),
        ChunkModel::Data(m) => enc_data(m),
        ChunkModel::ListInfo(m) => enc_list_info(m),
        ChunkModel::ID3v2(m) => enc_id3v2(m),
        ChunkModel::Unknown(m) => enc_unknown(m),
    }
}

pub open spec fn enc_chunks(cs: Seq<ChunkModel>) -> Seq<u8>
    decreases cs.len(),
{
    if cs.len() == 0 {
        Seq::empty()
    } else {
        enc_chunk(cs[0]) + enc_chunks(cs.drop_first())
    }
}

pub open spec fn enc_wav(w: WavModel) -> Seq<u8> {
    riff_tag().spec_bytes() + le32(w.riff.file_size) + wave_tag().spec_bytes() + enc_chunks(
        w.chunks,
    )
}

/// A format chunk whose optional parts are those its declared size calls
/// for.
pub open spec fn fmt_wf(m: FmtModel) -> bool {
    &&& (m.chunk_size == 18 || m.chunk_size == 40) <==> m.extra_bytes is Some
    &&& (m.chunk_size == 40) <==> m.extended is Some
    &&& m.extended matches Some(x) ==> x.wav_guid.len() == 14
}

pub open spec fn data_wf(m: DataModel) -> bool {
    m.sample_data.len() == m.chunk_size
}

pub open spec fn records_wf(rs: Seq<InfoRecordModel>) -> bool {
    forall|i: int| 0 <= i < rs.len() ==> (#[trigger] rs[i]).text.len() == rs[i].chunk_size
}

/// A LIST chunk whose declared size counts "INFO" and its records.
pub open spec fn list_wf(m: ListInfoModel) -> bool {
    records_wf(m.data) && m.chunk_size == 4 + enc_records(m.data).len()
}

pub open spec fn frames_wf(fs: Seq<FrameModel>) -> bool {
    forall|i: int| 0 <= i < fs.len() ==> (#[trigger] fs[i]).data.len() == fs[i].frame_size
}

/// An ID3v2 chunk whose flag tells of its extended header, whose body size
/// is that of its frames, and whose declared size, rounded up to even, is
/// what follows its first eight bytes.
pub open spec fn id3_wf(m: ID3v2Model) -> bool {
    &&& (m.flags & 0x80 != 0) <==> m.xheader is Some
    &&& m.xheader matches Some(x) ==> x.data.len() == x.chunk_size
    &&& frames_wf(m.tags)
    &&& m.id3v2_size == enc_frames(m.tags).len()
    &&& m.chunk_size + pad(m.chunk_size) == 10 + match m.xheader {
        Some(x) => enc_xheader(x).len(),
        None => 0,
    } + m.id3v2_size + pad(m.id3v2_size)
}

/// A chunk of unknown kind, whose tag is none of those with a decoder of
/// their own.
pub open spec fn unknown_wf(m: UnknownModel) -> bool {
    &&& m.data.len() == m.chunk_size
    &&& m.chunk_id != fmt_tag()
    &&& m.chunk_id != data_tag()
    &&& m.chunk_id != list_tag()
    &&& m.chunk_id != id3_chunk_tag()
}

pub open spec fn chunk_wf(c: ChunkModel) -> bool {
    match c {
        ChunkModel::Fmt(m) => fmt_wf(m),
        ChunkModel::Data(m) => data_wf(m),
        ChunkModel::ListInfo(m) => list_wf(m),
        ChunkModel::ID3v2(m) => id3_wf(m),
        ChunkModel::Unknown(m) => unknown_wf(m),
    }
}

/// A file model that the layout carries: "WAVE" form, chunks that are each
/// well formed, and a declared size that counts the form type and the
/// chunks.
pub open spec fn wav_wf(w: WavModel) -> bool {
    &&& w.riff.wave_ident == wave_tag()
    &&& forall|i: int| 0 <= i < w.chunks.len() ==> chunk_wf(#[trigger] w.chunks[i])
    &&& w.riff.file_size == 4 + enc_chunks(w.chunks).len()
}

} // verus!
