//! The chunk decoders, the dispatcher that tries them in order, and the walk
//! over a whole buffer. Each function computes exactly what its counterpart
//! in `grammar` describes.
use vstd::prelude::*;

use crate::chunks::{
    Chunk, DataChunk, ExtendedFmtSubChunk, FmtChunk, ID3v2Chunk, ID3v2TagSubChunk,
    ChunkModel, ID3v2XHeaderSubChunk, InfoRecordModel, FrameModel, ListInfoChunk, ListInfoSubChunk, RiffChunk,
    UnknownChunk, WavFile,
};
use crate::cursor::{ContainerCursor, Endian};
use crate::error::{FourCC, ParseError};
use crate::grammar::{
    lemma_next_chunk_advances, spec_data, spec_fmt, spec_frames, spec_id3v2, spec_info_records,
    spec_list_info, spec_next_chunk, spec_parse, spec_riff_header, spec_unknown, spec_walk,
    spec_walk_prefix,
    spec_xheader,
};

verus! {

/// What a decoder owes: on the spec's success the decoded value with the
/// cursor after it, and otherwise the spec's error.
pub open spec fn decoded<T: View>(
    spec: Result<(T::V, int), ParseError>,
    r: Result<T, ParseError>,
    after: ContainerCursor,
) -> bool {
    match spec {
        Ok((m, n)) => r is Ok && r->Ok_0@ == m && after.pos() == n,
        Err(e) => r is Err && r->Err_0 == e,
    }
}

/// The error as it stands inside the chunk tagged `t`: an out-of-bounds
/// read names that chunk.
pub open spec fn within(e: ParseError, t: FourCC) -> ParseError {
    match e {
        ParseError::OutOfBounds { offset, .. } => ParseError::OutOfBounds { offset, tag: Some(t) },
        _ => e,
    }
}

fn within_chunk(e: ParseError, t: FourCC) -> (r: ParseError)
    ensures
        r == within(e, t),
{
    match e {
        ParseError::OutOfBounds { offset, .. } => ParseError::OutOfBounds { offset, tag: Some(t) },
        _ => e,
    }
}

/// Decodes the container header at the start of the buffer.
pub fn decode_riff_header(cur: &mut ContainerCursor) -> (r: Result<RiffChunk, ParseError>)
    requires
        old(cur).wf(),
        old(cur).pos() == 0,
    ensures
        final(cur).wf(),
        final(cur).bytes() == old(cur).bytes(),
        match spec_riff_header(old(cur).bytes()) {
            Ok(h) => r == Ok::<RiffChunk, ParseError>(h) && final(cur).pos() == 12,
            Err(e) => r == Err::<RiffChunk, ParseError>(e),
        },
{
    let tag = match cur.read_tag() {
        Ok(t) => t,
        Err(e) => return Err(e),
    };
    if tag != FourCC(0x52, 0x49, 0x46, 0x46) {
        return Err(ParseError::MalformedContainer { offset: 0, tag });
    }
    let file_size = match cur.read_u32(Endian::Little) {
        Ok(v) => v,
        Err(e) => return Err(within_chunk(e, tag)),
    };
    let wave_ident = match cur.read_tag() {
        Ok(t) => t,
        Err(e) => return Err(within_chunk(e, tag)),
    };
    if wave_ident != FourCC(0x57, 0x41, 0x56, 0x45) {
        return Err(ParseError::MalformedContainer { offset: 8, tag: wave_ident });
    }
    Ok(RiffChunk { file_size, wave_ident })
}

/// Decodes a "fmt " chunk at the cursor.
pub fn decode_fmt(cur: &mut ContainerCursor) -> (r: Result<FmtChunk, ParseError>)
    requires
        old(cur).wf(),
    ensures
        final(cur).wf(),
        final(cur).bytes() == old(cur).bytes(),
        decoded(spec_fmt(old(cur).bytes(), old(cur).pos()), r, *final(cur)),
{
    let p = cur.position();
    let tag = match cur.read_tag() {
        Ok(t) => t,
        Err(e) => return Err(e),
    };
    if tag != FourCC(0x66, 0x6d, 0x74, 0x20) {
        return Err(ParseError::TagMismatch { offset: p });
    }
    let chunk_size = match cur.read_u32(Endian::Little) {
        Ok(v) => v,
        Err(e) => return Err(within_chunk(e, tag)),
    };
    if !cur.has(16) {
        return Err(ParseError::OutOfBounds { offset: cur.position(), tag: Some(tag) });
    }
    let compression_code = match cur.read_u16(Endian::Little) {
        Ok(v) => v,
        Err(e) => return Err(within_chunk(e, tag)),
    };
    let number_of_channels = match cur.read_u16(Endian::Little) {
        Ok(v) => v,
        Err(e) => return Err(within_chunk(e, tag)),
    };
    let sample_rate = match cur.read_u32(Endian::Little) {
        Ok(v) => v,
        Err(e) => return Err(within_chunk(e, tag)),
    };
    let byte_rate = match cur.read_u32(Endian::Little) {
        Ok(v) => v,
        Err(e) => return Err(within_chunk(e, tag)),
    };
    let block_align = match cur.read_u16(Endian::Little) {
        Ok(v) => v,
        Err(e) => return Err(within_chunk(e, tag)),
    };
    let bits_per_sample = match cur.read_u16(Endian::Little) {
        Ok(v) => v,
        Err(e) => return Err(within_chunk(e, tag)),
    };
    let extra_bytes = if chunk_size == 18 || chunk_size == 40 {
        match cur.read_u16(Endian::Little) {
            Ok(v) => Some(v),
            Err(e) => return Err(within_chunk(e, tag)),
        }
    } else {
        None
    };
    let extended_fmt_sub_chunk = if chunk_size == 40 {
        if !cur.has(22) {
            return Err(ParseError::OutOfBounds { offset: cur.position(), tag: Some(tag) });
        }
        let num_valid_bits = match cur.read_u16(Endian::Little) {
            Ok(v) => v,
            Err(e) => return Err(within_chunk(e, tag)),
        };
        let channel_mask = match cur.read_u32(Endian::Little) {
            Ok(v) => v,
            Err(e) => return Err(within_chunk(e, tag)),
        };
        let code = match cur.read_u16(Endian::Little) {
            Ok(v) => v,
            Err(e) => return Err(within_chunk(e, tag)),
        };
        let wav_guid = match cur.read_bytes(14) {
            Ok(v) => v,
            Err(e) => return Err(within_chunk(e, tag)),
        };
        Some(ExtendedFmtSubChunk { num_valid_bits, channel_mask, compression_code: code, wav_guid })
    } else {
        None
    };
    Ok(
        FmtChunk {
            chunk_size,
            compression_code,
            number_of_channels,
            sample_rate,
            byte_rate,
            block_align,
            bits_per_sample,
            extra_bytes,
            extended_fmt_sub_chunk,
        },
    )
}

/// Decodes a "data" chunk at the cursor, with its pad byte.
pub fn decode_data(cur: &mut ContainerCursor) -> (r: Result<DataChunk, ParseError>)
    requires
        old(cur).wf(),
    ensures
        final(cur).wf(),
        final(cur).bytes() == old(cur).bytes(),
        decoded(spec_data(old(cur).bytes(), old(cur).pos()), r, *final(cur)),
{
    let p = cur.position();
    let tag = match cur.read_tag() {
        Ok(t) => t,
        Err(e) => return Err(e),
    };
    if tag != FourCC(0x64, 0x61, 0x74, 0x61) {
        return Err(ParseError::TagMismatch { offset: p });
    }
    let chunk_size = match cur.read_u32(Endian::Little) {
        Ok(v) => v,
        Err(e) => return Err(within_chunk(e, tag)),
    };
    let sample_data = match cur.read_bytes(chunk_size as usize) {
        Ok(v) => v,
        Err(e) => return Err(within_chunk(e, tag)),
    };
    if chunk_size % 2 == 1 {
        match cur.read_u8() {
            Ok(_) => {},
            Err(e) => return Err(within_chunk(e, tag)),
        }
    }
    Ok(DataChunk { chunk_size, sample_data })
}

/// Decodes the text records that fill the cursor's bytes up to `end`.
fn decode_info_records(cur: &mut ContainerCursor, end: usize) -> (r: Result<
    Vec<ListInfoSubChunk>,
    ParseError,
>)
    requires
        old(cur).wf(),
        old(cur).pos() <= end <= old(cur).bytes().len(),
    ensures
        final(cur).wf(),
        final(cur).bytes() == old(cur).bytes(),
        match spec_info_records(old(cur).bytes(), old(cur).pos(), end as int) {
            Ok(rs) => r is Ok && r->Ok_0@.map_values(|s: ListInfoSubChunk| s@) == rs
                && final(cur).pos() == end,
            Err(e) => r is Err && r->Err_0 == e,
        },
{
    let ghost b = cur.bytes();
    let ghost start = cur.pos();
    let mut out: Vec<ListInfoSubChunk> = Vec::new();
    while cur.position() < end
        invariant
            cur.wf(),
            cur.bytes() == b,
            b == old(cur).bytes(),
            start == old(cur).pos(),
            cur.pos() <= end <= b.len(),
            spec_info_records(b, start, end as int) == match spec_info_records(
                b,
                cur.pos(),
                end as int,
            ) {
                Ok(rest) => Ok(out@.map_values(|s: ListInfoSubChunk| s@) + rest),
                Err(e) => Err(e),
            },
        decreases end - cur.pos(),
    {
        let q = cur.position();
        if end - q < 8 {
            return Err(ParseError::FramingMismatch { offset: q, tag: FourCC(0x4c, 0x49, 0x53, 0x54) });
        }
        let info_id = match cur.read_tag() {
            Ok(t) => t,
            Err(e) => return Err(e),
        };
        let chunk_size = match cur.read_u32(Endian::Little) {
            Ok(v) => v,
            Err(e) => return Err(e),
        };
        let padded: u64 = chunk_size as u64 + (chunk_size % 2) as u64;
        if padded > (end - q - 8) as u64 {
            return Err(ParseError::FramingMismatch { offset: q, tag: FourCC(0x4c, 0x49, 0x53, 0x54) });
        }
        let text = match cur.read_bytes(chunk_size as usize) {
            Ok(v) => v,
            Err(e) => return Err(e),
        };
        if chunk_size % 2 == 1 {
            match cur.read_u8() {
                Ok(_) => {},
                Err(e) => return Err(e),
            }
        }
        let rec = ListInfoSubChunk { info_id, chunk_size, text };
        let ghost before = out@.map_values(|s: ListInfoSubChunk| s@);
        out.push(rec);
        proof {
            let rest = spec_info_records(b, cur.pos(), end as int);
            assert(out@.map_values(|s: ListInfoSubChunk| s@) =~= before.push(rec@));
            if let Ok(rs) = rest {
                assert(before + (seq![rec@] + rs) =~= before.push(rec@) + rs);
            }
        }
    }
    assert(spec_info_records(b, cur.pos(), end as int) == Ok::<Seq<InfoRecordModel>, ParseError>(
        Seq::empty(),
    ));
    assert(out@.map_values(|s: ListInfoSubChunk| s@) + Seq::<InfoRecordModel>::empty()
        =~= out@.map_values(|s: ListInfoSubChunk| s@));
    Ok(out)
}

/// Decodes a "LIST" chunk of form "INFO" at the cursor.
pub fn decode_list_info(cur: &mut ContainerCursor) -> (r: Result<ListInfoChunk, ParseError>)
    requires
        old(cur).wf(),
    ensures
        final(cur).wf(),
        final(cur).bytes() == old(cur).bytes(),
        decoded(spec_list_info(old(cur).bytes(), old(cur).pos()), r, *final(cur)),
{
    let p = cur.position();
    let tag = match cur.read_tag() {
        Ok(t) => t,
        Err(e) => return Err(e),
    };
    if tag != FourCC(0x4c, 0x49, 0x53, 0x54) {
        return Err(ParseError::TagMismatch { offset: p });
    }
    let chunk_size = match cur.read_u32(Endian::Little) {
        Ok(v) => v,
        Err(e) => return Err(within_chunk(e, tag)),
    };
    let q = cur.position();
    let form = match cur.read_tag() {
        Ok(t) => t,
        Err(e) => return Err(within_chunk(e, tag)),
    };
    if form != FourCC(0x49, 0x4e, 0x46, 0x4f) {
        return Err(ParseError::TagMismatch { offset: q });
    }
    if chunk_size < 4 {
        return Err(ParseError::FramingMismatch { offset: q - 4, tag });
    }
    let body = cur.position();
    if !cur.has((chunk_size - 4) as usize) {
        return Err(ParseError::OutOfBounds { offset: body, tag: Some(tag) });
    }
    let end = body + (chunk_size - 4) as usize;
    let data = match decode_info_records(cur, end) {
        Ok(v) => v,
        Err(e) => return Err(e),
    };
    Ok(ListInfoChunk { chunk_size, data })
}

/// Decodes the ID3v2 frames that fill the cursor's bytes up to `end`.
fn decode_frames(cur: &mut ContainerCursor, end: usize) -> (r: Result<
    Vec<ID3v2TagSubChunk>,
    ParseError,
>)
    requires
        old(cur).wf(),
        old(cur).pos() <= end <= old(cur).bytes().len(),
    ensures
        final(cur).wf(),
        final(cur).bytes() == old(cur).bytes(),
        match spec_frames(old(cur).bytes(), old(cur).pos(), end as int) {
            Ok(fs) => r is Ok && r->Ok_0@.map_values(|t: ID3v2TagSubChunk| t@) == fs
                && final(cur).pos() == end,
            Err(e) => r is Err && r->Err_0 == e,
        },
{
    let ghost b = cur.bytes();
    let ghost start = cur.pos();
    let mut out: Vec<ID3v2TagSubChunk> = Vec::new();
    while cur.position() < end
        invariant
            cur.wf(),
            cur.bytes() == b,
            b == old(cur).bytes(),
            start == old(cur).pos(),
            cur.pos() <= end <= b.len(),
            spec_frames(b, start, end as int) == match spec_frames(b, cur.pos(), end as int) {
                Ok(rest) => Ok(out@.map_values(|t: ID3v2TagSubChunk| t@) + rest),
                Err(e) => Err(e),
            },
        decreases end - cur.pos(),
    {
        let q = cur.position();
        if end - q < 10 {
            return Err(ParseError::FramingMismatch { offset: q, tag: FourCC(0x69, 0x64, 0x33, 0x20) });
        }
        let frame_id = match cur.read_tag() {
            Ok(t) => t,
            Err(e) => return Err(e),
        };
        let frame_size = match cur.read_u32(Endian::Big) {
            Ok(v) => v,
            Err(e) => return Err(e),
        };
        let flags = match cur.read_u16(Endian::Big) {
            Ok(v) => v,
            Err(e) => return Err(e),
        };
        if frame_size as u64 > (end - q - 10) as u64 {
            return Err(ParseError::FramingMismatch { offset: q, tag: FourCC(0x69, 0x64, 0x33, 0x20) });
        }
        let data = match cur.read_bytes(frame_size as usize) {
            Ok(v) => v,
            Err(e) => return Err(e),
        };
        let tag = ID3v2TagSubChunk { frame_id, frame_size, flags, data };
        let ghost before = out@.map_values(|t: ID3v2TagSubChunk| t@);
        out.push(tag);
        proof {
            let rest = spec_frames(b, cur.pos(), end as int);
            assert(out@.map_values(|t: ID3v2TagSubChunk| t@) =~= before.push(tag@));
            if let Ok(fs) = rest {
                assert(before + (seq![tag@] + fs) =~= before.push(tag@) + fs);
            }
        }
    }
    assert(out@.map_values(|t: ID3v2TagSubChunk| t@) + Seq::<FrameModel>::empty()
        =~= out@.map_values(|t: ID3v2TagSubChunk| t@));
    Ok(out)
}

/// Decodes the extended header of an ID3v2 tag at the cursor.
fn decode_xheader(cur: &mut ContainerCursor) -> (r: Result<ID3v2XHeaderSubChunk, ParseError>)
    requires
        old(cur).wf(),
    ensures
        final(cur).wf(),
        final(cur).bytes() == old(cur).bytes(),
        decoded(spec_xheader(old(cur).bytes(), old(cur).pos()), r, *final(cur)),
{
    let tag = FourCC(0x69, 0x64, 0x33, 0x20);
    if !cur.has(10) {
        return Err(ParseError::OutOfBounds { offset: cur.position(), tag: Some(tag) });
    }
    let chunk_size = match cur.read_u32(Endian::Big) {
        Ok(v) => v,
        Err(e) => return Err(within_chunk(e, tag)),
    };
    let extended_flags = match cur.read_u16(Endian::Big) {
        Ok(v) => v,
        Err(e) => return Err(within_chunk(e, tag)),
    };
    let padding_size = match cur.read_u32(Endian::Big) {
        Ok(v) => v,
        Err(e) => return Err(within_chunk(e, tag)),
    };
    let data = match cur.read_bytes(chunk_size as usize) {
        Ok(v) => v,
        Err(e) => return Err(within_chunk(e, tag)),
    };
    Ok(ID3v2XHeaderSubChunk { chunk_size, extended_flags, padding_size, data })
}

/// Decodes an "id3 " chunk at the cursor.
pub fn decode_id3v2(cur: &mut ContainerCursor) -> (r: Result<ID3v2Chunk, ParseError>)
    requires
        old(cur).wf(),
    ensures
        final(cur).wf(),
        final(cur).bytes() == old(cur).bytes(),
        decoded(spec_id3v2(old(cur).bytes(), old(cur).pos()), r, *final(cur)),
{
    let p = cur.position();
    let tag = match cur.read_tag() {
        Ok(t) => t,
        Err(e) => return Err(e),
    };
    if tag != FourCC(0x69, 0x64, 0x33, 0x20) {
        return Err(ParseError::TagMismatch { offset: p });
    }
    let chunk_size = match cur.read_u32(Endian::Little) {
        Ok(v) => v,
        Err(e) => return Err(within_chunk(e, tag)),
    };
    let q = cur.position();
    if !cur.has(3) {
        return Err(ParseError::OutOfBounds { offset: cur.position(), tag: Some(tag) });
    }
    let m0 = match cur.read_u8() {
        Ok(v) => v,
        Err(e) => return Err(within_chunk(e, tag)),
    };
    let m1 = match cur.read_u8() {
        Ok(v) => v,
        Err(e) => return Err(within_chunk(e, tag)),
    };
    let m2 = match cur.read_u8() {
        Ok(v) => v,
        Err(e) => return Err(within_chunk(e, tag)),
    };
    if !(m0 == 0x49 && m1 == 0x44 && m2 == 0x33) {
        return Err(ParseError::TagMismatch { offset: q });
    }
    if !cur.has(7) {
        return Err(ParseError::OutOfBounds { offset: cur.position(), tag: Some(tag) });
    }
    let major_version = match cur.read_u8() {
        Ok(v) => v,
        Err(e) => return Err(within_chunk(e, tag)),
    };
    let minor_version = match cur.read_u8() {
        Ok(v) => v,
        Err(e) => return Err(within_chunk(e, tag)),
    };
    let flags = match cur.read_u8() {
        Ok(v) => v,
        Err(e) => return Err(within_chunk(e, tag)),
    };
    let id3v2_size = match cur.read_u32(Endian::Big) {
        Ok(v) => v,
        Err(e) => return Err(within_chunk(e, tag)),
    };
    let xheader = if flags & 0x80 != 0 {
        match decode_xheader(cur) {
            Ok(x) => Some(x),
            Err(e) => return Err(e),
        }
    } else {
        None
    };
    let s = cur.position();
    if !cur.has(id3v2_size as usize) {
        return Err(ParseError::OutOfBounds { offset: s, tag: Some(tag) });
    }
    let end = s + id3v2_size as usize;
    let tags = match decode_frames(cur, end) {
        Ok(v) => v,
        Err(e) => return Err(e),
    };
    if id3v2_size % 2 == 1 {
        match cur.read_u8() {
            Ok(_) => {},
            Err(e) => return Err(within_chunk(e, tag)),
        }
    }
    let consumed = cur.position() - (p + 8);
    if consumed as u64 != chunk_size as u64 + (chunk_size % 2) as u64 {
        return Err(ParseError::FramingMismatch { offset: p, tag });
    }
    Ok(
        ID3v2Chunk {
            chunk_size,
            major_version,
            minor_version,
            flags,
            id3v2_size,
            xheader,
            tags,
        },
    )
}

/// Decodes any chunk at the cursor as an unknown one, with its pad byte.
pub fn decode_unknown(cur: &mut ContainerCursor) -> (r: Result<UnknownChunk, ParseError>)
    requires
        old(cur).wf(),
    ensures
        final(cur).wf(),
        final(cur).bytes() == old(cur).bytes(),
        decoded(spec_unknown(old(cur).bytes(), old(cur).pos()), r, *final(cur)),
{
    let chunk_id = match cur.read_tag() {
        Ok(t) => t,
        Err(e) => return Err(e),
    };
    let chunk_size = match cur.read_u32(Endian::Little) {
        Ok(v) => v,
        Err(e) => return Err(within_chunk(e, chunk_id)),
    };
    let data = match cur.read_bytes(chunk_size as usize) {
        Ok(v) => v,
        Err(e) => return Err(within_chunk(e, chunk_id)),
    };
    if chunk_size % 2 == 1 {
        match cur.read_u8() {
            Ok(_) => {},
            Err(e) => return Err(within_chunk(e, chunk_id)),
        }
    }
    Ok(UnknownChunk { chunk_id, chunk_size, data })
}

/// Decodes the chunk at the cursor: the decoders are tried in the order fmt,
/// data, LIST, id3, unknown, each from the same position; a tag mismatch
/// passes on to the next, any other error stops. Where even the unknown
/// decoder fails, the chunk is unrecognized.
pub fn next_chunk(cur: &mut ContainerCursor) -> (r: Result<Chunk, ParseError>)
    requires
        old(cur).wf(),
    ensures
        final(cur).wf(),
        final(cur).bytes() == old(cur).bytes(),
        decoded(spec_next_chunk(old(cur).bytes(), old(cur).pos()), r, *final(cur)),
{
    reveal(spec_next_chunk);
    let saved = *cur;
    match decode_fmt(cur) {
        Ok(c) => return Ok(Chunk::Fmt(c)),
        Err(ParseError::TagMismatch { .. }) => {},
        Err(e) => return Err(e),
    }
    *cur = saved;
    match decode_data(cur) {
        Ok(c) => return Ok(Chunk::Data(c)),
        Err(ParseError::TagMismatch { .. }) => {},
        Err(e) => return Err(e),
    }
    *cur = saved;
    match decode_list_info(cur) {
        Ok(c) => return Ok(Chunk::ListInfo(c)),
        Err(ParseError::TagMismatch { .. }) => {},
        Err(e) => return Err(e),
    }
    *cur = saved;
    match decode_id3v2(cur) {
        Ok(c) => return Ok(Chunk::ID3v2(c)),
        Err(ParseError::TagMismatch { .. }) => {},
        Err(e) => return Err(e),
    }
    *cur = saved;
    match decode_unknown(cur) {
        Ok(c) => Ok(Chunk::Unknown(c)),
        Err(_) => {
            *cur = saved;
            let p = cur.position();
            match cur.read_tag() {
                Ok(tag) => Err(ParseError::UnrecognizedChunk { offset: p, tag }),
                Err(e) => Err(e),
            }
        },
    }
}

/// What a walk over a buffer got: the header where it could be read, the
/// chunks decoded in order, and the error that stopped the walk, if any.
pub struct PartialWalk {
    pub riff: Option<RiffChunk>,
    pub chunks: Vec<Chunk>,
    pub error: Option<ParseError>,
}

/// Walks a whole buffer as `parse_wav` does, but keeps the chunks decoded
/// before an error stopped the walk.
pub fn walk_wav(buffer: &[u8]) -> (r: PartialWalk)
    ensures
        match spec_riff_header(buffer@) {
            Err(e) => r.riff is None && r.chunks.len() == 0 && r.error == Some(e),
            Ok(h) => r.riff == Some(h) && r.chunks@.map_values(|c: Chunk| c@) == spec_walk_prefix(
                buffer@,
                12,
                h.file_size,
            ),
        },
        match spec_parse(buffer@) {
            Ok(_) => r.error is None,
            Err(e) => r.error == Some(e),
        },
{
    let ghost b = buffer@;
    let mut cur = ContainerCursor::new(buffer);
    let riff = match decode_riff_header(&mut cur) {
        Ok(h) => h,
        Err(e) => return PartialWalk { riff: None, chunks: Vec::new(), error: Some(e) },
    };
    let file_size = riff.file_size;
    let mut chunks: Vec<Chunk> = Vec::new();
    while cur.position() - 8 < file_size as usize
        invariant
            cur.wf(),
            cur.bytes() == b,
            12 <= cur.pos() <= b.len(),
            b == buffer@,
            file_size == riff.file_size,
            spec_riff_header(b) == Ok::<RiffChunk, ParseError>(riff),
            spec_walk_prefix(b, 12, file_size) == chunks@.map_values(|c: Chunk| c@)
                + spec_walk_prefix(b, cur.pos(), file_size),
            spec_walk(b, 12, file_size) == match spec_walk(b, cur.pos(), file_size) {
                Ok(rest) => Ok(chunks@.map_values(|c: Chunk| c@) + rest),
                Err(e) => Err(e),
            },
        decreases b.len() - cur.pos(),
    {
        let ghost p = cur.pos();
        let c = match next_chunk(&mut cur) {
            Ok(c) => c,
            Err(e) => {
                assert(chunks@.map_values(|c: Chunk| c@) + Seq::<ChunkModel>::empty()
                    =~= chunks@.map_values(|c: Chunk| c@));
                return PartialWalk { riff: Some(riff), chunks, error: Some(e) };
            },
        };
        proof {
            lemma_next_chunk_advances(b, p);
        }
        let ghost before = chunks@.map_values(|c: Chunk| c@);
        chunks.push(c);
        proof {
            assert(chunks@.map_values(|c: Chunk| c@) =~= before.push(c@));
            assert(before + (seq![c@] + spec_walk_prefix(b, cur.pos(), file_size)) =~= before.push(
                c@,
            ) + spec_walk_prefix(b, cur.pos(), file_size));
            if let Ok(rest) = spec_walk(b, cur.pos(), file_size) {
                assert(before + (seq![c@] + rest) =~= before.push(c@) + rest);
            }
        }
    }
    assert(chunks@.map_values(|c: Chunk| c@) + Seq::<ChunkModel>::empty() =~= chunks@.map_values(
        |c: Chunk| c@,
    ));
    let end = cur.position();
    if end != cur.len() {
        let tag = match cur.read_tag() {
            Ok(t) => Some(t),
            Err(_) => None,
        };
        let e = ParseError::TrailingOrMissingBytes { position: end, length: cur.len(), tag };
        return PartialWalk { riff: Some(riff), chunks, error: Some(e) };
    }
    if file_size as usize != end - 8 {
        let e = ParseError::MalformedContainer { offset: 4, tag: FourCC(0x52, 0x49, 0x46, 0x46) };
        return PartialWalk { riff: Some(riff), chunks, error: Some(e) };
    }
    PartialWalk { riff: Some(riff), chunks, error: None }
}

/// The chunks that a walk that succeeds from `p` gives are those it decodes
/// before it stops.
proof fn lemma_walk_prefix(b: Seq<u8>, p: int, declared: u32)
    ensures
        spec_walk(b, p, declared) matches Ok(cs) ==> spec_walk_prefix(b, p, declared) == cs,
    decreases b.len() - p,
{
    if p - 8 < declared {
        if let Ok((c, n)) = spec_next_chunk(b, p) {
            if p < n <= b.len() {
                lemma_walk_prefix(b, n, declared);
            }
        }
    }
}

/// Walks a whole buffer: the "RIFF" header, then chunk after chunk while the
/// position minus eight is below the declared size. The walk must end
/// exactly at the end of the buffer, and the declared size must be the
/// buffer's length minus eight.
pub fn parse_wav(buffer: &[u8]) -> (r: Result<WavFile, ParseError>)
    ensures
        match spec_parse(buffer@) {
            Ok(m) => r is Ok && r->Ok_0@ == m,
            Err(e) => r is Err && r->Err_0 == e,
        },
{
    let walk = walk_wav(buffer);
    proof {
        if let Ok(h) = spec_riff_header(buffer@) {
            lemma_walk_prefix(buffer@, 12, h.file_size);
        }
    }
    match walk.error {
        Some(e) => Err(e),
        None => match walk.riff {
            Some(riff) => Ok(WavFile { riff, chunks: walk.chunks }),
            // `walk_wav` reports no error only after reading the header.
            None => Err(ParseError::OutOfBounds { offset: 0, tag: None }),
        },
    }
}

} // verus!
