//! The RIFF/WAVE layout as spec functions over the bytes of a buffer. Each
//! decoder takes the buffer and the position of a chunk and gives the decoded
//! chunk with the position just after it, or the error that stops there.
use vstd::prelude::*;

use crate::chunks::{
    ChunkModel, DataModel, ExtendedFmtModel, FmtModel, FrameModel, ID3v2Model, InfoRecordModel,
    ListInfoModel, RiffChunk, UnknownModel, WavModel, XHeaderModel,
};
use crate::cursor::{be_u16_at, be_u32_at, le_u16_at, le_u32_at};
use crate::error::{FourCC, ParseError};

verus! {

pub open spec fn riff_tag() -> FourCC {
    FourCC(0x52, 0x49, 0x46, 0x46)
}

pub open spec fn wave_tag() -> FourCC {
    FourCC(0x57, 0x41, 0x56, 0x45)
}

pub open spec fn fmt_tag() -> FourCC {
    FourCC(0x66, 0x6d, 0x74, 0x20)
}

pub open spec fn data_tag() -> FourCC {
    FourCC(0x64, 0x61, 0x74, 0x61)
}

pub open spec fn list_tag() -> FourCC {
    FourCC(0x4c, 0x49, 0x53, 0x54)
}

pub open spec fn info_tag() -> FourCC {
    FourCC(0x49, 0x4e, 0x46, 0x4f)
}

pub open spec fn id3_chunk_tag() -> FourCC {
    FourCC(0x69, 0x64, 0x33, 0x20)
}

/// Whether the bytes at `p` are the "ID3" magic of an ID3v2 tag.
pub open spec fn id3_magic_at(b: Seq<u8>, p: int) -> bool {
    b[p] == 0x49 && b[p + 1] == 0x44 && b[p + 2] == 0x33
}

pub open spec fn oob(p: int, tag: Option<FourCC>) -> ParseError {
    ParseError::OutOfBounds { offset: p as usize, tag }
}

/// The padding byte that follows an odd-sized payload.
pub open spec fn pad(n: u32) -> int {
    (n % 2) as int
}

/// A "fmt " chunk at `p`: eight fixed fields, a filler when the declared size
/// is 18 or 40, and the extension when it is 40.
pub open spec fn spec_fmt(b: Seq<u8>, p: int) -> Result<(FmtModel, int), ParseError> {
    if p + 4 > b.len() {
        Err(oob(p, None))
    } else if FourCC::spec_at(b, p) != fmt_tag() {
        Err(ParseError::TagMismatch { offset: p as usize })
    } else if p + 8 > b.len() {
        Err(oob(p + 4, Some(fmt_tag())))
    } else {
        let size = le_u32_at(b, p + 4);
        let q = p + 8;
        let filler = size == 18 || size == 40;
        let r = q + 16;
        let s = if filler {
            r + 2
        } else {
            r
        };
        if q + 16 > b.len() {
            Err(oob(q, Some(fmt_tag())))
        } else if filler && r + 2 > b.len() {
            Err(oob(r, Some(fmt_tag())))
        } else if size == 40 && s + 22 > b.len() {
            Err(oob(s, Some(fmt_tag())))
        } else {
            let m = FmtModel {
                chunk_size: size,
                compression_code: le_u16_at(b, q),
                number_of_channels: le_u16_at(b, q + 2),
                sample_rate: le_u32_at(b, q + 4),
                byte_rate: le_u32_at(b, q + 8),
                block_align: le_u16_at(b, q + 12),
                bits_per_sample: le_u16_at(b, q + 14),
                extra_bytes: if filler {
                    Some(le_u16_at(b, r))
                } else {
                    None
                },
                extended: if size == 40 {
                    Some(
                        ExtendedFmtModel {
                            num_valid_bits: le_u16_at(b, s),
                            channel_mask: le_u32_at(b, s + 2),
                            compression_code: le_u16_at(b, s + 6),
                            wav_guid: b.subrange(s + 8, s + 22),
                        },
                    )
                } else {
                    None
                },
            };
            Ok(
                (
                    m,
                    if size == 40 {
                        s + 22
                    } else {
                        s
                    },
                ),
            )
        }
    }
}

/// A "data" chunk at `p`: the declared number of bytes, then a pad byte when
/// that number is odd.
pub open spec fn spec_data(b: Seq<u8>, p: int) -> Result<(DataModel, int), ParseError> {
    if p + 4 > b.len() {
        Err(oob(p, None))
    } else if FourCC::spec_at(b, p) != data_tag() {
        Err(ParseError::TagMismatch { offset: p as usize })
    } else if p + 8 > b.len() {
        Err(oob(p + 4, Some(data_tag())))
    } else {
        let size = le_u32_at(b, p + 4);
        let q = p + 8;
        let e = q + size;
        if e > b.len() {
            Err(oob(q, Some(data_tag())))
        } else if e + pad(size) > b.len() {
            Err(oob(e, Some(data_tag())))
        } else {
            Ok((DataModel { chunk_size: size, sample_data: b.subrange(q, e) }, e + pad(size)))
        }
    }
}

/// The text records that fill the bytes `q` .. `end` exactly.
pub open spec fn spec_info_records(b: Seq<u8>, q: int, end: int) -> Result<
    Seq<InfoRecordModel>,
    ParseError,
>
    decreases end - q,
{
    if q >= end {
        Ok(Seq::empty())
    } else if q + 8 > end {
        Err(ParseError::FramingMismatch { offset: q as usize, tag: list_tag() })
    } else {
        let size = le_u32_at(b, q + 4);
        let next = q + 8 + size + pad(size);
        if next > end {
            Err(ParseError::FramingMismatch { offset: q as usize, tag: list_tag() })
        } else {
            match spec_info_records(b, next, end) {
                Ok(rest) => Ok(
                    seq![
                        InfoRecordModel {
                            info_id: FourCC::spec_at(b, q),
                            chunk_size: size,
                            text: b.subrange(q + 8, q + 8 + size),
                        },
                    ] + rest,
                ),
                Err(e) => Err(e),
            }
        }
    }
}

/// A "LIST" chunk of form "INFO" at `p`. Its declared size counts the "INFO"
/// magic and the records, which must fill the rest of it exactly.
pub open spec fn spec_list_info(b: Seq<u8>, p: int) -> Result<(ListInfoModel, int), ParseError> {
    if p + 4 > b.len() {
        Err(oob(p, None))
    } else if FourCC::spec_at(b, p) != list_tag() {
        Err(ParseError::TagMismatch { offset: p as usize })
    } else if p + 8 > b.len() {
        Err(oob(p + 4, Some(list_tag())))
    } else if p + 12 > b.len() {
        Err(oob(p + 8, Some(list_tag())))
    } else if FourCC::spec_at(b, p + 8) != info_tag() {
        Err(ParseError::TagMismatch { offset: (p + 8) as usize })
    } else {
        let size = le_u32_at(b, p + 4);
        let end = p + 8 + size;
        if size < 4 {
            Err(ParseError::FramingMismatch { offset: (p + 4) as usize, tag: list_tag() })
        } else if end > b.len() {
            Err(oob(p + 12, Some(list_tag())))
        } else {
            match spec_info_records(b, p + 12, end) {
                Ok(rs) => Ok((ListInfoModel { chunk_size: size, data: rs }, end)),
                Err(e) => Err(e),
            }
        }
    }
}

/// The ID3v2 frames that fill the bytes `q` .. `end` exactly.
pub open spec fn spec_frames(b: Seq<u8>, q: int, end: int) -> Result<Seq<FrameModel>, ParseError>
    decreases end - q,
{
    if q >= end {
        Ok(Seq::empty())
    } else if q + 10 > end {
        Err(ParseError::FramingMismatch { offset: q as usize, tag: id3_chunk_tag() })
    } else {
        let size = be_u32_at(b, q + 4);
        let next = q + 10 + size;
        if next > end {
            Err(ParseError::FramingMismatch { offset: q as usize, tag: id3_chunk_tag() })
        } else {
            match spec_frames(b, next, end) {
                Ok(rest) => Ok(
                    seq![
                        FrameModel {
                            frame_id: FourCC::spec_at(b, q),
                            frame_size: size,
                            flags: be_u16_at(b, q + 8),
                            data: b.subrange(q + 10, next),
                        },
                    ] + rest,
                ),
                Err(e) => Err(e),
            }
        }
    }
}

/// The extended header of an ID3v2 tag at `q`, with the position after it.
pub open spec fn spec_xheader(b: Seq<u8>, q: int) -> Result<(XHeaderModel, int), ParseError> {
    if q + 10 > b.len() {
        Err(oob(q, Some(id3_chunk_tag())))
    } else {
        let size = be_u32_at(b, q);
        if q + 10 + size > b.len() {
            Err(oob(q + 10, Some(id3_chunk_tag())))
        } else {
            Ok(
                (
                    XHeaderModel {
                        chunk_size: size,
                        extended_flags: be_u16_at(b, q + 4),
                        padding_size: be_u32_at(b, q + 6),
                        data: b.subrange(q + 10, q + 10 + size),
                    },
                    q + 10 + size,
                ),
            )
        }
    }
}

/// An "id3 " chunk at `p`: the "ID3" header with its big-endian body size,
/// the extended header when flag bit 7 is set, the frames that fill the body,
/// and a pad byte when the body size is odd. What it takes after the chunk's
/// own eight bytes must be its declared size, rounded up to even.
pub open spec fn spec_id3v2(b: Seq<u8>, p: int) -> Result<(ID3v2Model, int), ParseError> {
    if p + 4 > b.len() {
        Err(oob(p, None))
    } else if FourCC::spec_at(b, p) != id3_chunk_tag() {
        Err(ParseError::TagMismatch { offset: p as usize })
    } else if p + 8 > b.len() {
        Err(oob(p + 4, Some(id3_chunk_tag())))
    } else if p + 11 > b.len() {
        Err(oob(p + 8, Some(id3_chunk_tag())))
    } else if !id3_magic_at(b, p + 8) {
        Err(ParseError::TagMismatch { offset: (p + 8) as usize })
    } else if p + 18 > b.len() {
        Err(oob(p + 11, Some(id3_chunk_tag())))
    } else {
        let flags = b[p + 13];
        let body_size = be_u32_at(b, p + 14);
        let xh = if flags & 0x80 != 0 {
            match spec_xheader(b, p + 18) {
                Ok((x, s)) => Ok((Some(x), s)),
                Err(e) => Err(e),
            }
        } else {
            Ok((None, p + 18))
        };
        match xh {
            Err(e) => Err(e),
            Ok((x, s)) => {
                let end = s + body_size;
                if end > b.len() {
                    Err(oob(s, Some(id3_chunk_tag())))
                } else {
                    match spec_frames(b, s, end) {
                        Err(e) => Err(e),
                        Ok(tags) => if end + pad(body_size) > b.len() {
                            Err(oob(end, Some(id3_chunk_tag())))
                        } else if end + pad(body_size) - (p + 8) != le_u32_at(b, p + 4) + pad(
                            le_u32_at(b, p + 4),
                        ) {
                            Err(
                                ParseError::FramingMismatch {
                                    offset: p as usize,
                                    tag: id3_chunk_tag(),
                                },
                            )
                        } else {
                            Ok(
                                (
                                    ID3v2Model {
                                        chunk_size: le_u32_at(b, p + 4),
                                        major_version: b[p + 11],
                                        minor_version: b[p + 12],
                                        flags,
                                        id3v2_size: body_size,
                                        xheader: x,
                                        tags,
                                    },
                                    end + pad(body_size),
                                ),
                            )
                        },
                    }
                }
            },
        }
    }
}

/// Any chunk at `p`: its tag, its declared size and that many bytes, then a
/// pad byte when that size is odd.
pub open spec fn spec_unknown(b: Seq<u8>, p: int) -> Result<(UnknownModel, int), ParseError> {
    if p + 4 > b.len() {
        Err(oob(p, None))
    } else if p + 8 > b.len() {
        Err(oob(p + 4, Some(FourCC::spec_at(b, p))))
    } else {
        let size = le_u32_at(b, p + 4);
        let e = p + 8 + size;
        if e > b.len() {
            Err(oob(p + 8, Some(FourCC::spec_at(b, p))))
        } else if e + pad(size) > b.len() {
            Err(oob(e, Some(FourCC::spec_at(b, p))))
        } else {
            Ok(
                (
                    UnknownModel {
                        chunk_id: FourCC::spec_at(b, p),
                        chunk_size: size,
                        data: b.subrange(p + 8, e),
                    },
                    e + pad(size),
                ),
            )
        }
    }
}

/// The chunk at `p`: the decoders are tried in the order fmt, data, LIST,
/// id3, unknown; a tag mismatch passes on to the next one and any other error
/// stops. When even the unknown decoder fails, the chunk is unrecognized.
#[verifier::opaque]
pub open spec fn spec_next_chunk(b: Seq<u8>, p: int) -> Result<(ChunkModel, int), ParseError> {
    match spec_fmt(b, p) {
        Ok((m, n)) => Ok((ChunkModel::Fmt(m), n)),
        Err(ParseError::TagMismatch { .. }) => match spec_data(b, p) {
            Ok((m, n)) => Ok((ChunkModel::Data(m), n)),
            Err(ParseError::TagMismatch { .. }) => match spec_list_info(b, p) {
                Ok((m, n)) => Ok((ChunkModel::ListInfo(m), n)),
                Err(ParseError::TagMismatch { .. }) => match spec_id3v2(b, p) {
                    Ok((m, n)) => Ok((ChunkModel::ID3v2(m), n)),
                    Err(ParseError::TagMismatch { .. }) => match spec_unknown(b, p) {
                        Ok((m, n)) => Ok((ChunkModel::Unknown(m), n)),
                        Err(_) => if p + 4 <= b.len() {
                            Err(
                                ParseError::UnrecognizedChunk {
                                    offset: p as usize,
                                    tag: FourCC::spec_at(b, p),
                                },
                            )
                        } else {
                            Err(oob(p, None))
                        },
                    },
                    Err(e) => Err(e),
                },
                Err(e) => Err(e),
            },
            Err(e) => Err(e),
        },
        Err(e) => Err(e),
    }
}

/// The chunks from `p` on, while `p - 8` is below the declared size; the walk
/// must then stand at the end of the buffer.
pub open spec fn spec_walk(b: Seq<u8>, p: int, declared: u32) -> Result<
    Seq<ChunkModel>,
    ParseError,
>
    decreases b.len() - p,
{
    if p - 8 >= declared {
        if p != b.len() {
            Err(
                ParseError::TrailingOrMissingBytes {
                    position: p as usize,
                    length: b.len() as usize,
                    tag: if p + 4 <= b.len() {
                        Some(FourCC::spec_at(b, p))
                    } else {
                        None
                    },
                },
            )
        } else if declared != b.len() - 8 {
            Err(ParseError::MalformedContainer { offset: 4, tag: riff_tag() })
        } else {
            Ok(Seq::empty())
        }
    } else {
        match spec_next_chunk(b, p) {
            Err(e) => Err(e),
            Ok((c, n)) => if p < n <= b.len() {
                match spec_walk(b, n, declared) {
                    Ok(rest) => Ok(seq![c] + rest),
                    Err(e) => Err(e),
                }
            } else {
                Err(oob(p, None))
            },
        }
    }
}

/// The chunks that the walk from `p` decodes before it stops, whether it
/// stops at its end or on an error.
pub open spec fn spec_walk_prefix(b: Seq<u8>, p: int, declared: u32) -> Seq<ChunkModel>
    decreases b.len() - p,
{
    if p - 8 >= declared {
        Seq::empty()
    } else {
        match spec_next_chunk(b, p) {
            Err(_) => Seq::empty(),
            Ok((c, n)) => if p < n <= b.len() {
                seq![c] + spec_walk_prefix(b, n, declared)
            } else {
                Seq::empty()
            },
        }
    }
}

/// The container header at the start of the buffer: "RIFF", the declared
/// size, and the "WAVE" form type.
pub open spec fn spec_riff_header(b: Seq<u8>) -> Result<RiffChunk, ParseError> {
    if b.len() < 4 {
        Err(oob(0, None))
    } else if FourCC::spec_at(b, 0) != riff_tag() {
        Err(ParseError::MalformedContainer { offset: 0, tag: FourCC::spec_at(b, 0) })
    } else if b.len() < 8 {
        Err(oob(4, Some(riff_tag())))
    } else if b.len() < 12 {
        Err(oob(8, Some(riff_tag())))
    } else if FourCC::spec_at(b, 8) != wave_tag() {
        Err(ParseError::MalformedContainer { offset: 8, tag: FourCC::spec_at(b, 8) })
    } else {
        Ok(RiffChunk { file_size: le_u32_at(b, 4), wave_ident: wave_tag() })
    }
}

/// A whole buffer: the header, then the walk over the chunks. The walk must
/// end at the end of the buffer, and the declared size must be the buffer's
/// length minus eight.
pub open spec fn spec_parse(b: Seq<u8>) -> Result<WavModel, ParseError> {
    match spec_riff_header(b) {
        Err(e) => Err(e),
        Ok(h) => match spec_walk(b, 12, h.file_size) {
            Ok(cs) => Ok(WavModel { riff: h, chunks: cs }),
            Err(e) => Err(e),
        },
    }
}

/// Every chunk decoder that succeeds moves forward, and stays in the buffer.
pub proof fn lemma_next_chunk_advances(b: Seq<u8>, p: int)
    requires
        0 <= p <= b.len(),
    ensures
        spec_next_chunk(b, p) matches Ok((_, n)) ==> p < n <= b.len(),
{
    reveal(spec_next_chunk);
}

} // verus!
