//! Properties of the walk, stated over the spec functions that the
//! executable decoders are proved to compute.
use vstd::prelude::*;

use crate::chunks::{ChunkModel, InfoRecordModel, WavModel};
use crate::cursor::{le_u16_at, le_u32_at};
use crate::error::{FourCC, ParseError};
use crate::grammar::{
    data_tag, fmt_tag, id3_chunk_tag, list_tag, pad, spec_data, spec_fmt, spec_id3v2,
    spec_info_records, spec_list_info, spec_next_chunk, spec_parse, spec_riff_header, spec_walk,
};

verus! {

/// The number of bytes that a decoded chunk occupies in the buffer, as its
/// fields tell it.
pub open spec fn chunk_span(c: ChunkModel) -> int {
    match c {
        ChunkModel::Fmt(m) => 24 + (if m.extra_bytes is Some {
            2int
        } else {
            0int
        }) + (if m.extended is Some {
            22int
        } else {
            0int
        }),
        ChunkModel::Data(m) => 8 + m.chunk_size + pad(m.chunk_size),
        ChunkModel::ListInfo(m) => 8 + m.chunk_size,
        ChunkModel::ID3v2(m) => 18 + (match m.xheader {
            Some(x) => 10 + x.chunk_size,
            None => 0int,
        }) + m.id3v2_size + pad(m.id3v2_size),
        ChunkModel::Unknown(m) => 8 + m.chunk_size + pad(m.chunk_size),
    }
}

/// The bytes that a sequence of chunks occupies.
pub open spec fn chunks_span(cs: Seq<ChunkModel>) -> int
    decreases cs.len(),
{
    if cs.len() == 0 {
        0
    } else {
        chunk_span(cs[0]) + chunks_span(cs.drop_first())
    }
}

/// The bytes that a sequence of text records occupies: each one's header,
/// text, and pad byte after an odd text.
pub open spec fn records_span(rs: Seq<InfoRecordModel>) -> int
    decreases rs.len(),
{
    if rs.len() == 0 {
        0
    } else {
        8 + rs[0].chunk_size + pad(rs[0].chunk_size) + records_span(rs.drop_first())
    }
}

/// A decoded chunk ends where its span says.
pub proof fn lemma_next_chunk_span(b: Seq<u8>, p: int)
    requires
        0 <= p <= b.len(),
    ensures
        spec_next_chunk(b, p) matches Ok((c, n)) ==> n == p + chunk_span(c),
{
    reveal(spec_next_chunk);
}

/// The walk from `p` that succeeds takes the bytes from `p` to the end, each
/// exactly once.
pub proof fn lemma_walk_span(b: Seq<u8>, p: int, declared: u32)
    requires
        0 <= p <= b.len(),
    ensures
        spec_walk(b, p, declared) matches Ok(cs) ==> p + chunks_span(cs) == b.len(),
    decreases b.len() - p,
{
    if p - 8 < declared {
        lemma_next_chunk_span(b, p);
        if let Ok((c, n)) = spec_next_chunk(b, p) {
            if p < n <= b.len() {
                lemma_walk_span(b, n, declared);
                if let Ok(rest) = spec_walk(b, n, declared) {
                    assert((seq![c] + rest).drop_first() =~= rest);
                }
            }
        }
    }
}

/// A parse that succeeds has consumed the whole buffer: the twelve bytes of
/// the header and then the chunks, back to back, with no gap and no overrun.
pub proof fn law_parse_consumes_buffer(b: Seq<u8>)
    ensures
        spec_parse(b) matches Ok(m) ==> 12 + chunks_span(m.chunks) == b.len(),
{
    if b.len() >= 12 {
        lemma_walk_span(b, 12, le_u32_at(b, 4));
    }
}

/// Parsing is a function of the bytes alone: two parses of equal buffers give
/// the same result, chunk for chunk, or the same error.
pub proof fn law_parse_is_deterministic(b1: Seq<u8>, b2: Seq<u8>)
    requires
        b1 == b2,
    ensures
        spec_parse(b1) == spec_parse(b2),
{
}

/// The declared size of a format chunk decides its optional parts: 16 gives
/// neither filler nor extension, 18 the two-byte filler alone, 40 the filler
/// and the 22-byte extension; the chunk ends right after them.
pub proof fn law_fmt_size_decides_layout(b: Seq<u8>, p: int)
    requires
        0 <= p <= b.len(),
    ensures
        spec_fmt(b, p) matches Ok((m, n)) ==> {
            &&& m.chunk_size == 16 ==> m.extra_bytes is None && m.extended is None && n == p + 24
            &&& m.chunk_size == 18 ==> m.extra_bytes is Some && m.extended is None && n == p + 26
            &&& m.chunk_size == 40 ==> m.extra_bytes is Some && m.extended is Some && n == p + 48
            &&& m.chunk_size != 18 && m.chunk_size != 40 ==> m.extra_bytes is None
                && m.extended is None && n == p + 24
        },
{
}

/// The text records that fill a block take its bytes exactly, each with one
/// pad byte after an odd text.
pub proof fn lemma_records_span(b: Seq<u8>, q: int, end: int)
    requires
        q <= end,
    ensures
        spec_info_records(b, q, end) matches Ok(rs) ==> q + records_span(rs) == end,
    decreases end - q,
{
    if q < end && q + 8 <= end {
        let size = le_u32_at(b, q + 4);
        let next = q + 8 + size + pad(size);
        if next <= end {
            lemma_records_span(b, next, end);
            if let Ok(rest) = spec_info_records(b, next, end) {
                let r = InfoRecordModel {
                    info_id: FourCC::spec_at(b, q),
                    chunk_size: size,
                    text: b.subrange(q + 8, q + 8 + size),
                };
                assert((seq![r] + rest).drop_first() =~= rest);
            }
        }
    }
}

/// At a chunk boundary that opens with "fmt ", the walk takes a format chunk
/// whose optional parts follow its declared size, with the actual compression
/// code in the first two GUID bytes, and goes on right after it.
pub proof fn law_fmt_in_walk(b: Seq<u8>, k: int)
    requires
        0 <= k,
        k + 4 <= b.len(),
        FourCC::spec_at(b, k) == fmt_tag(),
    ensures
        spec_next_chunk(b, k) matches Ok((c, n)) ==> c matches ChunkModel::Fmt(m) && {
            let s = le_u32_at(b, k + 4);
            &&& m.chunk_size == s
            &&& m.extra_bytes is Some <==> (s == 18 || s == 40)
            &&& m.extended is Some <==> s == 40
            &&& (m.extended matches Some(x) ==> x.compression_code == le_u16_at(b, k + 32))
            &&& n == k + 24 + (if s == 18 || s == 40 {
                2int
            } else {
                0int
            }) + (if s == 40 {
                22int
            } else {
                0int
            })
        },
{
    reveal(spec_next_chunk);
}

/// Each text record of a LIST chunk is read from its own bytes, and the next
/// one starts after its text and the one pad byte that follows an odd text.
pub proof fn law_info_record_layout(b: Seq<u8>, q: int, end: int)
    requires
        q < end,
    ensures
        spec_info_records(b, q, end) matches Ok(rs) ==> {
            let n = le_u32_at(b, q + 4);
            &&& rs.len() > 0
            &&& rs[0].info_id == FourCC::spec_at(b, q)
            &&& rs[0].chunk_size == n
            &&& rs[0].text == b.subrange(q + 8, q + 8 + n)
            &&& spec_info_records(b, q + 8 + n + (if n % 2 == 1 {
                1int
            } else {
                0int
            }), end) == Ok::<Seq<InfoRecordModel>, ParseError>(rs.drop_first())
        },
{
    if let Ok(rs) = spec_info_records(b, q, end) {
        let n = le_u32_at(b, q + 4);
        if let Ok(rest) = spec_info_records(b, q + 8 + n + pad(n), end) {
            let r = InfoRecordModel {
                info_id: FourCC::spec_at(b, q),
                chunk_size: n,
                text: b.subrange(q + 8, q + 8 + n),
            };
            assert((seq![r] + rest).drop_first() =~= rest);
        }
    }
}

/// An odd-sized payload is followed by exactly one pad byte: for a data
/// chunk, for each text record of a LIST chunk, and for the body of an ID3v2
/// tag.
pub proof fn law_odd_payload_padded(b: Seq<u8>, p: int)
    requires
        0 <= p <= b.len(),
    ensures
        spec_data(b, p) matches Ok((m, n)) ==> n == p + 8 + m.chunk_size + (if m.chunk_size % 2
            == 1 {
            1int
        } else {
            0int
        }),
        spec_list_info(b, p) matches Ok((m, n)) ==> n == p + 12 + records_span(m.data),
        spec_id3v2(b, p) matches Ok((m, n)) ==> n == p + 18 + (match m.xheader {
            Some(x) => 10 + x.chunk_size,
            None => 0int,
        }) + m.id3v2_size + (if m.id3v2_size % 2 == 1 {
            1int
        } else {
            0int
        }),
{
    if p + 12 <= b.len() {
        let size = le_u32_at(b, p + 4);
        if size >= 4 && p + 8 + size <= b.len() {
            lemma_records_span(b, p + 12, p + 8 + size);
        }
    }
}

/// A tag that no specific decoder knows, at a boundary where the chunk it
/// opens does not fit in the buffer, stops the walk with `UnrecognizedChunk`
/// carrying that tag and its offset.
pub proof fn law_unrecognized_tag(b: Seq<u8>, p: int, declared: u32)
    requires
        0 <= p,
        p - 8 < declared,
        p + 4 <= b.len(),
        FourCC::spec_at(b, p) != fmt_tag(),
        FourCC::spec_at(b, p) != data_tag(),
        FourCC::spec_at(b, p) != list_tag(),
        FourCC::spec_at(b, p) != id3_chunk_tag(),
        p + 8 > b.len() || p + 8 + le_u32_at(b, p + 4) > b.len(),
    ensures
        spec_next_chunk(b, p) == Err::<(ChunkModel, int), ParseError>(
            ParseError::UnrecognizedChunk { offset: p as usize, tag: FourCC::spec_at(b, p) },
        ),
        spec_walk(b, p, declared) == Err::<Seq<ChunkModel>, ParseError>(
            ParseError::UnrecognizedChunk { offset: p as usize, tag: FourCC::spec_at(b, p) },
        ),
{
    reveal(spec_next_chunk);
}

/// Whether the walk from `p` arrives at the chunk boundary `k`, each chunk
/// before it decoded.
pub open spec fn walk_reaches(b: Seq<u8>, p: int, declared: u32, k: int) -> bool
    decreases b.len() - p,
{
    if p == k {
        true
    } else if p - 8 >= declared {
        false
    } else {
        match spec_next_chunk(b, p) {
            Ok((_, n)) => if p < n <= b.len() {
                walk_reaches(b, n, declared, k)
            } else {
                false
            },
            Err(_) => false,
        }
    }
}

proof fn lemma_walk_stops_unrecognized(b: Seq<u8>, p: int, declared: u32, k: int)
    requires
        0 <= p,
        walk_reaches(b, p, declared, k),
        spec_walk(b, k, declared) == Err::<Seq<ChunkModel>, ParseError>(
            ParseError::UnrecognizedChunk { offset: k as usize, tag: FourCC::spec_at(b, k) },
        ),
    ensures
        spec_walk(b, p, declared) == Err::<Seq<ChunkModel>, ParseError>(
            ParseError::UnrecognizedChunk { offset: k as usize, tag: FourCC::spec_at(b, k) },
        ),
    decreases b.len() - p,
{
    if p != k {
        if let Ok((c, n)) = spec_next_chunk(b, p) {
            lemma_walk_stops_unrecognized(b, n, declared, k);
        }
    }
}

/// Where the walk over a whole file arrives at a boundary whose tag no
/// specific decoder knows and whose chunk does not fit in the buffer, the
/// parse fails with `UnrecognizedChunk` carrying that tag and offset.
pub proof fn law_unrecognized_tag_in_file(b: Seq<u8>, k: int)
    requires
        spec_riff_header(b) is Ok,
        walk_reaches(b, 12, le_u32_at(b, 4), k),
        k - 8 < le_u32_at(b, 4),
        k + 4 <= b.len(),
        FourCC::spec_at(b, k) != fmt_tag(),
        FourCC::spec_at(b, k) != data_tag(),
        FourCC::spec_at(b, k) != list_tag(),
        FourCC::spec_at(b, k) != id3_chunk_tag(),
        k + 8 > b.len() || k + 8 + le_u32_at(b, k + 4) > b.len(),
    ensures
        spec_parse(b) == Err::<WavModel, ParseError>(
            ParseError::UnrecognizedChunk { offset: k as usize, tag: FourCC::spec_at(b, k) },
        ),
{
    let d = le_u32_at(b, 4);
    lemma_walk_reaches_bounds(b, 12, d, k);
    law_unrecognized_tag(b, k, d);
    lemma_walk_stops_unrecognized(b, 12, d, k);
}

proof fn lemma_walk_reaches_bounds(b: Seq<u8>, p: int, declared: u32, k: int)
    requires
        0 <= p,
        walk_reaches(b, p, declared, k),
    ensures
        p <= k,
    decreases b.len() - p,
{
    if p != k {
        if let Ok((c, n)) = spec_next_chunk(b, p) {
            lemma_walk_reaches_bounds(b, n, declared, k);
        }
    }
}

} // verus!
