//! The chunks as rows of a two-column table, and as the boxed text of those
//! rows.
use vstd::prelude::*;

use crate::chunks::{
    Chunk, ChunkModel, DataChunk, DataModel, FmtChunk, FmtModel, ID3v2Chunk, ID3v2Model, ListInfoChunk, ListInfoModel,
    RiffChunk, UnknownChunk, UnknownModel,
};
use crate::codes::{code_name, get_compression_code_str, CompressionCodes};
use crate::cursor::ContainerCursor;
use crate::error::{FourCC, ParseError};
use crate::grammar::{spec_fmt, spec_riff_header};
use crate::laws::chunk_span;
use crate::parse::{decode_fmt, decode_riff_header};
use crate::text::{
    as_maybe_utf8, binary, binary_string, blue, blued, decimal, dim, dimmed, decimal_string,
    green, greened, hex_byte, hex_byte_string, join, join_strings, maybe_text, render_rows, rows_fit,
    rows_table, rows_view, text_of, utf8_lossy,
};

verus! {

pub type Rows = Seq<(Seq<char>, Seq<char>)>;

/// A tag as text.
pub open spec fn tag_text(t: FourCC) -> Seq<char> {
    utf8_lossy(t.spec_bytes())
}

/// A code with its name in parentheses.
pub open spec fn code_label(codes: Map<u16, Seq<char>>, code: u16) -> Seq<char> {
    decimal(code as nat) + " ("@ + code_name(codes, code) + ")"@
}

/// Bytes as upper-case hexadecimal pairs with `sep` between them.
pub open spec fn hex_list(b: Seq<u8>, sep: Seq<char>) -> Seq<char> {
    join(b.map_values(|x: u8| hex_byte(x)), sep)
}

pub open spec fn riff_rows(h: RiffChunk) -> Rows {
    seq![
        ("chunk id"@, blue("'RIFF'"@)),
        ("size of file (in bytes)"@, green(decimal(h.file_size as nat))),
        ("wave identifier"@, tag_text(h.wave_ident)),
    ]
}

pub open spec fn data_rows(m: DataModel) -> Rows {
    seq![
        ("chunk id"@, blue("'data'"@)),
        ("size of data chunk (in bytes)"@, green(decimal(m.chunk_size as nat))),
        ("data... (minimized)"@, "[ ..."@ + decimal(m.sample_data.len()) + " items ]"@),
    ]
}

pub open spec fn fmt_rows(codes: Map<u16, Seq<char>>, m: FmtModel) -> Rows {
    seq![
        ("chunk id"@, blue("'fmt '"@)),
        ("size of fmt chunk (in bytes)"@, green(decimal(m.chunk_size as nat))),
        ("compression code"@, code_label(codes, m.compression_code)),
        ("number of channels"@, decimal(m.number_of_channels as nat)),
        ("sampling rate"@, decimal(m.sample_rate as nat)),
        ("byte rate"@, decimal(m.byte_rate as nat)),
        ("block align"@, decimal(m.block_align as nat)),
        ("bits per sample"@, decimal(m.bits_per_sample as nat)),
    ] + match m.extra_bytes {
        Some(e) => seq![("extra format bytes"@, decimal(e as nat))],
        None => Seq::empty(),
    } + match m.extended {
        Some(x) => seq![
            ("number of valid bits"@, decimal(x.num_valid_bits as nat)),
            ("speaker position mask"@, decimal(x.channel_mask as nat)),
            ("actual compression code"@, code_label(codes, x.compression_code)),
            ("WAV GUID"@, hex_list(x.wav_guid, " "@)),
        ],
        None => Seq::empty(),
    }
}

pub open spec fn list_rows(m: ListInfoModel) -> Rows {
    seq![
        ("chunk id"@, blue("'LIST'"@)),
        ("size of LIST chunk (in bytes)"@, green(decimal(m.chunk_size as nat))),
    ] + m.data.map_values(
        |r: crate::chunks::InfoRecordModel| (tag_text(r.info_id), utf8_lossy(r.text)),
    )
}

pub open spec fn id3_rows(m: ID3v2Model) -> Rows {
    seq![
        ("chunk id"@, blue("'id3 '"@)),
        ("size of id3 chunk (in bytes)"@, green(decimal(m.chunk_size as nat))),
        ("major version"@, decimal(m.major_version as nat)),
        ("minor version"@, decimal(m.minor_version as nat)),
        ("flags"@, binary(m.flags as nat, 8)),
        ("size of id3v2 (self reported)"@, decimal(m.id3v2_size as nat)),
    ] + match m.xheader {
        Some(x) => seq![
            ("extended header size"@, decimal(x.chunk_size as nat)),
            ("extended header flags"@, binary(x.extended_flags as nat, 16)),
            ("extended header padding size"@, decimal(x.padding_size as nat)),
        ],
        None => Seq::empty(),
    } + m.tags.map_values(
        |t: crate::chunks::FrameModel| ("tag"@, tag_text(t.frame_id) + ": "@ + utf8_lossy(t.data)),
    )
}

pub open spec fn unknown_rows(m: UnknownModel) -> Rows {
    seq![
        ("chunk id"@, tag_text(m.chunk_id) + " (unknown)"@),
        ("size of file (in bytes)"@, green(decimal(m.chunk_size as nat))),
        ("data (utf-8 parse attempt)"@, maybe_text(m.data)),
    ]
}

fn tag_string(t: &FourCC) -> (r: String)
    ensures
        r@ == tag_text(*t),
{
    let b = t.to_bytes();
    text_of(b.as_slice())
}

fn code_label_string(codes: &CompressionCodes, code: u16) -> (r: String)
    ensures
        r@ == code_label(codes@, code),
{
    let mut s = decimal_string(code as u64);
    s.append(" (");
    s.append(get_compression_code_str(codes, code).as_str());
    s.append(")");
    s
}

fn hex_list_string(b: &Vec<u8>, sep: &str) -> (r: String)
    ensures
        r@ == hex_list(b@, sep@),
{
    let mut pieces: Vec<String> = Vec::new();
    let mut i: usize = 0;
    while i < b.len()
        invariant
            i <= b.len(),
            pieces@.map_values(|s: String| s@) == b@.take(i as int).map_values(
                |x: u8| hex_byte(x),
            ),
        decreases b.len() - i,
    {
        let h = hex_byte_string(b[i]);
        let ghost hv = h@;
        let ghost before = pieces@.map_values(|s: String| s@);
        pieces.push(h);
        assert(pieces@.map_values(|s: String| s@) =~= before.push(hv));
        assert(b@.take(i + 1).map_values(|x: u8| hex_byte(x)) =~= b@.take(i as int).map_values(
            |x: u8| hex_byte(x),
        ).push(hex_byte(b@[i as int])));
        i = i + 1;
    }
    assert(b@.take(b.len() as int) =~= b@);
    join_strings(&pieces, sep)
}

fn row(k: &str, v: String) -> (r: (String, String))
    ensures
        r.0@ == k@,
        r.1@ == v@,
{
    (String::from_str(k), v)
}

impl RiffChunk {
    /// The header as table rows.
    pub fn rows(&self) -> (r: Vec<(String, String)>)
        ensures
            rows_view(r@) == riff_rows(*self),
    {
        let mut r: Vec<(String, String)> = Vec::new();
        r.push(row("chunk id", blued("'RIFF'")));
        r.push(row("size of file (in bytes)", greened(decimal_string(self.file_size as u64).as_str())));
        r.push(row("wave identifier", tag_string(&self.wave_ident)));
        assert(rows_view(r@) =~= riff_rows(*self));
        r
    }

    /// The header as a boxed table.
    pub fn to_display_string(&self) -> (r: Option<String>)
        ensures
            rows_fit(riff_rows(*self)) ==> r is Some && r->Some_0@ == rows_table(riff_rows(*self)),
            !rows_fit(riff_rows(*self)) ==> r is None,
    {
        render_rows(self.rows())
    }
}

impl DataChunk {
    /// The chunk as table rows, with the count of samples bytes in place of
    /// the bytes.
    pub fn rows(&self) -> (r: Vec<(String, String)>)
        ensures
            rows_view(r@) == data_rows(self@),
    {
        let mut r: Vec<(String, String)> = Vec::new();
        r.push(row("chunk id", blued("'data'")));
        r.push(row("size of data chunk (in bytes)", greened(decimal_string(self.chunk_size as u64).as_str())));
        let mut items = String::from_str("[ ...");
        items.append(decimal_string(self.sample_data.len() as u64).as_str());
        items.append(" items ]");
        r.push(row("data... (minimized)", items));
        assert(rows_view(r@) =~= data_rows(self@));
        r
    }

    /// The chunk as a boxed table.
    pub fn to_display_string(&self) -> (r: Option<String>)
        ensures
            rows_fit(data_rows(self@)) ==> r is Some && r->Some_0@ == rows_table(data_rows(self@)),
            !rows_fit(data_rows(self@)) ==> r is None,
    {
        render_rows(self.rows())
    }
}

impl FmtChunk {
    /// The chunk as table rows, the compression codes named by `codes`.
    pub fn rows(&self, codes: &CompressionCodes) -> (r: Vec<(String, String)>)
        ensures
            rows_view(r@) == fmt_rows(codes@, self@),
    {
        let mut r: Vec<(String, String)> = Vec::new();
        r.push(row("chunk id", blued("'fmt '")));
        r.push(row("size of fmt chunk (in bytes)", greened(decimal_string(self.chunk_size as u64).as_str())));
        r.push(row("compression code", code_label_string(codes, self.compression_code)));
        r.push(row("number of channels", decimal_string(self.number_of_channels as u64)));
        r.push(row("sampling rate", decimal_string(self.sample_rate as u64)));
        r.push(row("byte rate", decimal_string(self.byte_rate as u64)));
        r.push(row("block align", decimal_string(self.block_align as u64)));
        r.push(row("bits per sample", decimal_string(self.bits_per_sample as u64)));
        let ghost base = rows_view(r@);
        if let Some(e) = self.extra_bytes {
            r.push(row("extra format bytes", decimal_string(e as u64)));
        }
        let ghost with_extra = rows_view(r@);
        if let Some(x) = &self.extended_fmt_sub_chunk {
            r.push(row("number of valid bits", decimal_string(x.num_valid_bits as u64)));
            r.push(row("speaker position mask", decimal_string(x.channel_mask as u64)));
            r.push(row("actual compression code", code_label_string(codes, x.compression_code)));
            r.push(row("WAV GUID", hex_list_string(&x.wav_guid, " ")));
        }
        proof {
            let m = self@;
            assert(base =~= fmt_rows(codes@, m).take(8));
            assert(with_extra =~= base + match m.extra_bytes {
                Some(e) => seq![("extra format bytes"@, decimal(e as nat))],
                None => Seq::<(Seq<char>, Seq<char>)>::empty(),
            });
            assert(rows_view(r@) =~= fmt_rows(codes@, m));
        }
        r
    }

    /// The chunk as a boxed table, the compression codes named by `codes`.
    pub fn to_display_string(&self, codes: &CompressionCodes) -> (r: Option<String>)
        ensures
            rows_fit(fmt_rows(codes@, self@)) ==> r is Some && r->Some_0@ == rows_table(
                fmt_rows(codes@, self@),
            ),
            !rows_fit(fmt_rows(codes@, self@)) ==> r is None,
    {
        render_rows(self.rows(codes))
    }
}

impl ListInfoChunk {
    /// The chunk as table rows: its id and size, then one row per text
    /// record.
    pub fn rows(&self) -> (r: Vec<(String, String)>)
        ensures
            rows_view(r@) == list_rows(self@),
    {
        let mut r: Vec<(String, String)> = Vec::new();
        r.push(row("chunk id", blued("'LIST'")));
        r.push(row("size of LIST chunk (in bytes)", greened(decimal_string(self.chunk_size as u64).as_str())));
        let ghost head = rows_view(r@);
        let ghost recs = self@.data;
        let mut i: usize = 0;
        while i < self.data.len()
            invariant
                i <= self.data.len(),
                recs == self@.data,
                recs.len() == self.data.len(),
                rows_view(r@) == head + recs.take(i as int).map_values(
                    |x: crate::chunks::InfoRecordModel| (tag_text(x.info_id), utf8_lossy(x.text)),
                ),
            decreases self.data.len() - i,
        {
            let rec = &self.data[i];
            let k = tag_string(&rec.info_id);
            let v = text_of(rec.text.as_slice());
            let ghost before = rows_view(r@);
            let ghost kv = (k@, v@);
            r.push((k, v));
            assert(recs[i as int] == rec@);
            assert(rows_view(r@) =~= before.push(kv));
            assert(recs.take(i + 1).map_values(
                |x: crate::chunks::InfoRecordModel| (tag_text(x.info_id), utf8_lossy(x.text)),
            ) =~= recs.take(i as int).map_values(
                |x: crate::chunks::InfoRecordModel| (tag_text(x.info_id), utf8_lossy(x.text)),
            ).push(kv));
            i = i + 1;
        }
        assert(recs.take(self.data.len() as int) =~= recs);
        r
    }

    /// The chunk as a boxed table.
    pub fn to_display_string(&self) -> (r: Option<String>)
        ensures
            rows_fit(list_rows(self@)) ==> r is Some && r->Some_0@ == rows_table(list_rows(self@)),
            !rows_fit(list_rows(self@)) ==> r is None,
    {
        render_rows(self.rows())
    }
}

impl ID3v2Chunk {
    /// The chunk as table rows: its header fields, the flags in binary, then
    /// the extended header's size, flags and padding size where it is
    /// present, then one row per frame.
    pub fn rows(&self) -> (r: Vec<(String, String)>)
        ensures
            rows_view(r@) == id3_rows(self@),
    {
        let mut r: Vec<(String, String)> = Vec::new();
        r.push(row("chunk id", blued("'id3 '")));
        r.push(row("size of id3 chunk (in bytes)", greened(decimal_string(self.chunk_size as u64).as_str())));
        r.push(row("major version", decimal_string(self.major_version as u64)));
        r.push(row("minor version", decimal_string(self.minor_version as u64)));
        r.push(row("flags", binary_string(self.flags as u64, 8)));
        r.push(row("size of id3v2 (self reported)", decimal_string(self.id3v2_size as u64)));
        if let Some(x) = &self.xheader {
            r.push(row("extended header size", decimal_string(x.chunk_size as u64)));
            r.push(row("extended header flags", binary_string(x.extended_flags as u64, 16)));
            r.push(row("extended header padding size", decimal_string(x.padding_size as u64)));
        }
        let ghost head = rows_view(r@);
        let ghost tags = self@.tags;
        let mut i: usize = 0;
        while i < self.tags.len()
            invariant
                i <= self.tags.len(),
                tags == self@.tags,
                tags.len() == self.tags.len(),
                rows_view(r@) == head + tags.take(i as int).map_values(
                    |t: crate::chunks::FrameModel| ("tag"@, tag_text(t.frame_id) + ": "@ + utf8_lossy(t.data)),
                ),
            decreases self.tags.len() - i,
        {
            let tag = &self.tags[i];
            let mut v = tag_string(&tag.frame_id);
            v.append(": ");
            v.append(text_of(tag.data.as_slice()).as_str());
            let ghost before = rows_view(r@);
            let ghost kv = ("tag"@, v@);
            r.push(row("tag", v));
            assert(tags[i as int] == tag@);
            assert(rows_view(r@) =~= before.push(kv));
            assert(tags.take(i + 1).map_values(
                |t: crate::chunks::FrameModel| ("tag"@, tag_text(t.frame_id) + ": "@ + utf8_lossy(t.data)),
            ) =~= tags.take(i as int).map_values(
                |t: crate::chunks::FrameModel| ("tag"@, tag_text(t.frame_id) + ": "@ + utf8_lossy(t.data)),
            ).push(kv));
            i = i + 1;
        }
        assert(tags.take(self.tags.len() as int) =~= tags);
        r
    }

    /// The chunk as a boxed table.
    pub fn to_display_string(&self) -> (r: Option<String>)
        ensures
            rows_fit(id3_rows(self@)) ==> r is Some && r->Some_0@ == rows_table(id3_rows(self@)),
            !rows_fit(id3_rows(self@)) ==> r is None,
    {
        render_rows(self.rows())
    }
}

impl UnknownChunk {
    /// The chunk as table rows, its payload read as text where it can be.
    pub fn rows(&self) -> (r: Vec<(String, String)>)
        ensures
            rows_view(r@) == unknown_rows(self@),
    {
        let mut r: Vec<(String, String)> = Vec::new();
        let mut id = tag_string(&self.chunk_id);
        id.append(" (unknown)");
        r.push(row("chunk id", id));
        r.push(row("size of file (in bytes)", greened(decimal_string(self.chunk_size as u64).as_str())));
        r.push(row("data (utf-8 parse attempt)", as_maybe_utf8(self.data.clone())));
        assert(rows_view(r@) =~= unknown_rows(self@));
        r
    }

    /// The chunk as a boxed table.
    pub fn to_display_string(&self) -> (r: Option<String>)
        ensures
            rows_fit(unknown_rows(self@)) ==> r is Some && r->Some_0@ == rows_table(
                unknown_rows(self@),
            ),
            !rows_fit(unknown_rows(self@)) ==> r is None,
    {
        render_rows(self.rows())
    }
}

/// The rows that summarize a format chunk: its fields, and for a declared
/// size of 40 the extension with all sixteen bytes of the sub-format GUID.
pub open spec fn fmt_summary_rows(codes: Map<u16, Seq<char>>, m: FmtModel) -> Rows {
    seq![
        ("chunk id"@, "'fmt '"@),
        ("size of fmt chunk (in bytes)"@, decimal(m.chunk_size as nat)),
        ("compression code"@, code_label(codes, m.compression_code)),
        ("number of channels"@, decimal(m.number_of_channels as nat)),
        ("sampling rate"@, decimal(m.sample_rate as nat)),
        ("byte rate"@, decimal(m.byte_rate as nat)),
        ("block align"@, decimal(m.block_align as nat)),
        ("bits per sample"@, decimal(m.bits_per_sample as nat)),
    ] + match (m.extra_bytes, m.extended) {
        (Some(e), Some(x)) => seq![
            ("Extra Format Bytes"@, decimal(e as nat)),
            ("Number of valid bits"@, decimal(x.num_valid_bits as nat)),
            ("Speaker position mask"@, decimal(x.channel_mask as nat)),
            ("Actual compression code"@, code_label(codes, x.compression_code)),
            (
                "GUID"@,
                hex_list(
                    seq![(x.compression_code % 256) as u8, (x.compression_code / 256) as u8]
                        + x.wav_guid,
                    ""@,
                ),
            ),
        ],
        _ => Seq::empty(),
    }
}

/// Summarizes the format chunk at the start of `buffer` as table rows, with
/// the position just after the chunk.
pub fn parse_fmt_chunk(buffer: &[u8], codes: &CompressionCodes) -> (r: Result<
    (Vec<(String, String)>, usize),
    ParseError,
>)
    ensures
        match spec_fmt(buffer@, 0) {
            Ok((m, n)) => r is Ok && rows_view(r->Ok_0.0@) == fmt_summary_rows(codes@, m)
                && r->Ok_0.1 == n,
            Err(e) => r is Err && r->Err_0 == e,
        },
{
    let mut cur = ContainerCursor::new(buffer);
    let fmt = match decode_fmt(&mut cur) {
        Ok(f) => f,
        Err(e) => return Err(e),
    };
    let mut r: Vec<(String, String)> = Vec::new();
    r.push(row("chunk id", String::from_str("'fmt '")));
    r.push(row("size of fmt chunk (in bytes)", decimal_string(fmt.chunk_size as u64)));
    r.push(row("compression code", code_label_string(codes, fmt.compression_code)));
    r.push(row("number of channels", decimal_string(fmt.number_of_channels as u64)));
    r.push(row("sampling rate", decimal_string(fmt.sample_rate as u64)));
    r.push(row("byte rate", decimal_string(fmt.byte_rate as u64)));
    r.push(row("block align", decimal_string(fmt.block_align as u64)));
    r.push(row("bits per sample", decimal_string(fmt.bits_per_sample as u64)));
    let ghost base = rows_view(r@);
    match (fmt.extra_bytes, &fmt.extended_fmt_sub_chunk) {
        (Some(e), Some(x)) => {
            r.push(row("Extra Format Bytes", decimal_string(e as u64)));
            r.push(row("Number of valid bits", decimal_string(x.num_valid_bits as u64)));
            r.push(row("Speaker position mask", decimal_string(x.channel_mask as u64)));
            r.push(row("Actual compression code", code_label_string(codes, x.compression_code)));
            let mut guid: Vec<u8> = Vec::new();
            guid.push((x.compression_code % 256) as u8);
            guid.push((x.compression_code / 256) as u8);
            let mut i: usize = 0;
            while i < x.wav_guid.len()
                invariant
                    i <= x.wav_guid.len(),
                    guid@ == seq![(x.compression_code % 256) as u8, (x.compression_code / 256) as u8]
                        + x.wav_guid@.take(i as int),
                decreases x.wav_guid.len() - i,
            {
                guid.push(x.wav_guid[i]);
                assert(x.wav_guid@.take(i + 1) =~= x.wav_guid@.take(i as int).push(x.wav_guid@[i as int]));
                i = i + 1;
            }
            assert(x.wav_guid@.take(x.wav_guid.len() as int) =~= x.wav_guid@);
            r.push(row("GUID", hex_list_string(&guid, "")));
        },
        _ => {},
    }
    assert(base =~= fmt_summary_rows(codes@, fmt@).take(8));
    assert(rows_view(r@) =~= fmt_summary_rows(codes@, fmt@));
    Ok((r, cur.position()))
}

/// The rows that summarize a container header.
pub open spec fn riff_summary_rows(h: RiffChunk) -> Rows {
    seq![
        ("chunk id"@, "'RIFF'"@),
        ("size of file (in bytes)"@, decimal(h.file_size as nat)),
        ("wave identifier"@, "WAVE"@),
    ]
}

/// Summarizes the container header at the start of `buffer` as table rows,
/// with the position just after it.
pub fn parse_riff_chunk(buffer: &[u8]) -> (r: Result<(Vec<(String, String)>, usize), ParseError>)
    ensures
        match spec_riff_header(buffer@) {
            Ok(h) => r is Ok && rows_view(r->Ok_0.0@) == riff_summary_rows(h) && r->Ok_0.1 == 12,
            Err(e) => r is Err && r->Err_0 == e,
        },
{
    let mut cur = ContainerCursor::new(buffer);
    let h = match decode_riff_header(&mut cur) {
        Ok(h) => h,
        Err(e) => return Err(e),
    };
    let mut r: Vec<(String, String)> = Vec::new();
    r.push(row("chunk id", String::from_str("'RIFF'")));
    r.push(row("size of file (in bytes)", decimal_string(h.file_size as u64)));
    r.push(row("wave identifier", String::from_str("WAVE")));
    assert(rows_view(r@) =~= riff_summary_rows(h));
    Ok((r, cur.position()))
}

/// The rows of any chunk.
pub open spec fn chunk_rows(codes: Map<u16, Seq<char>>, c: ChunkModel) -> Rows {
    match c {
        ChunkModel::Fmt(m) => fmt_rows(codes, m),
        ChunkModel::Data(m) => data_rows(m),
        ChunkModel::ListInfo(m) => list_rows(m),
        ChunkModel::ID3v2(m) => id3_rows(m),
        ChunkModel::Unknown(m) => unknown_rows(m),
    }
}

/// The short name of a chunk's kind, and its declared size.
pub open spec fn chunk_label(c: ChunkModel) -> (Seq<char>, u32) {
    match c {
        ChunkModel::Fmt(m) => ("fmt"@, m.chunk_size),
        ChunkModel::Data(m) => ("data"@, m.chunk_size),
        ChunkModel::ListInfo(m) => ("list"@, m.chunk_size),
        ChunkModel::ID3v2(m) => ("id3"@, m.chunk_size),
        ChunkModel::Unknown(m) => ("unknown"@, m.chunk_size),
    }
}

impl Chunk {
    /// The chunk as a boxed table, the compression codes named by `codes`.
    pub fn to_display_string(&self, codes: &CompressionCodes) -> (r: Option<String>)
        ensures
            rows_fit(chunk_rows(codes@, self@)) ==> r is Some && r->Some_0@ == rows_table(
                chunk_rows(codes@, self@),
            ),
            !rows_fit(chunk_rows(codes@, self@)) ==> r is None,
    {
        match self {
            Chunk::Fmt(c) => c.to_display_string(codes),
            Chunk::Data(c) => c.to_display_string(),
            Chunk::ListInfo(c) => c.to_display_string(),
            Chunk::ID3v2(c) => c.to_display_string(),
            Chunk::Unknown(c) => c.to_display_string(),
        }
    }

    /// The short name of the chunk's kind, and its declared size.
    pub fn label(&self) -> (r: (String, u32))
        ensures
            r.0@ == chunk_label(self@).0,
            r.1 == chunk_label(self@).1,
    {
        match self {
            Chunk::Fmt(c) => (String::from_str("fmt"), c.chunk_size),
            Chunk::Data(c) => (String::from_str("data"), c.chunk_size),
            Chunk::ListInfo(c) => (String::from_str("list"), c.chunk_size),
            Chunk::ID3v2(c) => (String::from_str("id3"), c.chunk_size),
            Chunk::Unknown(c) => (String::from_str("unknown"), c.chunk_size),
        }
    }

    /// The number of bytes the chunk occupies in the file.
    pub fn span(&self) -> (r: u64)
        ensures
            r == chunk_span(self@),
    {
        match self {
            Chunk::Fmt(c) => {
                let mut n: u64 = 24;
                if c.extra_bytes.is_some() {
                    n = n + 2;
                }
                if c.extended_fmt_sub_chunk.is_some() {
                    n = n + 22;
                }
                n
            },
            Chunk::Data(c) => 8 + c.chunk_size as u64 + (c.chunk_size % 2) as u64,
            Chunk::ListInfo(c) => 8 + c.chunk_size as u64,
            Chunk::ID3v2(c) => {
                let x: u64 = match &c.xheader {
                    Some(h) => 10 + h.chunk_size as u64,
                    None => 0,
                };
                18 + x + c.id3v2_size as u64 + (c.id3v2_size % 2) as u64
            },
            Chunk::Unknown(c) => 8 + c.chunk_size as u64 + (c.chunk_size % 2) as u64,
        }
    }
}

/// The dim line that tells how many bytes have been parsed.
pub open spec fn position_text(pos: nat) -> Seq<char> {
    dim("| parsed "@ + decimal(pos) + " bytes\n"@)
}

/// The dim line that tells how many bytes have been parsed.
pub fn position_line(pos: u64) -> (r: String)
    ensures
        r@ == position_text(pos as nat),
{
    let mut s = String::from_str("| parsed ");
    s.append(decimal_string(pos).as_str());
    s.append(" bytes\n");
    dimmed(s.as_str())
}

} // verus!
