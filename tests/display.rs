use wav_inspector::args::has_wav_extension;
use wav_inspector::chunks::{
    Chunk, DataChunk, ExtendedFmtSubChunk, FmtChunk, ID3v2Chunk, ID3v2TagSubChunk,
    ID3v2XHeaderSubChunk, ListInfoChunk,
    ListInfoSubChunk, RiffChunk, UnknownChunk,
};
use wav_inspector::codes::{get_compression_code_str, CompressionCodes};
use wav_inspector::display::{parse_fmt_chunk, parse_riff_chunk, position_line};
use wav_inspector::error::{FourCC, ParseError};
use wav_inspector::text::{
    as_maybe_utf8, binary_string, decimal_string, get_rows_string, hex_byte_string, join_strings,
    render_rows, repeat_str,
};

const DIM: &str = "\x1b[2m";
const RESET: &str = "\x1b[0m";

fn s(x: &str) -> String {
    x.to_string()
}

fn pairs(rows: &[(&str, &str)]) -> Vec<(String, String)> {
    rows.iter().map(|(k, v)| (s(k), s(v))).collect()
}

fn codes() -> CompressionCodes {
    CompressionCodes::from_pairs(vec![(1, s("PCM")), (3, s("IEEE float"))])
}

#[test]
fn decimal_strings() {
    assert_eq!(decimal_string(0), "0");
    assert_eq!(decimal_string(7), "7");
    assert_eq!(decimal_string(44100), "44100");
    assert_eq!(decimal_string(u64::MAX), u64::MAX.to_string());
}

#[test]
fn hex_and_binary_strings() {
    assert_eq!(hex_byte_string(0xAB), "AB");
    assert_eq!(hex_byte_string(0x0F), "0F");
    assert_eq!(binary_string(0b1000_0001, 8), "10000001");
    assert_eq!(binary_string(0, 8), "00000000");
}

#[test]
fn repeat_and_join() {
    assert_eq!(repeat_str("-", 3), "---");
    assert_eq!(repeat_str("ab", 0), "");
    assert_eq!(join_strings(&vec![s("a"), s("b"), s("c")], ", "), "a, b, c");
    assert_eq!(join_strings(&vec![], ", "), "");
}

#[test]
fn rows_string_draws_a_box() {
    let out = get_rows_string(pairs(&[("ab", "1"), ("c", "234")]));
    let expected = format!(
        "{DIM}╭---------{RESET}\n{DIM}|{RESET} ab    1{DIM}\n|----+---\n{RESET}{DIM}|{RESET} c     234\n{DIM}╰---------{RESET}"
    );
    assert_eq!(out, expected);
}

#[test]
fn rows_string_measures_keys_in_bytes() {
    let out = get_rows_string(pairs(&[("é", "x")]));
    let expected = format!("{DIM}╭-------{RESET}\n{DIM}|{RESET} é    x\n{DIM}╰-------{RESET}");
    assert_eq!(out, expected);
}

#[test]
fn render_rows_needs_a_row() {
    assert_eq!(render_rows(vec![]), None);
    assert_eq!(render_rows(pairs(&[("a", "b")])), Some(get_rows_string(pairs(&[("a", "b")]))));
}

#[test]
fn maybe_utf8_collapses_nul_runs() {
    let sep = format!("{DIM} ...\\0 {RESET}");
    assert_eq!(as_maybe_utf8(b"ab\0\0\0cd\0".to_vec()), format!("ab{sep}cd{sep}"));
    assert_eq!(as_maybe_utf8(b"plain".to_vec()), "plain");
    assert_eq!(as_maybe_utf8(vec![]), "");
    assert_eq!(as_maybe_utf8(vec![0xFF, b'a']), "\u{FFFD}a");
}

#[test]
fn compression_code_names() {
    let c = codes();
    assert_eq!(get_compression_code_str(&c, 1), "PCM");
    assert_eq!(get_compression_code_str(&c, 2), "UNKNOWN");
    assert_eq!(get_compression_code_str(&CompressionCodes::new(), 1), "UNKNOWN");
}

#[test]
fn compression_codes_from_json() {
    let c = CompressionCodes::from_json(r#"[[1, "PCM"], [85, "MPEG Layer 3"], [1, "Linear PCM"]]"#)
        .unwrap();
    assert_eq!(get_compression_code_str(&c, 1), "Linear PCM");
    assert_eq!(get_compression_code_str(&c, 85), "MPEG Layer 3");
    assert_eq!(get_compression_code_str(&c, 2), "UNKNOWN");
    assert!(CompressionCodes::from_json("not json").is_none());
    assert!(CompressionCodes::from_json(r#"{"1": "PCM"}"#).is_none());
}

#[test]
fn riff_rows_are_colored() {
    let h = RiffChunk { file_size: 36, wave_ident: FourCC(b'W', b'A', b'V', b'E') };
    assert_eq!(
        h.rows(),
        pairs(&[
            ("chunk id", "\x1b[34m'RIFF'\x1b[39m"),
            ("size of file (in bytes)", "\x1b[32m36\x1b[39m"),
            ("wave identifier", "WAVE"),
        ])
    );
    assert_eq!(h.to_display_string(), Some(get_rows_string(h.rows())));
}

#[test]
fn data_rows_count_the_samples() {
    let d = DataChunk { chunk_size: 3, sample_data: vec![1, 2, 3] };
    assert_eq!(
        d.rows(),
        pairs(&[
            ("chunk id", "\x1b[34m'data'\x1b[39m"),
            ("size of data chunk (in bytes)", "\x1b[32m3\x1b[39m"),
            ("data... (minimized)", "[ ...3 items ]"),
        ])
    );
}

fn extensible_fmt() -> FmtChunk {
    FmtChunk {
        chunk_size: 40,
        compression_code: 0xFFFE,
        number_of_channels: 2,
        sample_rate: 48000,
        byte_rate: 288000,
        block_align: 6,
        bits_per_sample: 24,
        extra_bytes: Some(22),
        extended_fmt_sub_chunk: Some(ExtendedFmtSubChunk {
            num_valid_bits: 24,
            channel_mask: 3,
            compression_code: 1,
            wav_guid: vec![0, 0, 0, 0, 0x10, 0, 0x80, 0, 0, 0xAA, 0, 0x38, 0x9B, 0x71],
        }),
    }
}

#[test]
fn fmt_rows_name_both_codes() {
    let rows = extensible_fmt().rows(&codes());
    assert_eq!(
        rows,
        pairs(&[
            ("chunk id", "\x1b[34m'fmt '\x1b[39m"),
            ("size of fmt chunk (in bytes)", "\x1b[32m40\x1b[39m"),
            ("compression code", "65534 (UNKNOWN)"),
            ("number of channels", "2"),
            ("sampling rate", "48000"),
            ("byte rate", "288000"),
            ("block align", "6"),
            ("bits per sample", "24"),
            ("extra format bytes", "22"),
            ("number of valid bits", "24"),
            ("speaker position mask", "3"),
            ("actual compression code", "1 (PCM)"),
            ("WAV GUID", "00 00 00 00 10 00 80 00 00 AA 00 38 9B 71"),
        ])
    );
}

#[test]
fn list_rows_show_each_record() {
    let l = ListInfoChunk {
        chunk_size: 30,
        data: vec![
            ListInfoSubChunk { info_id: FourCC(b'I', b'N', b'A', b'M'), chunk_size: 5, text: b"Abcde".to_vec() },
            ListInfoSubChunk { info_id: FourCC(b'I', b'A', b'R', b'T'), chunk_size: 4, text: b"Defg".to_vec() },
        ],
    };
    assert_eq!(
        l.rows(),
        pairs(&[
            ("chunk id", "\x1b[34m'LIST'\x1b[39m"),
            ("size of LIST chunk (in bytes)", "\x1b[32m30\x1b[39m"),
            ("INAM", "Abcde"),
            ("IART", "Defg"),
        ])
    );
}

#[test]
fn id3_rows_show_flags_in_binary() {
    let c = ID3v2Chunk {
        chunk_size: 23,
        major_version: 3,
        minor_version: 0,
        flags: 0b0100_0000,
        id3v2_size: 13,
        xheader: None,
        tags: vec![ID3v2TagSubChunk {
            frame_id: FourCC(b'T', b'I', b'T', b'2'),
            frame_size: 3,
            flags: 0,
            data: b"abc".to_vec(),
        }],
    };
    assert_eq!(
        c.rows(),
        pairs(&[
            ("chunk id", "\x1b[34m'id3 '\x1b[39m"),
            ("size of id3 chunk (in bytes)", "\x1b[32m23\x1b[39m"),
            ("major version", "3"),
            ("minor version", "0"),
            ("flags", "01000000"),
            ("size of id3v2 (self reported)", "13"),
            ("tag", "TIT2: abc"),
        ])
    );
}

#[test]
fn id3_rows_show_extended_header() {
    let c = ID3v2Chunk {
        chunk_size: 33,
        major_version: 3,
        minor_version: 0,
        flags: 0b1000_0000,
        id3v2_size: 0,
        xheader: Some(ID3v2XHeaderSubChunk {
            chunk_size: 2,
            extended_flags: 0x8000,
            padding_size: 7,
            data: vec![5, 6],
        }),
        tags: vec![],
    };
    let rows = c.rows();
    assert_eq!(rows.len(), 9);
    assert_eq!(rows[4], (s("flags"), s("10000000")));
    assert_eq!(rows[6], (s("extended header size"), s("2")));
    assert_eq!(rows[7], (s("extended header flags"), s("1000000000000000")));
    assert_eq!(rows[8], (s("extended header padding size"), s("7")));
}

#[test]
fn unknown_rows_try_utf8() {
    let u = UnknownChunk { chunk_id: FourCC(b'j', b'u', b'n', b'k'), chunk_size: 4, data: b"hi\0\0".to_vec() };
    let sep = format!("{DIM} ...\\0 {RESET}");
    assert_eq!(
        u.rows(),
        vec![
            (s("chunk id"), s("junk (unknown)")),
            (s("size of file (in bytes)"), s("\x1b[32m4\x1b[39m")),
            (s("data (utf-8 parse attempt)"), format!("hi{sep}")),
        ]
    );
    let c = Chunk::Unknown(u.clone());
    assert_eq!(c.to_display_string(&codes()), u.to_display_string());
    assert_eq!(c.label(), (s("unknown"), 4));
    assert_eq!(c.span(), 12);
}

#[test]
fn parse_fmt_chunk_summarizes_extension() {
    let mut buf: Vec<u8> = b"fmt ".to_vec();
    for v in [40u32] {
        buf.extend_from_slice(&v.to_le_bytes());
    }
    for v in [0xFFFEu16, 2] {
        buf.extend_from_slice(&v.to_le_bytes());
    }
    for v in [48000u32, 288000] {
        buf.extend_from_slice(&v.to_le_bytes());
    }
    for v in [6u16, 24, 22, 24] {
        buf.extend_from_slice(&v.to_le_bytes());
    }
    buf.extend_from_slice(&3u32.to_le_bytes());
    buf.extend_from_slice(&[1, 0, 0, 0, 0, 0, 0x10, 0, 0x80, 0, 0, 0xAA, 0, 0x38, 0x9B, 0x71]);
    let (rows, pos) = parse_fmt_chunk(&buf, &codes()).unwrap();
    assert_eq!(pos, 48);
    assert_eq!(rows[0], (s("chunk id"), s("'fmt '")));
    assert_eq!(rows[2], (s("compression code"), s("65534 (UNKNOWN)")));
    assert_eq!(rows[8], (s("Extra Format Bytes"), s("22")));
    assert_eq!(rows[11], (s("Actual compression code"), s("1 (PCM)")));
    assert_eq!(rows[12], (s("GUID"), s("0100000000001000800000AA00389B71")));
    assert_eq!(rows.len(), 13);
    assert_eq!(
        parse_fmt_chunk(b"fmt ", &codes()),
        Err(ParseError::OutOfBounds { offset: 4, tag: Some(FourCC(b'f', b'm', b't', b' ')) })
    );
    assert_eq!(
        parse_fmt_chunk(b"data\x00\x00\x00\x00", &codes()),
        Err(ParseError::TagMismatch { offset: 0 })
    );
}

#[test]
fn parse_riff_chunk_summarizes_header() {
    let (rows, pos) = parse_riff_chunk(b"RIFF\x24\x00\x00\x00WAVEfmt ").unwrap();
    assert_eq!(pos, 12);
    assert_eq!(
        rows,
        pairs(&[("chunk id", "'RIFF'"), ("size of file (in bytes)", "36"), ("wave identifier", "WAVE")])
    );
    assert_eq!(
        parse_riff_chunk(b"RIFX\x24\x00\x00\x00WAVE"),
        Err(ParseError::MalformedContainer { offset: 0, tag: FourCC(b'R', b'I', b'F', b'X') })
    );
    assert_eq!(
        parse_riff_chunk(b"RIFF\x04\x00\x00\x00ABCD"),
        Err(ParseError::MalformedContainer { offset: 8, tag: FourCC(b'A', b'B', b'C', b'D') })
    );
    assert_eq!(
        parse_riff_chunk(b"RIFF\x04\x00"),
        Err(ParseError::OutOfBounds { offset: 4, tag: Some(FourCC(b'R', b'I', b'F', b'F')) })
    );
}

#[test]
fn position_line_is_dim() {
    assert_eq!(position_line(44), format!("{DIM}| parsed 44 bytes\n{RESET}"));
}

#[test]
fn chunk_labels_and_spans() {
    let f = Chunk::Fmt(extensible_fmt());
    assert_eq!(f.label(), (s("fmt"), 40));
    assert_eq!(f.span(), 48);
    let d = Chunk::Data(DataChunk { chunk_size: 3, sample_data: vec![1, 2, 3] });
    assert_eq!(d.label(), (s("data"), 3));
    assert_eq!(d.span(), 12);
}

#[test]
fn wav_extension_check() {
    assert!(has_wav_extension("song.wav"));
    assert!(has_wav_extension("wav"));
    assert!(!has_wav_extension("song.mp3"));
    assert!(!has_wav_extension("av"));
}
