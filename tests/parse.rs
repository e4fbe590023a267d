use wav_inspector::chunks::{Chunk, RiffChunk};
use wav_inspector::cursor::{ContainerCursor, Endian};
use wav_inspector::error::{FourCC, ParseError};
use wav_inspector::parse::{
    decode_data, decode_fmt, decode_id3v2, decode_list_info, parse_wav, walk_wav,
};

fn le16(v: u16) -> Vec<u8> {
    v.to_le_bytes().to_vec()
}

fn le32(v: u32) -> Vec<u8> {
    v.to_le_bytes().to_vec()
}

fn be32(v: u32) -> Vec<u8> {
    v.to_be_bytes().to_vec()
}

fn cat(parts: &[&[u8]]) -> Vec<u8> {
    let mut out = Vec::new();
    for p in parts {
        out.extend_from_slice(p);
    }
    out
}

fn fmt16() -> Vec<u8> {
    cat(&[
        b"fmt ",
        &le32(16),
        &le16(1),
        &le16(2),
        &le32(44100),
        &le32(176400),
        &le16(4),
        &le16(16),
    ])
}

fn riff(body: &[u8]) -> Vec<u8> {
    cat(&[b"RIFF", &le32(4 + body.len() as u32), b"WAVE", body])
}

fn example_one() -> Vec<u8> {
    cat(&[b"RIFF", &le32(36), b"WAVE", &fmt16(), b"data", &le32(0)])
}

fn list_example_body() -> Vec<u8> {
    cat(&[b"INAM", &le32(5), b"Abcde", &[0u8], b"IART", &le32(4), b"Defg"])
}

#[test]
fn example_one_minimal_pcm() {
    let buf = example_one();
    assert_eq!(buf.len(), 44);
    let w = parse_wav(&buf).unwrap();
    assert_eq!(w.riff, RiffChunk { file_size: 36, wave_ident: FourCC(b'W', b'A', b'V', b'E') });
    assert_eq!(w.chunks.len(), 2);
    match &w.chunks[0] {
        Chunk::Fmt(f) => {
            assert_eq!(f.chunk_size, 16);
            assert_eq!(f.compression_code, 1);
            assert_eq!(f.number_of_channels, 2);
            assert_eq!(f.sample_rate, 44100);
            assert_eq!(f.byte_rate, 176400);
            assert_eq!(f.block_align, 4);
            assert_eq!(f.bits_per_sample, 16);
            assert_eq!(f.extra_bytes, None);
            assert!(f.extended_fmt_sub_chunk.is_none());
        }
        other => panic!("expected fmt, got {:?}", other),
    }
    match &w.chunks[1] {
        Chunk::Data(d) => {
            assert_eq!(d.chunk_size, 0);
            assert!(d.sample_data.is_empty());
        }
        other => panic!("expected data, got {:?}", other),
    }
    let consumed: u64 = 12 + w.chunks.iter().map(|c| c.span()).sum::<u64>();
    assert_eq!(consumed, 44);
}

#[test]
fn example_two_list_info() {
    let body = list_example_body();
    let list = cat(&[b"LIST", &le32(4 + body.len() as u32), b"INFO", &body]);
    let buf = riff(&list);
    let w = parse_wav(&buf).unwrap();
    assert_eq!(w.chunks.len(), 1);
    match &w.chunks[0] {
        Chunk::ListInfo(l) => {
            assert_eq!(l.chunk_size, 30);
            assert_eq!(l.data.len(), 2);
            assert_eq!(l.data[0].info_id, FourCC(b'I', b'N', b'A', b'M'));
            assert_eq!(l.data[0].text, b"Abcde".to_vec());
            assert_eq!(l.data[1].info_id, FourCC(b'I', b'A', b'R', b'T'));
            assert_eq!(l.data[1].text, b"Defg".to_vec());
        }
        other => panic!("expected LIST, got {:?}", other),
    }
    assert_eq!(w.chunks[0].span(), 8 + 30);
}

#[test]
fn walk_consumes_whole_buffer() {
    let buf = riff(&cat(&[&fmt16(), b"data", &le32(3), &[1, 2, 3, 0], b"junk", &le32(2), &[9, 9]]));
    let w = parse_wav(&buf).unwrap();
    let consumed: u64 = 12 + w.chunks.iter().map(|c| c.span()).sum::<u64>();
    assert_eq!(consumed, buf.len() as u64);
}

#[test]
fn parsing_twice_gives_the_same_chunks() {
    let buf = example_one();
    let a = parse_wav(&buf).unwrap();
    let b = parse_wav(&buf).unwrap();
    assert_eq!(a, b);
    let bad = cat(&[b"RIFF", &le32(36), b"WAVX"]);
    assert_eq!(parse_wav(&bad), parse_wav(&bad));
}

#[test]
fn fmt_size_16_has_no_optional_parts() {
    let buf = fmt16();
    let mut cur = ContainerCursor::new(&buf);
    let f = decode_fmt(&mut cur).unwrap();
    assert_eq!(f.extra_bytes, None);
    assert!(f.extended_fmt_sub_chunk.is_none());
    assert_eq!(cur.position(), 24);
}

#[test]
fn fmt_size_18_reads_filler_only() {
    let mut buf = fmt16();
    buf[4] = 18;
    buf.extend_from_slice(&le16(0));
    buf.extend_from_slice(b"rest");
    let mut cur = ContainerCursor::new(&buf);
    let f = decode_fmt(&mut cur).unwrap();
    assert_eq!(f.chunk_size, 18);
    assert_eq!(f.extra_bytes, Some(0));
    assert!(f.extended_fmt_sub_chunk.is_none());
    assert_eq!(cur.position(), 26);
}

#[test]
fn fmt_size_40_reads_extension() {
    let mut buf = fmt16();
    buf[4] = 40;
    buf[8] = 0xFE;
    buf[9] = 0xFF;
    let guid: Vec<u8> = vec![0, 0, 0, 0, 0x10, 0, 0x80, 0, 0, 0xAA, 0, 0x38, 0x9B, 0x71];
    buf.extend_from_slice(&cat(&[&le16(22), &le16(24), &le32(3), &le16(1), &guid]));
    let mut cur = ContainerCursor::new(&buf);
    let f = decode_fmt(&mut cur).unwrap();
    assert_eq!(f.compression_code, 0xFFFE);
    assert_eq!(f.extra_bytes, Some(22));
    let x = f.extended_fmt_sub_chunk.unwrap();
    assert_eq!(x.num_valid_bits, 24);
    assert_eq!(x.channel_mask, 3);
    assert_eq!(x.compression_code, 1);
    assert_eq!(x.wav_guid, guid);
    assert_eq!(cur.position(), 48);
}

#[test]
fn fmt_size_40_truncated_extension_is_out_of_bounds() {
    let mut buf = fmt16();
    buf[4] = 40;
    buf.extend_from_slice(&le16(22));
    buf.extend_from_slice(&[0u8; 10]);
    let mut cur = ContainerCursor::new(&buf);
    assert_eq!(decode_fmt(&mut cur), Err(ParseError::OutOfBounds { offset: 26, tag: Some(FourCC(b'f', b'm', b't', b' ')) }));
}

#[test]
fn fmt_decoder_rejects_other_tag() {
    let buf = cat(&[b"data", &le32(0)]);
    let mut cur = ContainerCursor::new(&buf);
    assert_eq!(decode_fmt(&mut cur), Err(ParseError::TagMismatch { offset: 0 }));
}

#[test]
fn odd_data_payload_consumes_one_pad_byte() {
    let buf = cat(&[b"data", &le32(3), &[1, 2, 3], &[0], b"next"]);
    let mut cur = ContainerCursor::new(&buf);
    let d = decode_data(&mut cur).unwrap();
    assert_eq!(d.sample_data, vec![1, 2, 3]);
    assert_eq!(cur.position(), 12);
    let even = cat(&[b"data", &le32(2), &[1, 2], b"next"]);
    let mut cur = ContainerCursor::new(&even);
    decode_data(&mut cur).unwrap();
    assert_eq!(cur.position(), 10);
}

#[test]
fn odd_data_payload_without_pad_is_out_of_bounds() {
    let buf = cat(&[b"data", &le32(3), &[1, 2, 3]]);
    let mut cur = ContainerCursor::new(&buf);
    assert_eq!(decode_data(&mut cur), Err(ParseError::OutOfBounds { offset: 11, tag: Some(FourCC(b'd', b'a', b't', b'a')) }));
}

#[test]
fn odd_info_text_consumes_one_pad_byte() {
    let body = cat(&[b"INAM", &le32(1), b"A", &[0]]);
    let buf = cat(&[b"LIST", &le32(4 + body.len() as u32), b"INFO", &body]);
    let mut cur = ContainerCursor::new(&buf);
    let l = decode_list_info(&mut cur).unwrap();
    assert_eq!(l.data[0].text, b"A".to_vec());
    assert_eq!(cur.position(), buf.len());
}

#[test]
fn info_record_crossing_the_block_is_a_framing_error() {
    let body = cat(&[b"INAM", &le32(6), b"Abcd"]);
    let buf = cat(&[b"LIST", &le32(4 + body.len() as u32), b"INFO", &body, b"more"]);
    let mut cur = ContainerCursor::new(&buf);
    assert_eq!(decode_list_info(&mut cur), Err(ParseError::FramingMismatch { offset: 12, tag: FourCC(b'L', b'I', b'S', b'T') }));
}

#[test]
fn list_of_another_form_is_an_unknown_chunk() {
    let buf = riff(&cat(&[b"LIST", &le32(4), b"adtl"]));
    let w = parse_wav(&buf).unwrap();
    match &w.chunks[0] {
        Chunk::Unknown(u) => {
            assert_eq!(u.chunk_id, FourCC(b'L', b'I', b'S', b'T'));
            assert_eq!(u.data, b"adtl".to_vec());
        }
        other => panic!("expected unknown, got {:?}", other),
    }
}

fn id3_chunk(flags: u8, xheader: &[u8], frames: &[u8]) -> Vec<u8> {
    let body_size = frames.len() as u32;
    let inner = cat(&[b"ID3", &[3, 0, flags], &be32(body_size), xheader, frames]);
    let pad: &[u8] = if body_size % 2 == 1 { &[0] } else { &[] };
    cat(&[b"id3 ", &le32(inner.len() as u32), &inner, pad])
}

#[test]
fn id3_frames_are_decoded_big_endian() {
    let frames = cat(&[b"TIT2", &be32(3), &[0, 0], b"abc"]);
    let buf = id3_chunk(0, &[], &frames);
    let mut cur = ContainerCursor::new(&buf);
    let c = decode_id3v2(&mut cur).unwrap();
    assert_eq!(c.major_version, 3);
    assert_eq!(c.minor_version, 0);
    assert_eq!(c.id3v2_size, 13);
    assert!(c.xheader.is_none());
    assert_eq!(c.tags.len(), 1);
    assert_eq!(c.tags[0].frame_id, FourCC(b'T', b'I', b'T', b'2'));
    assert_eq!(c.tags[0].frame_size, 3);
    assert_eq!(c.tags[0].data, b"abc".to_vec());
    // odd body: one pad byte after it
    assert_eq!(cur.position(), 8 + 10 + 13 + 1);
    assert_eq!(cur.position(), buf.len());
}

#[test]
fn id3_extended_header_precedes_frames() {
    let xheader = cat(&[&be32(2), &[0x80, 0], &be32(7), &[5, 6]]);
    let frames = cat(&[b"TALB", &be32(2), &[0, 0], b"xy"]);
    let buf = id3_chunk(0x80, &xheader, &frames);
    let mut cur = ContainerCursor::new(&buf);
    let c = decode_id3v2(&mut cur).unwrap();
    let x = c.xheader.unwrap();
    assert_eq!(x.chunk_size, 2);
    assert_eq!(x.extended_flags, 0x8000);
    assert_eq!(x.padding_size, 7);
    assert_eq!(x.data, vec![5, 6]);
    assert_eq!(c.tags[0].data, b"xy".to_vec());
    assert_eq!(cur.position(), buf.len());
}

#[test]
fn id3_frame_crossing_the_body_is_a_framing_error() {
    let frames = cat(&[b"TIT2", &be32(9), &[0, 0], b"abc"]);
    let mut buf = id3_chunk(0, &[], &frames);
    buf.extend_from_slice(&[0u8; 16]);
    let mut cur = ContainerCursor::new(&buf);
    assert_eq!(decode_id3v2(&mut cur), Err(ParseError::FramingMismatch { offset: 18, tag: FourCC(b'i', b'd', b'3', b' ') }));
}

#[test]
fn unknown_tag_that_fits_is_kept() {
    let buf = riff(&cat(&[&fmt16(), b"junk", &le32(2), &[7, 8]]));
    let w = parse_wav(&buf).unwrap();
    match &w.chunks[1] {
        Chunk::Unknown(u) => {
            assert_eq!(u.chunk_id, FourCC(b'j', b'u', b'n', b'k'));
            assert_eq!(u.chunk_size, 2);
            assert_eq!(u.data, vec![7, 8]);
        }
        other => panic!("expected unknown, got {:?}", other),
    }
}

#[test]
fn unrecognized_tag_reports_its_offset() {
    let buf = riff(&cat(&[&fmt16(), b"junk", &le32(1000), &[1, 2]]));
    assert_eq!(
        parse_wav(&buf),
        Err(ParseError::UnrecognizedChunk { offset: 36, tag: FourCC(b'j', b'u', b'n', b'k') })
    );
}

#[test]
fn missing_riff_magic_is_malformed() {
    let mut buf = example_one();
    buf[0] = b'X';
    assert_eq!(parse_wav(&buf), Err(ParseError::MalformedContainer { offset: 0, tag: FourCC(b'X', b'I', b'F', b'F') }));
}

#[test]
fn missing_wave_magic_is_malformed() {
    let mut buf = example_one();
    buf[8] = b'A';
    assert_eq!(parse_wav(&buf), Err(ParseError::MalformedContainer { offset: 8, tag: FourCC(b'A', b'A', b'V', b'E') }));
}

#[test]
fn short_buffer_is_out_of_bounds() {
    assert_eq!(parse_wav(b"RI"), Err(ParseError::OutOfBounds { offset: 0, tag: None }));
    assert_eq!(parse_wav(b"RIFF\x04\x00"), Err(ParseError::OutOfBounds { offset: 4, tag: Some(FourCC(b'R', b'I', b'F', b'F')) }));
    assert_eq!(parse_wav(b"RIFF\x04\x00\x00\x00WA"), Err(ParseError::OutOfBounds { offset: 8, tag: Some(FourCC(b'R', b'I', b'F', b'F')) }));
}

#[test]
fn truncated_data_chunk_is_out_of_bounds() {
    let buf = cat(&[b"RIFF", &le32(36), b"WAVE", &fmt16(), b"data", &le32(8), &[1, 2]]);
    assert_eq!(parse_wav(&buf), Err(ParseError::OutOfBounds { offset: 44, tag: Some(FourCC(b'd', b'a', b't', b'a')) }));
}

#[test]
fn trailing_bytes_are_reported() {
    let mut buf = example_one();
    buf.extend_from_slice(&[0, 0]);
    assert_eq!(
        parse_wav(&buf),
        Err(ParseError::TrailingOrMissingBytes { position: 44, length: 46, tag: None })
    );
}

#[test]
fn trailing_chunk_is_named() {
    let mut buf = example_one();
    buf.extend_from_slice(b"junk");
    buf.extend_from_slice(&le32(0));
    assert_eq!(
        parse_wav(&buf),
        Err(ParseError::TrailingOrMissingBytes {
            position: 44,
            length: 52,
            tag: Some(FourCC(b'j', b'u', b'n', b'k'))
        })
    );
}

#[test]
fn declared_size_below_the_buffer_is_malformed() {
    let buf = cat(&[b"RIFF", &le32(5), b"WAVE", b"data", &le32(0)]);
    assert_eq!(buf.len(), 20);
    assert_eq!(
        parse_wav(&buf),
        Err(ParseError::MalformedContainer { offset: 4, tag: FourCC(b'R', b'I', b'F', b'F') })
    );
}

#[test]
fn out_of_bounds_names_the_chunk() {
    let buf = riff(&cat(&[b"LIST", &le32(40), b"INFO", b"INAM"]));
    assert_eq!(
        parse_wav(&buf),
        Err(ParseError::OutOfBounds { offset: 24, tag: Some(FourCC(b'L', b'I', b'S', b'T')) })
    );
}

#[test]
fn declared_size_past_the_chunks_reads_on() {
    let mut buf = example_one();
    buf[4] = 40;
    assert_eq!(parse_wav(&buf), Err(ParseError::OutOfBounds { offset: 44, tag: None }));
}

#[test]
fn cursor_reads_both_byte_orders() {
    let buf = vec![0x12, 0x34, 0x56, 0x78, 0x9A];
    let mut cur = ContainerCursor::new(&buf);
    assert_eq!(cur.read_u16(Endian::Little), Ok(0x3412));
    cur.seek_relative(-2).unwrap();
    assert_eq!(cur.read_u16(Endian::Big), Ok(0x1234));
    cur.seek_relative(-2).unwrap();
    assert_eq!(cur.read_u32(Endian::Little), Ok(0x78563412));
    cur.seek_relative(-4).unwrap();
    assert_eq!(cur.read_u32(Endian::Big), Ok(0x12345678));
    assert_eq!(cur.read_u32(Endian::Big), Err(ParseError::OutOfBounds { offset: 4, tag: None }));
    assert_eq!(cur.position(), 4);
    assert_eq!(cur.read_u8(), Ok(0x9A));
    assert_eq!(cur.read_u8(), Err(ParseError::OutOfBounds { offset: 5, tag: None }));
    assert_eq!(cur.seek_relative(1), Err(ParseError::OutOfBounds { offset: 5, tag: None }));
    assert_eq!(cur.seek_relative(-6), Err(ParseError::OutOfBounds { offset: 5, tag: None }));
}

#[test]
fn cursor_reads_raw_bytes_and_tags() {
    let buf = b"abcdefg".to_vec();
    let mut cur = ContainerCursor::new(&buf);
    assert_eq!(cur.read_tag(), Ok(FourCC(b'a', b'b', b'c', b'd')));
    assert_eq!(cur.read_bytes(4), Err(ParseError::OutOfBounds { offset: 4, tag: None }));
    assert_eq!(cur.read_bytes(3), Ok(b"efg".to_vec()));
    assert!(!cur.has(1));
    assert_eq!(FourCC::from_bytes(*b"WAVE").to_bytes(), b"WAVE".to_vec());
}

#[test]
fn walk_keeps_chunks_before_an_error() {
    let buf = riff(&cat(&[&fmt16(), b"junk", &le32(1000), &[1, 2]]));
    let w = walk_wav(&buf);
    assert_eq!(w.riff, Some(RiffChunk { file_size: 38, wave_ident: FourCC(b'W', b'A', b'V', b'E') }));
    assert_eq!(w.chunks.len(), 1);
    assert!(matches!(w.chunks[0], Chunk::Fmt(_)));
    assert_eq!(w.error, Some(ParseError::UnrecognizedChunk { offset: 36, tag: FourCC(b'j', b'u', b'n', b'k') }));
    let ok = walk_wav(&example_one());
    assert_eq!(ok.error, None);
    assert_eq!(ok.chunks, parse_wav(&example_one()).unwrap().chunks);
    let bad = walk_wav(b"RIFX");
    assert_eq!(bad.riff, None);
    assert!(bad.chunks.is_empty());
    assert_eq!(bad.error, Some(ParseError::MalformedContainer { offset: 0, tag: FourCC(b'R', b'I', b'F', b'X') }));
}

#[test]
fn odd_unknown_chunk_consumes_one_pad_byte() {
    let buf = cat(&[b"RIFF", &le32(14), b"WAVE", b"junk", &le32(1), &[0x41], &[0]]);
    assert_eq!(buf.len(), 22);
    let w = parse_wav(&buf).unwrap();
    assert_eq!(w.chunks.len(), 1);
    match &w.chunks[0] {
        Chunk::Unknown(u) => {
            assert_eq!(u.chunk_size, 1);
            assert_eq!(u.data, vec![0x41]);
        }
        other => panic!("expected unknown, got {:?}", other),
    }
    assert_eq!(w.chunks[0].span(), 10);
    assert_eq!(walk_wav(&buf).error, None);
}

#[test]
fn odd_unknown_chunk_without_pad_is_unrecognized() {
    let buf = cat(&[b"RIFF", &le32(13), b"WAVE", b"junk", &le32(1), &[0x41]]);
    assert_eq!(
        parse_wav(&buf),
        Err(ParseError::UnrecognizedChunk { offset: 12, tag: FourCC(b'j', b'u', b'n', b'k') })
    );
}

#[test]
fn id3_declared_size_must_match_its_contents() {
    let frames = cat(&[b"TIT2", &be32(2), &[0, 0], b"ab"]);
    let mut buf = id3_chunk(0, &[], &frames);
    buf[4] = buf[4] + 2;
    buf.extend_from_slice(&[0, 0]);
    let mut cur = ContainerCursor::new(&buf);
    assert_eq!(
        decode_id3v2(&mut cur),
        Err(ParseError::FramingMismatch { offset: 0, tag: FourCC(b'i', b'd', b'3', b' ') })
    );
}

#[test]
fn id3_odd_declared_size_is_rounded_up() {
    let frames = cat(&[b"TIT2", &be32(3), &[0, 0], b"abc"]);
    let mut buf = id3_chunk(0, &[], &frames);
    // 10 header bytes and 13 body bytes: declared 23, taken 24 with the pad
    assert_eq!(buf[4], 23);
    let whole = riff(&buf);
    let w = parse_wav(&whole).unwrap();
    assert_eq!(w.chunks[0].span(), 32);
    buf[4] = 24;
    let mut cur = ContainerCursor::new(&buf);
    assert!(decode_id3v2(&mut cur).is_ok());
}
