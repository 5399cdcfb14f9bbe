//! The RIFF WAV headers: chunk field accessors, header parsing with
//! each of its errors, and the file writer's exact bytes.

use ogg_opus::bytes::read_s24_le;
use ogg_opus::wav::{
    parse_chunk, parse_riff_header, wav_file_bytes, Chunk, Error, Fmt, Format,
};

fn fmt_bytes() -> [u8; 40] {
    let mut d = [0u8; 40];
    d[0..2].copy_from_slice(&0x0001u16.to_le_bytes()); // PCM
    d[2..4].copy_from_slice(&2u16.to_le_bytes()); // stereo
    d[4..8].copy_from_slice(&48000u32.to_le_bytes());
    d[8..12].copy_from_slice(&192000u32.to_le_bytes());
    d[12..14].copy_from_slice(&4u16.to_le_bytes());
    d[14..16].copy_from_slice(&16u16.to_le_bytes());
    d
}

#[test]
fn fmt_accessors_read_little_endian_fields() {
    let fmt = Fmt::new(16, fmt_bytes());
    assert!(matches!(fmt.format(), Ok(Some(Format::Pcm))));
    assert_eq!(fmt.channels(), 2);
    assert_eq!(fmt.rate(), 48000);
    assert_eq!(fmt.bytes_per_sec(), 192000);
    assert_eq!(fmt.frame(), 4);
    assert_eq!(fmt.bit_depth(), 16);
    // Basic chunk: no extension fields.
    assert_eq!(fmt.ext_size(), None);
    assert_eq!(fmt.valid_bits(), None);
    assert_eq!(fmt.speaker_position(), None);
    assert!(matches!(fmt.subformat(), Ok(None)));
}

#[test]
fn fmt_format_variants() {
    let mut d = fmt_bytes();
    d[0..2].copy_from_slice(&0x0003u16.to_le_bytes());
    assert!(matches!(Fmt::new(16, d).format(), Ok(Some(Format::Float))));
    d[0..2].copy_from_slice(&0x0006u16.to_le_bytes());
    assert!(matches!(Fmt::new(16, d).format(), Ok(Some(Format::ALaw))));
    d[0..2].copy_from_slice(&0x0007u16.to_le_bytes());
    assert!(matches!(Fmt::new(16, d).format(), Ok(Some(Format::MuLaw))));
    d[0..2].copy_from_slice(&0xFFFEu16.to_le_bytes());
    assert!(matches!(Fmt::new(16, d).format(), Ok(None)));
    d[0..2].copy_from_slice(&0x3412u16.to_le_bytes());
    assert!(matches!(Fmt::new(16, d).format(), Err(Error::Format)));
}

#[test]
fn fmt_format_reads_its_own_writer_code() {
    // The file writer emits format code 1 little-endian; the reader
    // must accept exactly those bytes as PCM.
    let file = wav_file_bytes(&Vec::new(), 48000);
    let mut d = [0u8; 40];
    d[0..16].copy_from_slice(&file[20..36]);
    let fmt = Fmt::new(16, d);
    assert!(matches!(fmt.format(), Ok(Some(Format::Pcm))));
    assert_eq!(fmt.channels(), 2);
    assert_eq!(fmt.rate(), 48000);
}

#[test]
fn fmt_extended_chunk_fields() {
    let mut d = fmt_bytes();
    d[16..18].copy_from_slice(&22u16.to_le_bytes());
    d[18..20].copy_from_slice(&20u16.to_le_bytes());
    d[20..24].copy_from_slice(&0x3u32.to_le_bytes());
    d[24] = 0x01;
    d[25] = 0x00;
    d[26..40].copy_from_slice(&[
        0x00, 0x00, 0x00, 0x00, 0x10, 0x00, 0x80, 0x00, 0x00, 0xAA, 0x00, 0x38, 0x9B, 0x71,
    ]);
    let fmt = Fmt::new(40, d);
    assert_eq!(fmt.ext_size(), Some(22));
    assert_eq!(fmt.valid_bits(), Some(20));
    assert_eq!(fmt.speaker_position(), Some(3));
    assert!(matches!(fmt.subformat(), Ok(Some([0x01, 0x00]))));
    // A corrupted GUID tail is rejected.
    let mut bad = d;
    bad[30] = 0x11;
    assert!(matches!(Fmt::new(40, bad).subformat(), Err(Error::Subformat)));
}

fn riff_bytes() -> [u8; 20] {
    let mut b = [0u8; 20];
    b[0..4].copy_from_slice(b"RIFF");
    b[4..8].copy_from_slice(&100u32.to_le_bytes());
    b[8..12].copy_from_slice(b"WAVE");
    b[12..16].copy_from_slice(b"fmt ");
    b[16..20].copy_from_slice(&16u32.to_le_bytes());
    b
}

#[test]
fn riff_header_parses() {
    let info = match parse_riff_header(&riff_bytes()) {
        Ok(info) => info,
        Err(_) => panic!("a well-formed header must parse"),
    };
    assert_eq!(info.size, 96);
    assert_eq!(&info.chunk_name, b"fmt ");
    assert_eq!(info.chunk_size, 16);
}

#[test]
fn riff_header_rejects_wrong_tags() {
    let mut b = riff_bytes();
    b[0] = b'X';
    assert!(matches!(parse_riff_header(&b), Err(Error::NotRiff)));
    let mut b = riff_bytes();
    b[4..8].copy_from_slice(&2u32.to_le_bytes());
    assert!(matches!(parse_riff_header(&b), Err(Error::NotRiff)));
    let mut b = riff_bytes();
    b[8..12].copy_from_slice(b"AVI ");
    assert!(matches!(parse_riff_header(&b), Err(Error::NotWav)));
}

#[test]
fn chunks_are_interpreted_by_name() {
    let data = fmt_bytes();
    match parse_chunk(b"fmt ", 16, &data) {
        Some(Ok(Chunk::Fmt(f))) => {
            assert_eq!(f.channels(), 2);
        },
        _ => panic!("the fmt chunk must parse"),
    }
    assert!(parse_chunk(&[0; 4], 0, &data).is_none());
    match parse_chunk(b"LIST", 12, &data) {
        Some(Err(Error::Chunk(name))) => assert_eq!(&name, b"LIST"),
        _ => panic!("an unknown chunk must be reported by name"),
    }
}

#[test]
fn wav_file_reference_bytes() {
    let samples: Vec<i16> = vec![1000, -1000, 2000, -2000];
    let got = wav_file_bytes(&samples, 8000);
    let want: Vec<u8> = vec![
        82, 73, 70, 70, 44, 0, 0, 0, 87, 65, 86, 69, 102, 109, 116, 32, 16, 0, 0, 0, 1, 0, 2, 0,
        64, 31, 0, 0, 0, 125, 0, 0, 4, 0, 16, 0, 100, 97, 116, 97, 8, 0, 0, 0, 232, 3, 24, 252,
        208, 7, 48, 248,
    ];
    assert_eq!(got, want);
}

#[test]
fn signed_24_bit_samples_sign_extend() {
    assert_eq!(read_s24_le(0x00, 0x00, 0x00), 0);
    assert_eq!(read_s24_le(0x01, 0x00, 0x00), 1);
    assert_eq!(read_s24_le(0xFF, 0xFF, 0x7F), 8388607);
    assert_eq!(read_s24_le(0x00, 0x00, 0x80), -8388608);
    assert_eq!(read_s24_le(0xFF, 0xFF, 0xFF), -1);
}

#[test]
fn wav_file_empty_stream() {
    let samples: Vec<i16> = Vec::new();
    let got = wav_file_bytes(&samples, 48000);
    assert_eq!(got.len(), 44);
    assert_eq!(&got[0..4], b"RIFF");
    assert_eq!(&got[4..8], &36u32.to_le_bytes());
    assert_eq!(&got[40..44], &0u32.to_le_bytes());
}
