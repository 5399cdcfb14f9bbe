//! The two mandatory header payloads, byte for byte.

use ogg_opus::headers::{comment_payload, ident_payload};

#[test]
fn it_works() {
    assert_eq!(2 + 2, 4);
}

#[test]
fn ident_payload_reference_bytes() {
    let got = ident_payload(2, 3840, 48000, 0, 0);
    let want: Vec<u8> = vec![
        0x4F, 0x70, 0x75, 0x73, 0x48, 0x65, 0x61, 0x64, 0x01, 0x02, 0x00, 0x0F, 0x80, 0xBB, 0x00,
        0x00, 0x00, 0x00, 0x00,
    ];
    assert_eq!(got, want);
}

#[test]
fn ident_payload_mono_low_rate() {
    let got = ident_payload(1, 312, 8000, -2, 1);
    let mut want: Vec<u8> = b"OpusHead".to_vec();
    want.push(1);
    want.push(1);
    want.extend_from_slice(&312u16.to_le_bytes());
    want.extend_from_slice(&8000u32.to_le_bytes());
    want.extend_from_slice(&(-2i16).to_le_bytes());
    want.push(1);
    assert_eq!(got, want);
}

#[test]
fn comment_payload_reference_bytes() {
    let vendor = b"test".to_vec();
    let entries: Vec<Vec<u8>> = Vec::new();
    let got = comment_payload(&vendor, &entries);
    let want: Vec<u8> = vec![
        0x4F, 0x70, 0x75, 0x73, 0x54, 0x61, 0x67, 0x73, 0x04, 0x00, 0x00, 0x00, 0x74, 0x65, 0x73,
        0x74, 0x00, 0x00, 0x00, 0x00,
    ];
    assert_eq!(got, want);
}

#[test]
fn comment_payload_with_entries() {
    let vendor = b"v".to_vec();
    let entries: Vec<Vec<u8>> = vec![b"ARTIST=Someone".to_vec(), b"TITLE=Some track".to_vec()];
    let got = comment_payload(&vendor, &entries);
    let mut want: Vec<u8> = b"OpusTags".to_vec();
    want.extend_from_slice(&1u32.to_le_bytes());
    want.extend_from_slice(b"v");
    want.extend_from_slice(&2u32.to_le_bytes());
    want.extend_from_slice(&14u32.to_le_bytes());
    want.extend_from_slice(b"ARTIST=Someone");
    want.extend_from_slice(&16u32.to_le_bytes());
    want.extend_from_slice(b"TITLE=Some track");
    assert_eq!(got, want);
}

#[test]
fn comment_payload_empty_vendor() {
    let vendor: Vec<u8> = Vec::new();
    let entries: Vec<Vec<u8>> = Vec::new();
    let got = comment_payload(&vendor, &entries);
    let mut want: Vec<u8> = b"OpusTags".to_vec();
    want.extend_from_slice(&0u32.to_le_bytes());
    want.extend_from_slice(&0u32.to_le_bytes());
    assert_eq!(got, want);
}
