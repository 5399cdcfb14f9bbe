//! Page assembly: checksums, header layout, lacing, and the stream
//! encoder's cached header pages, against values computed with an
//! independent implementation of the container format.

use ogg_opus::crc::crc_update;
use ogg_opus::ogg::{OggStreamState, StreamError};
use ogg_opus::stream::StreamEncoder;

#[test]
fn crc_reference_values() {
    assert_eq!(crc_update(0, b"123456789"), 0x89A1897F);
    assert_eq!(crc_update(0, b""), 0);
    assert_eq!(crc_update(0, b"\x00"), 0);
}

#[test]
fn header_pages_reference_bytes() {
    let enc = StreamEncoder::new();
    let want: Vec<u8> = vec![
        79, 103, 103, 83, 0, 2, 0, 0, 0, 0, 0, 0, 0, 0, 0, 0, 0, 0, 0, 0, 0, 0, 123, 240, 193, 88,
        1, 19, 79, 112, 117, 115, 72, 101, 97, 100, 1, 2, 0, 15, 128, 187, 0, 0, 0, 0, 0, 79, 103,
        103, 83, 0, 0, 0, 0, 0, 0, 0, 0, 0, 0, 0, 0, 0, 0, 1, 0, 0, 0, 0, 96, 171, 72, 1, 24, 79,
        112, 117, 115, 84, 97, 103, 115, 8, 0, 0, 0, 111, 103, 103, 95, 111, 112, 117, 115, 0, 0,
        0, 0,
    ];
    assert_eq!(enc.head(), want.as_slice());
}

#[test]
fn single_frame_stream_ends_with_eos_page() {
    let mut enc = StreamEncoder::new();
    let payload: Vec<u8> = vec![1, 2, 3, 4, 5];
    enc.finish(payload.as_slice()).unwrap();
    let page = enc.page().expect("the terminal packet owes a page");
    let want_header: Vec<u8> = vec![
        79, 103, 103, 83, 0, 4, 128, 7, 0, 0, 0, 0, 0, 0, 0, 0, 0, 0, 2, 0, 0, 0, 68, 253, 120,
        42, 1, 5,
    ];
    assert_eq!(page.header, want_header);
    assert_eq!(page.body, payload);
    assert!(enc.page().is_none());
}

#[test]
fn audio_pages_accumulate_until_nominal_size() {
    let mut enc = StreamEncoder::new();
    let payload = vec![7u8; 3000];
    enc.encode(payload.as_slice()).unwrap();
    // 3000 bytes buffered: under the nominal page size, no page owed.
    assert!(enc.page().is_none());
    enc.encode(payload.as_slice()).unwrap();
    // 6000 bytes buffered: one page carries both packets.
    let page = enc.page().expect("past the nominal size a page is owed");
    assert_eq!(page.body.len(), 6000);
    // 24 lacing values: 3000 = 11 * 255 + 195, twice.
    assert_eq!(page.header.len(), 27 + 24);
    assert_eq!(page.header[26], 24);
    assert!(enc.page().is_none());
}

#[test]
fn packet_spanning_pages_sets_continuation_flag() {
    let mut st = OggStreamState::with_serial(9);
    // A packet larger than one page's 255 segments: 66000 bytes is 258
    // full segments plus a 210-byte tail.
    let data = vec![3u8; 66000];
    st.encode(&data, 0, 0, true, false).unwrap();
    let first = st.drain().expect("the first page is owed at once");
    // 255 segments of 255 bytes each, no packet ends here.
    assert_eq!(first.header[26], 255);
    assert_eq!(first.body.len(), 255 * 255);
    assert_eq!(first.header[5], 0x02);
    let gran = &first.header[6..14];
    assert_eq!(gran, &[0xFF; 8]);
    // The 975-byte remainder is under the nominal size until flushed.
    assert!(st.drain().is_none());
    st.flush();
    let second = st.drain().expect("a flush pages out the rest of the packet");
    // Continuation flag set; the remaining 975 bytes in 4 segments.
    assert_eq!(second.header[5], 0x01);
    assert_eq!(second.header[26], 4);
    assert_eq!(second.body.len(), 66000 - 255 * 255);
    assert!(st.drain().is_none());
}

#[test]
fn packet_of_exactly_one_segment_laces_with_a_zero_closer() {
    let mut st = OggStreamState::new();
    let data = vec![9u8; 255];
    st.encode(&data, 0, 0, true, false).unwrap();
    let page = st.drain().expect("the first page is owed at once");
    // 255 bytes lace as one full segment closed by a zero value.
    assert_eq!(page.header[26], 2);
    assert_eq!(&page.header[27..29], &[255, 0]);
    assert_eq!(page.body.len(), 255);
}

#[test]
fn empty_packet_laces_as_one_zero_value() {
    let mut st = OggStreamState::new();
    st.encode(&[], 0, 0, true, false).unwrap();
    let page = st.drain().expect("the first page is owed at once");
    assert_eq!(page.header[26], 1);
    assert_eq!(page.header[27], 0);
    assert!(page.body.is_empty());
}

#[test]
fn page_checksum_covers_the_whole_page_with_its_field_zeroed() {
    let mut st = OggStreamState::with_serial(77);
    st.encode(&[1, 2, 3, 4, 5, 6], 0, 0, true, false).unwrap();
    let page = st.drain().unwrap();
    let mut zeroed = page.header.clone();
    zeroed[22..26].copy_from_slice(&[0, 0, 0, 0]);
    let crc = crc_update(crc_update(0, &zeroed), &page.body);
    assert_eq!(&page.header[22..26], &crc.to_le_bytes());
    assert_ne!(crc, 0);
}

#[test]
fn malformed_submissions_are_rejected() {
    let mut st = OggStreamState::new();
    let data = vec![1u8, 2, 3];
    // Wrong sequence number.
    assert_eq!(st.encode(&data, 0, 5, true, false), Err(StreamError::BadSequence));
    // Wrong begin flag for the first packet.
    assert_eq!(st.encode(&data, 0, 0, false, false), Err(StreamError::BadBeginFlag));
    st.encode(&data, 10, 0, true, false).unwrap();
    // Granule position going backward.
    assert_eq!(st.encode(&data, 9, 1, false, false), Err(StreamError::GranuleRegression));
    st.encode(&data, 10, 1, false, true).unwrap();
    // Nothing after the end-of-stream packet.
    assert_eq!(st.encode(&data, 11, 2, false, false), Err(StreamError::AfterEnd));
}

#[test]
fn stream_encoder_rejects_after_finish() {
    let mut enc = StreamEncoder::new();
    enc.finish(&[1, 2]).unwrap();
    assert_eq!(enc.encode(&[3]), Err(StreamError::AfterEnd));
    assert_eq!(enc.finish(&[3]), Err(StreamError::AfterEnd));
}

#[test]
fn serial_number_is_written_into_every_page() {
    let mut st = OggStreamState::with_serial(0xDEADBEEF);
    st.encode(&[1], 0, 0, true, false).unwrap();
    let page = st.drain().unwrap();
    assert_eq!(&page.header[14..18], &0xDEADBEEFu32.to_le_bytes());
}
