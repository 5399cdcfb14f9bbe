//! The whole producer pipeline on one frame: accumulate, packetize the
//! frame as the terminal packet, page it out, broadcast, shut down.

use ogg_opus::accumulator::FrameAccumulator;
use ogg_opus::registry::BroadcastRegistry;
use ogg_opus::stream::StreamEncoder;

#[test]
fn one_frame_then_close() {
    // Capture yields exactly one full frame, then closes.
    let mut acc = FrameAccumulator::new(1920 * 2);
    acc.push(&vec![100i16; 1920 * 2]);

    let mut enc = StreamEncoder::new();
    let mut reg = BroadcastRegistry::new();
    // Header pages live in the encoder's cache, not its drain.
    assert!(enc.page().is_none());
    assert_eq!(&enc.head()[0..4], b"OggS");
    for page in enc.header_pages() {
        reg.cache_header(page);
    }

    let listener = reg.join(64).unwrap();

    let frame = acc.try_take_frame().expect("one full frame was captured");
    assert!(acc.try_take_frame().is_none(), "no second frame exists");
    // The external codec's payload stands in as opaque bytes.
    let payload: Vec<u8> = frame.iter().take(40).map(|s| *s as u8).collect();

    // The capture source is closed: this frame is the terminal packet,
    // the third of the stream (after the two header packets).
    enc.finish(&payload).unwrap();
    let mut pages = 0;
    while let Some(page) = enc.page() {
        // End-of-stream flag on the terminal page; page sequence 2.
        assert_eq!(page.header[5] & 0x04, 0x04);
        assert_eq!(&page.header[18..22], &2u32.to_le_bytes());
        reg.broadcast(&page);
        pages += 1;
    }
    assert_eq!(pages, 1, "one audio packet yields exactly one page here");

    // The registry's final action: closing every subscriber's channel.
    reg.close_all();
    // The listener drains, in order: identification page, comment page,
    // then the one live page, and then sees the closed channel.
    let first = reg.take(listener).expect("the identification page is owed");
    assert_eq!(first.header[5], 0x02);
    let second = reg.take(listener).expect("the comment page is owed");
    assert_eq!(second.header[5], 0x00);
    let third = reg.take(listener).expect("the audio page is owed");
    assert_eq!(third.header[5] & 0x04, 0x04);
    assert!(reg.take(listener).is_none());
    assert!(reg.is_done(listener));
}
