//! The frame accumulator: strict FIFO, exact frame boundaries, and no
//! padding of partial trailing data.

use ogg_opus::accumulator::FrameAccumulator;

#[test]
fn frames_come_out_in_capture_order() {
    let mut acc = FrameAccumulator::new(4);
    acc.push(&[1, 2, 3]);
    assert!(acc.try_take_frame().is_none());
    acc.push(&[4, 5, 6, 7, 8]);
    assert_eq!(acc.try_take_frame().unwrap(), vec![1, 2, 3, 4]);
    assert_eq!(acc.try_take_frame().unwrap(), vec![5, 6, 7, 8]);
    assert!(acc.try_take_frame().is_none());
}

#[test]
fn exact_frame_boundary() {
    let mut acc = FrameAccumulator::new(3);
    acc.push(&[9, 8, 7]);
    assert_eq!(acc.try_take_frame().unwrap(), vec![9, 8, 7]);
    assert!(acc.try_take_frame().is_none());
}

#[test]
fn partial_trailing_data_is_never_padded() {
    let mut acc = FrameAccumulator::new(4);
    acc.push(&[-1, -2, -3]);
    // Three samples of four: no frame, and nothing invented.
    assert!(acc.try_take_frame().is_none());
    assert!(acc.try_take_frame().is_none());
}

#[test]
fn stereo_frame_size_for_twenty_ms_at_48khz() {
    let mut acc = FrameAccumulator::new(1920 * 2);
    let samples = vec![17i16; 1920 * 2 + 5];
    acc.push(&samples);
    let frame = acc.try_take_frame().unwrap();
    assert_eq!(frame.len(), 3840);
    assert!(acc.try_take_frame().is_none());
}
