use servocam::frame::Frame;

#[test]
fn frame_keeps_what_it_was_built_with() {
    let frame = Frame::new(7, 1_000, vec![0xFF, 0xD8, 0xFF, 0xD9]);
    assert_eq!(frame.sequence(), 7);
    assert_eq!(frame.captured_at_ms(), 1_000);
    assert_eq!(frame.payload(), &vec![0xFF, 0xD8, 0xFF, 0xD9]);
    assert_eq!(frame.into_payload(), vec![0xFF, 0xD8, 0xFF, 0xD9]);
}

#[test]
fn frame_may_be_empty_and_numbered_to_the_limit() {
    let frame = Frame::new(u64::MAX, u64::MAX, Vec::new());
    assert_eq!(frame.sequence(), u64::MAX);
    assert_eq!(frame.captured_at_ms(), u64::MAX);
    assert!(frame.payload().is_empty());
    let copy = frame.duplicate();
    assert_eq!(copy.sequence(), u64::MAX);
    assert!(copy.into_payload().is_empty());
}
