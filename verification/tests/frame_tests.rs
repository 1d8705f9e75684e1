use camera_streaming::frame::{
    config_message, config_size, config_size_prefix, frame_message, frame_size, frame_size_prefix,
};

#[test]
fn config_prefix_is_big_endian() {
    assert_eq!(config_size_prefix(300), [1, 44]);
    assert_eq!(config_size_prefix(0), [0, 0]);
    assert_eq!(config_size_prefix(65535), [255, 255]);
}

#[test]
fn config_prefix_wraps_at_two_bytes() {
    assert_eq!(config_size_prefix(65536), [0, 0]);
    assert_eq!(config_size_prefix(65536 + 300), [1, 44]);
    assert_eq!(config_size_prefix(300u16 as usize), 300u16.to_be_bytes());
}

#[test]
fn config_size_reads_prefix_back() {
    assert_eq!(config_size([1, 44]), 300);
    assert_eq!(config_size(config_size_prefix(12345)), 12345);
    assert_eq!(config_size(u16::MAX.to_be_bytes()), 65535);
}

#[test]
fn frame_prefix_is_big_endian() {
    assert_eq!(frame_size_prefix(0x01020304), [1, 2, 3, 4]);
    assert_eq!(frame_size_prefix(70000), 70000u32.to_be_bytes());
}

#[test]
fn frame_size_reads_prefix_back() {
    assert_eq!(frame_size([1, 2, 3, 4]), 0x01020304);
    assert_eq!(frame_size(frame_size_prefix(987654)), 987654);
    assert_eq!(frame_size([255, 255, 255, 255]), u32::MAX as usize);
}

#[test]
fn config_message_is_prefix_then_config() {
    let m = config_message(b"{\"label\":\"x\"}");
    assert_eq!(&m[..2], &[0, 13]);
    assert_eq!(&m[2..], b"{\"label\":\"x\"}");
}

#[test]
fn frame_message_is_prefix_then_frame() {
    let frame = vec![9u8; 258];
    let m = frame_message(&frame);
    assert_eq!(&m[..4], &[0, 0, 1, 2]);
    assert_eq!(&m[4..], frame.as_slice());
    assert_eq!(frame_size([m[0], m[1], m[2], m[3]]), 258);
}

#[test]
fn empty_frame_message() {
    assert_eq!(frame_message(&[]), vec![0, 0, 0, 0]);
}
