use camera_streaming::{copy, Label};

fn expected(prefix: &[u8], fill: u8) -> [u8; 100] {
    let mut arr = [fill; 100];
    for (i, b) in prefix.iter().enumerate() {
        arr[i] = *b;
    }
    arr
}

#[test]
fn label_from_short_str_pads_with_zeros() {
    let l: Label = "cam1".into();
    assert_eq!(*l.bytes(), expected(b"cam1", 0));
}

#[test]
fn label_from_string_matches_str() {
    let a: Label = String::from("127.0.0.1").into();
    let b: Label = "127.0.0.1".into();
    assert_eq!(a, b);
}

#[test]
fn label_from_long_str_is_all_ones() {
    let text = "x".repeat(101);
    let l: Label = text.as_str().into();
    assert_eq!(*l.bytes(), [1u8; 100]);
}

#[test]
fn label_from_long_bytes_is_all_twos() {
    let bytes = vec![7u8; 101];
    let l: Label = bytes.as_slice().into();
    assert_eq!(*l.bytes(), [2u8; 100]);
}

#[test]
fn label_of_exactly_hundred_bytes_keeps_them() {
    let bytes = vec![9u8; 100];
    let l: Label = bytes.as_slice().into();
    assert_eq!(*l.bytes(), [9u8; 100]);
    let s: Label = "y".repeat(100).as_str().into();
    assert_eq!(*s.bytes(), [b'y'; 100]);
}

#[test]
fn text_and_byte_labels_agree_when_short() {
    let a: Label = "camera-7".into();
    let b: Label = "camera-7".as_bytes().into();
    assert_eq!(a, b);
    let long = "z".repeat(150);
    let c: Label = long.as_str().into();
    let d: Label = long.as_bytes().into();
    assert_ne!(c, d);
}

#[test]
fn labels_of_different_texts_differ() {
    let a: Label = "cam-a".into();
    let b: Label = "cam-b".into();
    let c: Label = "cam-".into();
    assert_ne!(a, b);
    assert_ne!(a, c);
}

#[test]
fn utf8_label_uses_utf8_bytes() {
    let l: Label = "é".into();
    assert_eq!(*l.bytes(), expected(&[0xc3, 0xa9], 0));
}

#[test]
fn copy_writes_prefix_and_keeps_rest() {
    let mut arr = [5u8; 100];
    copy(&mut arr, &[1, 2, 3]);
    let mut want = [5u8; 100];
    want[0] = 1;
    want[1] = 2;
    want[2] = 3;
    assert_eq!(arr, want);
}

#[test]
fn copy_of_too_many_bytes_fills_ones() {
    let mut arr = [5u8; 100];
    copy(&mut arr, &[8u8; 200]);
    assert_eq!(arr, [1u8; 100]);
}

#[test]
fn copy_of_empty_changes_nothing() {
    let mut arr = [5u8; 100];
    copy(&mut arr, &[]);
    assert_eq!(arr, [5u8; 100]);
}
