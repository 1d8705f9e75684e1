use camera_streaming::error::CaptureError;
use camera_streaming::parse::video_parse::frame_wanted;
use camera_streaming::{DeviceEnum, DeviceFlag, DeviceReceiver, Label, LabelFlagMap, LabelReceiverMap};

#[test]
fn new_label_takes_given_flags() {
    let mut m = LabelFlagMap::default();
    let l: Label = "cam".into();
    assert!(!m.is_labeled(&l));
    assert!(m.insert(l, DeviceFlag::new(false, true)).is_ok());
    assert!(m.is_labeled(&l));
    assert_eq!(m.get_flag(&l).unwrap(), (false, true));
}

#[test]
fn insert_on_known_label_raises_flags() {
    let mut m = LabelFlagMap::default();
    let l: Label = "cam".into();
    m.insert(l, DeviceFlag::new(true, false)).unwrap();
    m.insert(l, DeviceFlag::new(false, false)).unwrap();
    assert_eq!(m.get_flag(&l).unwrap(), (true, false));
    m.insert(l, DeviceFlag::new(false, true)).unwrap();
    assert_eq!(m.get_flag(&l).unwrap(), (true, true));
}

#[test]
fn insert_is_idempotent() {
    let mut m = LabelFlagMap::default();
    let l: Label = "cam".into();
    m.insert(l, DeviceFlag::new(true, false)).unwrap();
    m.insert(l, DeviceFlag::new(true, false)).unwrap();
    assert_eq!(m.get_flag(&l).unwrap(), (true, false));
}

#[test]
fn get_flag_of_unknown_label_fails() {
    let m = LabelFlagMap::default();
    let l: Label = "nobody".into();
    assert!(matches!(m.get_flag(&l), Err(CaptureError::EmptyLabelName)));
}

#[test]
fn set_flag_reads_back_and_keeps_other_device() {
    let mut m = LabelFlagMap::default();
    let l: Label = "cam".into();
    m.insert(l, DeviceFlag::default()).unwrap();
    m.set_flag(&l, true, DeviceEnum::Video).unwrap();
    assert_eq!(m.get_flag(&l).unwrap(), (true, false));
    m.set_flag(&l, true, DeviceEnum::Audio).unwrap();
    assert_eq!(m.get_flag(&l).unwrap(), (true, true));
    m.set_flag(&l, false, DeviceEnum::Video).unwrap();
    assert_eq!(m.get_flag(&l).unwrap(), (false, true));
}

#[test]
fn set_flag_of_unknown_label_fails_and_registers_nothing() {
    let mut m = LabelFlagMap::default();
    let l: Label = "ghost".into();
    assert!(matches!(m.set_flag(&l, true, DeviceEnum::Audio), Err(CaptureError::EmptyLabelName)));
    assert!(!m.is_labeled(&l));
}

#[test]
fn labels_are_kept_apart() {
    let mut m = LabelFlagMap::default();
    let a: Label = "a".into();
    let b: Label = "b".into();
    m.insert(a, DeviceFlag::new(true, false)).unwrap();
    m.insert(b, DeviceFlag::new(false, true)).unwrap();
    m.set_flag(&a, false, DeviceEnum::Video).unwrap();
    assert_eq!(m.get_flag(&a).unwrap(), (false, false));
    assert_eq!(m.get_flag(&b).unwrap(), (false, true));
}

#[test]
fn device_receiver_new_holds_given_receivers() {
    let (_s, r) = async_channel::unbounded::<Vec<u8>>();
    let d = DeviceReceiver::new(Some(r), None);
    assert!(d.video_receiver.is_some());
    assert!(d.audio_receiver.is_none());
}

#[test]
fn receiver_insert_then_remove() {
    let mut m = LabelReceiverMap::default();
    let l: Label = "cam".into();
    let (_s, r) = async_channel::unbounded::<Vec<u8>>();
    assert!(m.insert(l, r, DeviceEnum::Video).is_ok());
    assert!(m.remove(l).is_ok());
    assert!(matches!(m.remove(l), Err(CaptureError::EmptyLabelName)));
}

#[test]
fn remove_of_unknown_label_fails() {
    let mut m = LabelReceiverMap::default();
    let l: Label = "none".into();
    assert!(matches!(m.remove(l), Err(CaptureError::EmptyLabelName)));
}

#[test]
fn video_then_audio_receivers_both_deliver() {
    let mut m = LabelReceiverMap::default();
    let l: Label = "cam".into();
    let (vs, vr) = async_channel::unbounded::<Vec<u8>>();
    let (as_, ar) = async_channel::unbounded::<Vec<u8>>();
    m.insert(l, vr, DeviceEnum::Video).unwrap();
    m.insert(l, ar, DeviceEnum::Audio).unwrap();
    vs.try_send(vec![1]).unwrap();
    as_.try_send(vec![2]).unwrap();
    assert!(m.remove(l).is_ok());
    // The map held both receivers until the removal; once dropped, the
    // channels report that no receiver is left.
    assert!(vs.try_send(vec![3]).is_err());
    assert!(as_.try_send(vec![4]).is_err());
}

#[test]
fn second_video_receiver_replaces_first() {
    let mut m = LabelReceiverMap::default();
    let l: Label = "cam".into();
    let (s1, r1) = async_channel::unbounded::<Vec<u8>>();
    let (s2, r2) = async_channel::unbounded::<Vec<u8>>();
    m.insert(l, r1, DeviceEnum::Video).unwrap();
    m.insert(l, r2, DeviceEnum::Video).unwrap();
    assert!(s1.try_send(vec![1]).is_err());
    assert!(s2.try_send(vec![1]).is_ok());
}

#[test]
fn frames_go_on_while_video_is_watched() {
    let mut m = LabelFlagMap::default();
    let l: Label = "cam".into();
    assert!(matches!(frame_wanted(&m, &l), Err(CaptureError::EmptyLabelName)));
    m.insert(l, DeviceFlag::new(false, true)).unwrap();
    assert_eq!(frame_wanted(&m, &l).unwrap(), false);
    m.set_flag(&l, true, DeviceEnum::Video).unwrap();
    assert_eq!(frame_wanted(&m, &l).unwrap(), true);
}

#[test]
fn registered_label_stays_registered() {
    let mut m = LabelFlagMap::default();
    let l: Label = "cam".into();
    let other: Label = "other".into();
    m.insert(l, DeviceFlag::new(false, false)).unwrap();
    m.set_flag(&l, true, DeviceEnum::Video).unwrap();
    m.set_flag(&l, false, DeviceEnum::Video).unwrap();
    m.insert(l, DeviceFlag::new(false, false)).unwrap();
    let _ = m.set_flag(&other, true, DeviceEnum::Audio);
    m.insert(other, DeviceFlag::default()).unwrap();
    let _ = m.get_flag(&l);
    assert!(m.is_labeled(&l));
    assert!(m.is_labeled(&l));
    assert!(m.get_flag(&l).is_ok());
}
