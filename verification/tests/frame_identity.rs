use can_expect::frame::SimpleCanFrame;
use socketcan::CanFrame;
use socketcan::EmbeddedFrame;
use socketcan::ExtendedId;
use socketcan::StandardId;
use std::collections::hash_map::DefaultHasher;
use std::collections::HashSet;
use std::hash::Hash;
use std::hash::Hasher;

fn hashed(frame: &SimpleCanFrame) -> u64 {
    let mut hasher = DefaultHasher::new();
    frame.hash(&mut hasher);
    hasher.finish()
}

#[test]
fn test_frame_hashes_equal_even_with_different_names() {
    let first_frame = SimpleCanFrame::new(
        Some(String::from("Frame One")),
        0x1337,
        0x8,
        vec![0x18, 0x1C, 0xFF],
    );
    let second_frame = SimpleCanFrame::new(
        Some(String::from("Frame Two")),
        0x1337,
        0x8,
        vec![0x18, 0x1C, 0xFF],
    );
    let frame_no_name = SimpleCanFrame::new(None, 0x1337, 0x8, vec![0x18, 0x1C, 0xFF]);

    let mut hasher = DefaultHasher::new();
    assert_eq!(
        first_frame.hash(&mut hasher),
        second_frame.hash(&mut hasher)
    );
    assert_eq!(
        first_frame.hash(&mut hasher),
        frame_no_name.hash(&mut hasher)
    );
}

#[test]
fn frames_with_one_identity_hash_to_one_value() {
    let first = SimpleCanFrame::new(Some(String::from("Frame One")), 0x1337, 8, vec![0x18, 0x1C, 0xFF]);
    let second = SimpleCanFrame::new(Some(String::from("Frame Two")), 0x1337, 8, vec![0x18, 0x1C, 0xFF]);
    let unnamed = SimpleCanFrame::new(None, 0x1337, 8, vec![0x18, 0x1C, 0xFF]);
    assert_eq!(hashed(&first), hashed(&second));
    assert_eq!(hashed(&first), hashed(&unnamed));
    assert_eq!(first.identity_digest(), second.identity_digest());
    assert_eq!(first.identity_digest(), unnamed.identity_digest());
}

#[test]
fn digest_is_that_of_the_default_hasher_over_the_identity() {
    let frame = SimpleCanFrame::new(Some(String::from("x")), 0x0102_0304, 2, vec![9, 8]);
    let mut hasher = DefaultHasher::new();
    hasher.write(&[0x04, 0x03, 0x02, 0x01]);
    hasher.write(&[2, 0, 0, 0, 0, 0, 0, 0]);
    hasher.write(&[9, 8]);
    assert_eq!(frame.identity_digest(), hasher.finish());
}

#[test]
fn frames_with_one_identity_are_equal_whatever_the_name() {
    let first = SimpleCanFrame::new(Some(String::from("Frame One")), 0x1337, 8, vec![0x18, 0x1C, 0xFF]);
    let second = SimpleCanFrame::new(Some(String::from("Frame Two")), 0x1337, 8, vec![0x18, 0x1C, 0xFF]);
    let unnamed = SimpleCanFrame::new(None, 0x1337, 8, vec![0x18, 0x1C, 0xFF]);
    assert!(first == second);
    assert!(first == unnamed);
    assert!(unnamed == second);
    assert_eq!(first, second);
}

#[test]
fn frames_differing_in_identity_are_unequal() {
    let base = SimpleCanFrame::new(None, 0x100, 2, vec![1, 2]);
    assert!(base != SimpleCanFrame::new(None, 0x101, 2, vec![1, 2]));
    assert!(base != SimpleCanFrame::new(None, 0x100, 3, vec![1, 2]));
    assert!(base != SimpleCanFrame::new(None, 0x100, 2, vec![1, 3]));
    assert!(base != SimpleCanFrame::new(None, 0x100, 2, vec![0, 2]));
    assert!(base != SimpleCanFrame::new(None, 0x100, 2, vec![1]));
    assert!(base != SimpleCanFrame::new(None, 0x100, 2, vec![1, 2, 0]));
    assert!(base != SimpleCanFrame::new(None, 0x100, 2, vec![]));
    assert!(base != SimpleCanFrame::new(None, 0x100, 2, vec![2, 1]));
    assert!(base == SimpleCanFrame::new(None, 0x100, 2, vec![1, 2]));
}

#[test]
fn frames_differing_in_identity_hash_apart_on_these_values() {
    let base = SimpleCanFrame::new(None, 0x100, 2, vec![1, 2]);
    assert_ne!(hashed(&base), hashed(&SimpleCanFrame::new(None, 0x101, 2, vec![1, 2])));
    assert_ne!(hashed(&base), hashed(&SimpleCanFrame::new(None, 0x100, 3, vec![1, 2])));
    assert_ne!(hashed(&base), hashed(&SimpleCanFrame::new(None, 0x100, 2, vec![1, 3])));
}

#[test]
fn frames_work_as_keys_of_a_std_hash_set() {
    let mut set = HashSet::new();
    assert!(set.insert(SimpleCanFrame::new(Some(String::from("a")), 1, 1, vec![7])));
    assert!(!set.insert(SimpleCanFrame::new(Some(String::from("b")), 1, 1, vec![7])));
    assert!(set.insert(SimpleCanFrame::new(None, 2, 1, vec![7])));
    assert_eq!(set.len(), 2);
    assert!(set.contains(&SimpleCanFrame::new(None, 1, 1, vec![7])));
}

#[test]
fn new_keeps_the_fields_as_given() {
    let frame = SimpleCanFrame::new(Some(String::from("Engine")), 0x1337, 8, vec![0x18, 0x1C, 0xFF]);
    assert_eq!(frame.name(), &Some(String::from("Engine")));
    assert_eq!(frame.id(), 0x1337);
    assert_eq!(frame.dlc(), 8);
    assert_eq!(frame.data(), &vec![0x18, 0x1C, 0xFF]);
    let bare = SimpleCanFrame::new(None, 0, 0, vec![]);
    assert_eq!(bare.name(), &None);
    assert_eq!(bare.id(), 0);
    assert_eq!(bare.dlc(), 0);
    assert!(bare.data().is_empty());
}

#[test]
fn new_accepts_a_length_code_that_differs_from_the_payload() {
    let frame = SimpleCanFrame::new(None, 5, 8, vec![1, 2, 3]);
    assert_eq!(frame.dlc(), 8);
    assert_eq!(frame.data().len(), 3);
}

#[test]
fn from_can_frame_reads_a_standard_data_frame() {
    let raw = CanFrame::new(StandardId::new(0x100).unwrap(), &[0x01, 0x02]).unwrap();
    let frame = SimpleCanFrame::from_can_frame(raw);
    assert_eq!(frame.name(), &None);
    assert_eq!(frame.id(), 0x100);
    assert_eq!(frame.dlc(), 2);
    assert_eq!(frame.data(), &vec![0x01, 0x02]);
    assert!(frame == SimpleCanFrame::new(Some(String::from("Named")), 0x100, 2, vec![0x01, 0x02]));
}

#[test]
fn from_can_frame_reads_an_extended_data_frame() {
    let raw = CanFrame::new(ExtendedId::new(0x1ABC_DEF0).unwrap(), &[1, 2, 3, 4, 5, 6, 7, 8]).unwrap();
    let frame = SimpleCanFrame::from_can_frame(raw);
    assert_eq!(frame.id(), 0x1ABC_DEF0);
    assert_eq!(frame.dlc(), 8);
    assert_eq!(frame.data(), &vec![1, 2, 3, 4, 5, 6, 7, 8]);
}

#[test]
fn from_can_frame_reads_an_empty_data_frame() {
    let raw = CanFrame::new(StandardId::new(0x7FF).unwrap(), &[]).unwrap();
    let frame = SimpleCanFrame::from_can_frame(raw);
    assert_eq!(frame.id(), 0x7FF);
    assert_eq!(frame.dlc(), 0);
    assert!(frame.data().is_empty());
}

#[test]
fn from_can_frame_reads_a_remote_frame_without_payload() {
    let raw = CanFrame::new_remote(StandardId::new(0x42).unwrap(), 3).unwrap();
    let frame = SimpleCanFrame::from_can_frame(raw);
    assert_eq!(frame.name(), &None);
    assert_eq!(frame.id(), 0x42);
    assert_eq!(frame.dlc(), 3);
    assert!(frame.data().is_empty());
}
