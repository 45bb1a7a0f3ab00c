use can_expect::frame::SimpleCanFrame;
use can_expect::observed::ObservedSet;

#[test]
fn a_new_set_is_empty() {
    let set = ObservedSet::new();
    assert_eq!(set.len(), 0);
    assert!(!set.contains(&SimpleCanFrame::new(None, 1, 0, vec![])));
}

#[test]
fn inserting_one_identity_again_leaves_the_size() {
    let mut set = ObservedSet::new();
    assert!(set.insert(SimpleCanFrame::new(None, 0x100, 2, vec![1, 2])));
    assert_eq!(set.len(), 1);
    assert!(!set.insert(SimpleCanFrame::new(None, 0x100, 2, vec![1, 2])));
    assert_eq!(set.len(), 1);
    assert!(!set.insert(SimpleCanFrame::new(Some(String::from("Label")), 0x100, 2, vec![1, 2])));
    assert_eq!(set.len(), 1);
    assert!(!set.insert(SimpleCanFrame::new(Some(String::from("Other")), 0x100, 2, vec![1, 2])));
    assert_eq!(set.len(), 1);
}

#[test]
fn inserting_other_identities_grows_the_set() {
    let mut set = ObservedSet::new();
    assert!(set.insert(SimpleCanFrame::new(None, 0x100, 2, vec![1, 2])));
    assert!(set.insert(SimpleCanFrame::new(None, 0x101, 2, vec![1, 2])));
    assert!(set.insert(SimpleCanFrame::new(None, 0x100, 1, vec![1, 2])));
    assert!(set.insert(SimpleCanFrame::new(None, 0x100, 2, vec![1, 2, 3])));
    assert!(set.insert(SimpleCanFrame::new(None, 0x100, 2, vec![2, 1])));
    assert_eq!(set.len(), 5);
    assert!(!set.insert(SimpleCanFrame::new(None, 0x100, 1, vec![1, 2])));
    assert_eq!(set.len(), 5);
}

#[test]
fn membership_goes_by_identity_not_by_name() {
    let mut set = ObservedSet::new();
    set.insert(SimpleCanFrame::new(None, 0x200, 1, vec![0xFF]));
    assert!(set.contains(&SimpleCanFrame::new(Some(String::from("Brake")), 0x200, 1, vec![0xFF])));
    assert!(set.contains(&SimpleCanFrame::new(None, 0x200, 1, vec![0xFF])));
    assert!(!set.contains(&SimpleCanFrame::new(None, 0x200, 1, vec![0xFE])));
    assert!(!set.contains(&SimpleCanFrame::new(None, 0x201, 1, vec![0xFF])));
    assert!(!set.contains(&SimpleCanFrame::new(None, 0x200, 2, vec![0xFF])));
}
