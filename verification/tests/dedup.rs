use espcap::dedup::MacLru;

#[test]
fn evicts_oldest_and_updates_existing() {
    let mut t = MacLru::new(2);
    *t.get_or_insert_with([1, 0, 0, 0, 0, 0], || 1) += 1;
    *t.get_or_insert_with([2, 0, 0, 0, 0, 0], || 1) += 1;
    assert_eq!(t.len(), 2);
    *t.get_or_insert_with([3, 0, 0, 0, 0, 0], || 1) += 1;
    assert_eq!(t.len(), 2);
    assert!(!t.contains(&[1, 0, 0, 0, 0, 0]));
    assert!(t.contains(&[2, 0, 0, 0, 0, 0]));
    assert!(t.contains(&[3, 0, 0, 0, 0, 0]));
    assert_eq!(*t.get_or_insert_with([2, 0, 0, 0, 0, 0], || 0), 2);
    let empty = MacLru::<u8>::new(0);
    assert_eq!(empty.len(), 0);
    assert!(empty.is_empty());
}

#[test]
fn zero_capacity_still_holds_one_key() {
    let mut t = MacLru::new(0);
    *t.get_or_insert_with([9, 0, 0, 0, 0, 0], || 5) += 1;
    assert_eq!(t.len(), 1);
    *t.get_or_insert_with([8, 0, 0, 0, 0, 0], || 5) += 1;
    assert_eq!(t.len(), 1);
    assert!(t.contains(&[8, 0, 0, 0, 0, 0]));
    assert!(!t.contains(&[9, 0, 0, 0, 0, 0]));
}
