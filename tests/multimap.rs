use conference::bidirectional_multimap::BidirectionalMultimap;

#[test]
fn latest_association_wins() {
    let mut m = BidirectionalMultimap::new();
    m.associate(1, 10);
    m.associate(1, 11);
    m.associate(2, 10);
    assert_eq!(m.get_key(10), Some(2));
    assert_eq!(m.get_key(11), Some(1));
    assert_eq!(m.get_values(1), vec![11]);
    assert_eq!(m.get_values(2), vec![10]);
}

#[test]
fn associate_same_pair_twice_keeps_one_entry() {
    let mut m = BidirectionalMultimap::new();
    m.associate(1, 10);
    m.associate(1, 10);
    assert_eq!(m.get_values(1), vec![10]);
}

#[test]
fn values_keep_association_order() {
    let mut m = BidirectionalMultimap::new();
    m.associate(5, 3);
    m.associate(5, 1);
    m.associate(5, 2);
    assert_eq!(m.get_values(5), vec![3, 1, 2]);
    assert_eq!(m.get_values(5), m.get_values(5));
}

#[test]
fn removed_key_has_no_values_and_its_values_no_key() {
    let mut m = BidirectionalMultimap::new();
    m.associate(1, 10);
    m.associate(1, 11);
    m.associate(2, 12);
    m.remove_key(1);
    assert!(m.get_values(1).is_empty());
    assert_eq!(m.get_key(10), None);
    assert_eq!(m.get_key(11), None);
    assert_eq!(m.get_key(12), Some(2));
}

#[test]
fn remove_value_clears_both_directions() {
    let mut m = BidirectionalMultimap::new();
    m.associate(1, 10);
    m.associate(1, 11);
    m.remove_value(10);
    assert_eq!(m.get_key(10), None);
    assert_eq!(m.get_values(1), vec![11]);
    m.remove_value(99);
    assert_eq!(m.get_values(1), vec![11]);
}

#[test]
fn empty_map_lookups() {
    let m = BidirectionalMultimap::new();
    assert!(m.get_values(7).is_empty());
    assert_eq!(m.get_key(7), None);
}
