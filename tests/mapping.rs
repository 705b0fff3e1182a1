use zed_shared::mapping::Mapping;

#[test]
fn mapping_looks_up_both_directions() {
    let mut m = Mapping::new();
    assert_eq!(m.by_left(&7), None);
    assert_eq!(m.by_right(&0), None);
    m.insert(7, 0);
    m.insert(9, 1);
    assert_eq!(m.by_left(&7), Some(&0));
    assert_eq!(m.by_left(&9), Some(&1));
    assert_eq!(m.by_right(&0), Some(&7));
    assert_eq!(m.by_right(&1), Some(&9));
    assert_eq!(m.by_left(&8), None);
}

#[test]
fn mapping_insert_replaces_earlier_pairing() {
    let mut m = Mapping::new();
    m.insert(3, 4);
    m.insert(3, 5);
    assert_eq!(m.by_left(&3), Some(&5));
    assert_eq!(m.by_right(&5), Some(&3));
    assert_eq!(m.by_right(&4), Some(&3));
}
