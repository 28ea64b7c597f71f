use beacon::History;

#[test]
fn absent_name_counts_zero() {
    let h = History::new();
    assert_eq!(h.get("anything"), 0);
    assert!(!h.contains_name("anything"));
}

#[test]
fn from_pairs_keeps_first_of_a_repeated_name() {
    let h = History::from_pairs(vec![
        ("alpha".to_string(), 2),
        ("alpha".to_string(), 7),
        ("beta".to_string(), 1),
    ]);
    assert_eq!(h.get("alpha"), 2);
    assert_eq!(h.get("beta"), 1);
    assert_eq!(h.pairs().len(), 2);
}

#[test]
fn increment_adds_one_and_starts_new_names_at_one() {
    let mut h = History::new();
    h.increment("alpha");
    assert_eq!(h.get("alpha"), 1);
    h.increment("alpha");
    assert_eq!(h.get("alpha"), 2);
    h.increment("beta");
    assert_eq!(h.get("beta"), 1);
    assert_eq!(h.get("alpha"), 2);
}

#[test]
fn increment_saturates_at_the_maximum() {
    let mut h = History::from_pairs(vec![("alpha".to_string(), u32::MAX)]);
    h.increment("alpha");
    assert_eq!(h.get("alpha"), u32::MAX);
}
