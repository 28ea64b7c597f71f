use beacon::History;
use beacon::combiner::{rebuild, to_match_results};
use beacon::desktop::Desktop;

fn entry(name: &str) -> Desktop {
    Desktop::from_fields(name.to_string(), "Application", None, None).unwrap()
}

fn names(items: &[beacon::combiner::RankedItem]) -> Vec<String> {
    items.iter().map(|it| it.entry.name.clone()).collect()
}

fn keys(items: &[beacon::combiner::RankedItem]) -> Vec<i64> {
    items.iter().map(|it| it.composite_key).collect()
}

#[test]
fn empty_pattern_ranks_by_frequency_then_corpus_order() {
    let history = History::from_pairs(vec![("A".to_string(), 2), ("B".to_string(), 5)]);
    let matched = to_match_results(vec![entry("A"), entry("B"), entry("C")]);
    let ranked = rebuild(matched, &history, true, 10);
    assert_eq!(names(&ranked), vec!["B", "A", "C"]);
    assert_eq!(keys(&ranked), vec![5, 2, 0]);
}

#[test]
fn fresh_matches_rank_by_fuzzy_order() {
    let history = History::new();
    let matched = to_match_results(vec![entry("Firefox"), entry("Fireworks Editor")]);
    let ranked = rebuild(matched, &history, false, 10);
    assert_eq!(keys(&ranked), vec![2, 1]);
    assert_eq!(names(&ranked), vec!["Firefox", "Fireworks Editor"]);
}

#[test]
fn one_prior_launch_outranks_a_better_fresh_match() {
    let history = History::from_pairs(vec![("Fireworks Editor".to_string(), 1)]);
    let matched = to_match_results(vec![entry("Firefox"), entry("Fireworks Editor")]);
    let ranked = rebuild(matched, &history, false, 10);
    assert_eq!(names(&ranked), vec!["Fireworks Editor", "Firefox"]);
    assert_eq!(keys(&ranked), vec![6, 2]);
}

#[test]
fn equal_composite_keys_keep_fuzzy_order() {
    // Six matches: the best fresh match scores (6 - 0) = 6, and the worst,
    // with one prior launch, scores (6 - 5) + 5 = 6 as well; the better
    // fuzzy match must stay in front.
    let history = History::from_pairs(vec![("f".to_string(), 1)]);
    let matched = to_match_results(vec![
        entry("a"),
        entry("b"),
        entry("c"),
        entry("d"),
        entry("e"),
        entry("f"),
    ]);
    let ranked = rebuild(matched, &history, false, 10);
    assert_eq!(names(&ranked), vec!["a", "f", "b", "c", "d", "e"]);
    assert_eq!(keys(&ranked), vec![6, 6, 5, 4, 3, 2]);
}

#[test]
fn empty_pattern_ties_keep_corpus_order() {
    let history = History::new();
    let matched = to_match_results(vec![entry("x"), entry("y"), entry("z")]);
    let ranked = rebuild(matched, &history, true, 10);
    assert_eq!(names(&ranked), vec!["x", "y", "z"]);
}

#[test]
fn list_is_truncated_after_sorting() {
    let history = History::from_pairs(vec![("C".to_string(), 9)]);
    let matched = to_match_results(vec![entry("A"), entry("B"), entry("C")]);
    let ranked = rebuild(matched, &history, true, 2);
    assert_eq!(names(&ranked), vec!["C", "A"]);
}

#[test]
fn zero_cap_yields_an_empty_list() {
    let history = History::new();
    let matched = to_match_results(vec![entry("A")]);
    let ranked = rebuild(matched, &history, true, 0);
    assert!(ranked.is_empty());
}

#[test]
fn rebuild_is_deterministic() {
    let history = History::from_pairs(vec![("A".to_string(), 3)]);
    let first = rebuild(
        to_match_results(vec![entry("A"), entry("B")]),
        &history,
        false,
        10,
    );
    let second = rebuild(
        to_match_results(vec![entry("A"), entry("B")]),
        &history,
        false,
        10,
    );
    assert_eq!(names(&first), names(&second));
    assert_eq!(keys(&first), keys(&second));
}
