use beacon::History;
use beacon::combiner::{rebuild, to_match_results};
use beacon::desktop::Desktop;
use beacon::engine::{CaseMode, MatchEngine};
use beacon::session::{InputEvent, Session};

fn entry(name: &str) -> Desktop {
    Desktop::from_fields(
        name.to_string(),
        "Application",
        Some(format!("run-{}", name)),
        None,
    )
    .unwrap()
}

fn engine_with(names: &[&str]) -> MatchEngine {
    let mut engine = MatchEngine::new(Some(1));
    for name in names {
        engine.push(entry(name));
    }
    engine
}

/// Drive frames until the engine stops reporting changes for the query:
/// ten quiet frames in a row end the loop.
fn settle(session: &mut Session, query: &str) {
    let mut quiet = 0;
    for _ in 0..300 {
        let rebuilt = session.frame(query, 50);
        if rebuilt {
            quiet = 0;
        } else {
            quiet += 1;
            if quiet >= 10 {
                return;
            }
        }
    }
    panic!("the engine never settled for query {:?}", query);
}

fn ranked_names(session: &Session) -> Vec<String> {
    session.ranked.iter().map(|it| it.entry.name.clone()).collect()
}

#[test]
fn empty_query_lists_the_corpus_by_frequency() {
    let engine = engine_with(&["A", "B", "C"]);
    let history = History::from_pairs(vec![("A".to_string(), 2), ("B".to_string(), 5)]);
    let mut session = Session::new(engine, history, 10, CaseMode::Smart);
    settle(&mut session, "");
    assert_eq!(ranked_names(&session), vec!["B", "A", "C"]);
}

#[test]
fn matching_query_lists_exactly_the_matches() {
    let engine = engine_with(&["Firefox", "Fireworks Editor", "Chromium"]);
    let mut session = Session::new(engine, History::new(), 10, CaseMode::Smart);
    settle(&mut session, "fire");
    let names = ranked_names(&session);
    assert_eq!(names.len(), 2);
    assert!(names.contains(&"Firefox".to_string()));
    assert!(names.contains(&"Fireworks Editor".to_string()));
}

#[test]
fn settled_frames_leave_the_list_alone() {
    let engine = engine_with(&["A", "B", "C"]);
    let mut session = Session::new(engine, History::new(), 10, CaseMode::Smart);
    settle(&mut session, "");
    let before = ranked_names(&session);
    for _ in 0..5 {
        session.frame("", 50);
    }
    assert_eq!(ranked_names(&session), before);
}

#[test]
fn commit_increments_and_a_later_rebuild_reflects_it() {
    let engine = engine_with(&["A", "B"]);
    let history = History::from_pairs(vec![("A".to_string(), 2), ("B".to_string(), 3)]);
    let mut session = Session::new(engine, history, 10, CaseMode::Smart);
    settle(&mut session, "");
    assert_eq!(ranked_names(&session), vec!["B", "A"]);
    session.dispatch(InputEvent::MoveDown);
    let request = session.dispatch(InputEvent::Commit).expect("a commit request");
    assert_eq!(request.name, "A");
    assert_eq!(request.launch_target.as_deref(), Some("run-A"));
    assert!(session.close);
    assert_eq!(session.history.get("A"), 3);
    assert_eq!(session.history.get("B"), 3);
    // An empty-query rebuild against the updated history: the counts now
    // tie, so corpus order decides and the committed entry comes first.
    let matched = to_match_results(vec![entry("A"), entry("B")]);
    let ranked = rebuild(matched, &session.history, true, 10);
    let names: Vec<String> = ranked.iter().map(|it| it.entry.name.clone()).collect();
    assert_eq!(names, vec!["A", "B"]);
}

#[test]
fn commit_on_an_empty_list_changes_nothing_and_stays_open() {
    let engine = engine_with(&["A"]);
    let mut session = Session::new(engine, History::new(), 10, CaseMode::Smart);
    let request = session.dispatch(InputEvent::Commit);
    assert!(request.is_none());
    assert!(!session.close);
    assert_eq!(session.history.get("A"), 0);
}

#[test]
fn cancel_closes_without_touching_history() {
    let engine = engine_with(&["A"]);
    let history = History::from_pairs(vec![("A".to_string(), 1)]);
    let mut session = Session::new(engine, history, 10, CaseMode::Smart);
    settle(&mut session, "");
    let request = session.dispatch(InputEvent::Cancel);
    assert!(request.is_none());
    assert!(session.close);
    assert_eq!(session.history.get("A"), 1);
}

#[test]
fn a_closing_session_ignores_further_frames() {
    let engine = engine_with(&["A"]);
    let mut session = Session::new(engine, History::new(), 10, CaseMode::Smart);
    settle(&mut session, "");
    session.dispatch(InputEvent::Commit);
    assert!(session.close);
    let before = ranked_names(&session);
    let rebuilt = session.frame("other", 50);
    assert!(!rebuilt);
    assert_eq!(ranked_names(&session), before);
    assert_eq!(session.last_query, "");
}

#[test]
fn navigation_wraps_through_the_visible_list() {
    let engine = engine_with(&["A", "B", "C"]);
    let mut session = Session::new(engine, History::new(), 10, CaseMode::Smart);
    settle(&mut session, "");
    assert_eq!(session.selection.index, 0);
    session.dispatch(InputEvent::MoveUp);
    assert_eq!(session.selection.index, 2);
    session.dispatch(InputEvent::MoveDown);
    assert_eq!(session.selection.index, 0);
}

#[test]
fn a_changed_query_resets_the_cursor() {
    let engine = engine_with(&["Firefox", "Fireworks Editor"]);
    let mut session = Session::new(engine, History::new(), 10, CaseMode::Smart);
    settle(&mut session, "fire");
    session.dispatch(InputEvent::MoveDown);
    assert_eq!(session.selection.index, 1);
    settle(&mut session, "firef");
    assert_eq!(session.selection.index, 0);
}

#[test]
fn the_list_respects_max_items() {
    let engine = engine_with(&["A", "B", "C", "D"]);
    let mut session = Session::new(engine, History::new(), 2, CaseMode::Smart);
    settle(&mut session, "");
    assert_eq!(session.ranked.len(), 2);
}
