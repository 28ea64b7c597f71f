use beacon::application::Application;
use beacon::searcher::Searcher;

fn app(name: &str) -> Application {
    Application::from_fields(name.to_string(), "Application", None).unwrap()
}

#[test]
fn search_returns_exactly_the_substring_matches() {
    let mut searcher = Searcher::new(vec![
        app("Firefox"),
        app("Fireworks Editor"),
        app("Chromium"),
    ]);
    let results = searcher.search("fire");
    let names: Vec<&str> = results.iter().map(|a| a.name.as_str()).collect();
    assert_eq!(names.len(), 2);
    assert!(names.contains(&"Firefox"));
    assert!(names.contains(&"Fireworks Editor"));
}

#[test]
fn empty_needle_matches_everything_in_corpus_order() {
    let mut searcher = Searcher::new(vec![app("B"), app("A"), app("C")]);
    let results = searcher.search("");
    let names: Vec<&str> = results.iter().map(|a| a.name.as_str()).collect();
    assert_eq!(names, vec!["B", "A", "C"]);
}

#[test]
fn unmatched_needle_finds_nothing() {
    let mut searcher = Searcher::new(vec![app("Firefox"), app("Chromium")]);
    assert!(searcher.search("zzz").is_empty());
}

#[test]
fn indices_agree_with_the_returned_entries() {
    let mut searcher = Searcher::new(vec![app("Alpha"), app("Beta"), app("Gamma")]);
    let indices = searcher.search_indices("a");
    let results = searcher.search("a");
    assert_eq!(indices.len(), results.len());
    let corpus = ["Alpha", "Beta", "Gamma"];
    for (pos, app_out) in indices.iter().zip(results.iter()) {
        assert_eq!(corpus[*pos], app_out.name);
    }
}

#[test]
fn searching_twice_gives_the_same_answer() {
    let mut searcher = Searcher::new(vec![app("Firefox"), app("Fireworks Editor")]);
    let first: Vec<String> = searcher.search("fire").iter().map(|a| a.name.clone()).collect();
    let second: Vec<String> = searcher.search("fire").iter().map(|a| a.name.clone()).collect();
    assert_eq!(first, second);
}
