//! Tests of the search module.
use terminal::search::{SearchState};

#[test]
fn test_search_state_new() {
    let state = SearchState::new();
    assert!(!state.active);
    assert!(state.query.is_empty());
    assert!(state.matches.is_empty());
}

#[test]
fn test_activate_deactivate() {
    let mut state = SearchState::new();
    state.activate();
    assert!(state.active);

    state.deactivate();
    assert!(!state.active);
    assert!(state.query.is_empty());
}

#[test]
fn test_simple_search() {
    let mut state = SearchState::new();
    state.activate();
    state.update_query("hello");

    let lines = vec![
        "hello world".to_string(),
        "foo bar".to_string(),
        "hello there".to_string(),
    ];

    state.search(&lines);
    assert_eq!(state.matches.len(), 2);
    assert_eq!(state.matches[0].row, 0);
    assert_eq!(state.matches[0].start_col, 0);
    assert_eq!(state.matches[0].end_col, 5);
    assert_eq!(state.matches[1].row, 2);
}

#[test]
fn test_case_insensitive_search() {
    let mut state = SearchState::new();
    state.activate();
    state.update_query("hello");

    let lines = vec!["HELLO world".to_string(), "Hello there".to_string()];

    state.search(&lines);
    assert_eq!(state.matches.len(), 2);
}

#[test]
fn test_case_sensitive_search() {
    let mut state = SearchState::new();
    state.activate();
    state.case_sensitive = true;
    state.update_query("hello");

    let lines = vec![
        "HELLO world".to_string(),
        "Hello there".to_string(),
        "hello world".to_string(),
    ];

    state.search(&lines);
    assert_eq!(state.matches.len(), 1);
    assert_eq!(state.matches[0].row, 2);
}

#[test]
fn test_regex_search() {
    let mut state = SearchState::new();
    state.activate();
    state.regex_mode = true;
    state.update_query(r"\d+");

    let lines = vec![
        "foo 123 bar".to_string(),
        "no numbers".to_string(),
        "456 test".to_string(),
    ];

    state.search(&lines);
    assert_eq!(state.matches.len(), 2);
    assert_eq!(state.matches[0].start_col, 4);
    assert_eq!(state.matches[0].end_col, 7);
}

#[test]
fn test_navigation() {
    let mut state = SearchState::new();
    state.activate();
    state.update_query("test");

    let lines = vec![
        "test one".to_string(),
        "test two".to_string(),
        "test three".to_string(),
    ];

    state.search(&lines);
    assert_eq!(state.matches.len(), 3);

    // Start at 0
    assert_eq!(state.current_match, 0);

    // Next goes to 1
    state.next();
    assert_eq!(state.current_match, 1);

    // Next goes to 2
    state.next();
    assert_eq!(state.current_match, 2);

    // Next wraps to 0
    state.next();
    assert_eq!(state.current_match, 0);

    // Prev wraps to 2
    state.prev();
    assert_eq!(state.current_match, 2);

    // Prev goes to 1
    state.prev();
    assert_eq!(state.current_match, 1);
}

#[test]
fn test_empty_search() {
    let mut state = SearchState::new();
    state.activate();
    state.update_query("");

    let lines = vec!["hello world".to_string()];
    state.search(&lines);
    assert!(state.matches.is_empty());
}
