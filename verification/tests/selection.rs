//! Tests of the selection module.
use terminal::selection::{Selection, SelectionMode};

#[test]
fn test_selection_new() {
    let sel = Selection::new();
    assert!(!sel.active);
    assert!(!sel.selecting);
}

#[test]
fn test_start_selection() {
    let mut sel = Selection::new();
    sel.start_selection(5, 10, SelectionMode::Char);
    assert!(sel.active);
    assert!(sel.selecting);
    assert_eq!(sel.start, (5, 10));
    assert_eq!(sel.end, (5, 10));
}

#[test]
fn test_update_selection() {
    let mut sel = Selection::new();
    sel.start_selection(5, 10, SelectionMode::Char);
    sel.update(5, 20);
    assert_eq!(sel.end, (5, 20));
}

#[test]
fn test_end_selection_normalizes() {
    let mut sel = Selection::new();
    sel.start_selection(5, 20, SelectionMode::Char);
    sel.update(5, 10);
    sel.end_selection();

    assert!(!sel.selecting);
    let (start, end) = sel.normalized();
    assert_eq!(start, (5, 10));
    assert_eq!(end, (5, 20));
}

#[test]
fn test_contains() {
    let mut sel = Selection::new();
    sel.start_selection(2, 5, SelectionMode::Char);
    sel.update(4, 10);
    sel.end_selection();

    // Before selection
    assert!(!sel.contains(1, 0));
    // First line of selection
    assert!(sel.contains(2, 5));
    assert!(sel.contains(2, 10));
    assert!(!sel.contains(2, 4));
    // Middle line
    assert!(sel.contains(3, 0));
    // Last line
    assert!(sel.contains(4, 0));
    assert!(sel.contains(4, 10));
    assert!(!sel.contains(4, 11));
    // After selection
    assert!(!sel.contains(5, 0));
}

#[test]
fn test_extract_text() {
    let mut sel = Selection::new();
    sel.start_selection(0, 2, SelectionMode::Char);
    sel.update(1, 3);
    sel.end_selection();

    let lines = vec!["Hello, World!".to_string(), "Goodbye, World!".to_string()];

    let text = sel.extract_text(&lines, 13);
    assert_eq!(text, "llo, World!\nGood");
}

#[test]
fn test_cancel() {
    let mut sel = Selection::new();
    sel.start_selection(5, 10, SelectionMode::Char);
    sel.cancel();
    assert!(!sel.active);
    assert!(!sel.selecting);
}

#[test]
fn test_line_mode() {
    let mut sel = Selection::new();
    sel.start_selection(2, 5, SelectionMode::Line);
    sel.update(4, 10);
    sel.end_selection();

    // All cells in lines 2-4 should be selected
    assert!(sel.contains(2, 0));
    assert!(sel.contains(2, 100));
    assert!(sel.contains(3, 0));
    assert!(sel.contains(4, 0));
    assert!(!sel.contains(1, 0));
    assert!(!sel.contains(5, 0));
}

#[test]
fn test_word_expansion() {
    let mut sel = Selection::new();
    let lines = vec!["Hello, World!".to_string()];
    sel.start_selection(0, 4, SelectionMode::Word);
    sel.update(0, 6);
    sel.end_selection();
    sel.expand_to_word(&lines);

    let (start, end) = sel.normalized();
    // "Hello" starts at 0, ends at 4 (inclusive index)
    // The expansion should find word boundaries
    assert!(start.1 <= 4);
    assert!(end.1 >= 4);
}

#[test]
fn line_mode_copies_whole_lines() {
    let mut sel = Selection::new();
    sel.start_selection(0, 2, SelectionMode::Line);
    sel.update(0, 3);
    sel.end_selection();
    assert_eq!(sel.extract_text(&vec!["Hello".to_string()], 5), "Hello");

    sel.start_selection(1, 4, SelectionMode::Line);
    sel.update(0, 3);
    sel.end_selection();
    let lines = vec!["Hello".to_string(), "World".to_string()];
    assert_eq!(sel.extract_text(&lines, 5), "Hello\nWorld");
}

#[test]
fn word_expansion_never_shrinks() {
    let lines = vec!["Hello, World!".to_string()];
    let mut sel = Selection::new();
    // The end stands on the blank and stays there.
    sel.start_selection(0, 2, SelectionMode::Char);
    sel.update(0, 6);
    sel.end_selection();
    sel.expand_to_word(&lines);
    assert_eq!(sel.normalized(), ((0, 0), (0, 6)));
    // A click on the blank selects it alone.
    sel.start_selection(0, 6, SelectionMode::Word);
    sel.end_selection();
    sel.expand_to_word(&lines);
    assert_eq!(sel.normalized(), ((0, 6), (0, 6)));
    // From within one word to within the next.
    sel.start_selection(0, 4, SelectionMode::Word);
    sel.update(0, 8);
    sel.end_selection();
    sel.expand_to_word(&lines);
    assert_eq!(sel.normalized(), ((0, 0), (0, 11)));
    // What stands before the first word is no part of it.
    sel.start_selection(0, 3, SelectionMode::Word);
    sel.end_selection();
    sel.expand_to_word(&vec!["(Hello".to_string()]);
    assert_eq!(sel.normalized(), ((0, 1), (0, 5)));
}

#[test]
fn a_widened_block_keeps_its_corners() {
    let lines = vec!["one two six".to_string(), "ten red cat".to_string()];
    let mut sel = Selection::new();
    sel.start_selection(0, 9, SelectionMode::Rectangular);
    sel.update(1, 5);
    sel.end_selection();
    sel.expand_to_word(&lines);
    for row in 0..2 {
        for col in 4..11 {
            assert!(sel.contains(row, col), "{row} {col}");
        }
        assert!(!sel.contains(row, 3) && !sel.contains(row, 11));
    }
}
