//! The pointer and the tab bar.
use terminal::grid::{Grid, WinSize};
use terminal::keys::ModifiersState;
use terminal::mouse::MouseButton;
use terminal::parser::Parser;
use terminal::pointer::{pointer_button, pointer_moved, wheel_turned, PointerAction};
use terminal::selection::{Selection, SelectionMode};
use terminal::tab_bar::{Area, TabBar, TabBarTarget};

fn shown(bytes: &[u8]) -> Grid {
    let mut grid = Grid::new(WinSize { cols: 20, rows: 4 }, 100);
    Parser::new().advance_bytes(&mut grid, bytes);
    grid
}

fn bar(tabs: usize) -> TabBar {
    let mut bar = TabBar::new();
    bar.update_tabs(vec!["shell".to_string(); tabs], 0);
    bar
}

fn schemes() -> Vec<String> {
    vec!["https".to_string()]
}

fn press(grid: &Grid, sel: &mut Selection, down: bool, row: usize, col: usize) -> PointerAction {
    let mut held = None;
    pointer_button(
        grid,
        sel,
        &mut held,
        down,
        Some(MouseButton::Left),
        row,
        col,
        &ModifiersState::default(),
        20,
        &schemes(),
    )
}

#[test]
fn a_drag_selects_and_copies() {
    let mut grid = shown(b"hello world");
    let mut sel = Selection::new();
    let m = ModifiersState::default();
    assert!(matches!(press(&grid, &mut sel, true, 0, 6), PointerAction::Nothing));
    assert!(sel.selecting);
    let moved = pointer_moved(&mut grid, &mut sel, None, 0, 2, &m, 20);
    assert!(matches!(moved, PointerAction::Nothing));
    match press(&grid, &mut sel, false, 0, 2) {
        PointerAction::Copy(text) => assert_eq!(text, "llo w"),
        _ => panic!("nothing to copy"),
    }
    assert_eq!((sel.start, sel.end), ((0, 2), (0, 6)));
    assert_eq!(sel.mode, SelectionMode::Char);
    assert!(!sel.selecting);
}

#[test]
fn an_application_that_asks_is_told() {
    let mut grid = shown(b"\x1b[?1002h\x1b[?1006h");
    let mut sel = Selection::new();
    let mut held = None;
    let m = ModifiersState::default();
    let action = pointer_button(
        &grid,
        &mut sel,
        &mut held,
        true,
        Some(MouseButton::Right),
        1,
        3,
        &m,
        20,
        &schemes(),
    );
    match action {
        PointerAction::Send(bytes) => assert_eq!(bytes, b"\x1b[<2;4;2M"),
        _ => panic!("not reported"),
    }
    assert_eq!(held, Some(MouseButton::Right));
    assert!(!sel.active);
    match pointer_moved(&mut grid, &mut sel, held, 1, 4, &m, 20) {
        PointerAction::Send(bytes) => assert_eq!(bytes, b"\x1b[<34;5;2M"),
        _ => panic!("not reported"),
    }
    assert!(matches!(
        pointer_moved(&mut grid, &mut sel, None, 1, 4, &m, 20),
        PointerAction::Nothing
    ));
    match wheel_turned(&grid, 0, -1, 0, 0, &m) {
        PointerAction::Send(bytes) => assert_eq!(bytes, b"\x1b[<65;1;1M"),
        _ => panic!("not reported"),
    }
    assert!(matches!(wheel_turned(&grid, 0, 0, 0, 0, &m), PointerAction::Nothing));
}

#[test]
fn without_an_application_the_wheel_is_silent() {
    let grid = shown(b"");
    let m = ModifiersState::default();
    assert!(matches!(wheel_turned(&grid, 0, 1, 0, 0, &m), PointerAction::Nothing));
}

#[test]
fn only_listed_links_open() {
    let grid = shown(b"\x1b]8;;https://example.org\x07a\x1b]8;;ssh://example.org\x07b\x1b]8;;\x07c");
    let mut sel = Selection::new();
    match press(&grid, &mut sel, true, 0, 0) {
        PointerAction::Open(url) => assert_eq!(url, "https://example.org"),
        _ => panic!("not opened"),
    }
    assert!(matches!(press(&grid, &mut sel, true, 0, 1), PointerAction::Refuse));
    assert!(matches!(press(&grid, &mut sel, true, 0, 2), PointerAction::Nothing));
    assert!(matches!(press(&grid, &mut sel, true, 9, 99), PointerAction::Nothing));
}

#[test]
fn other_buttons_do_not_select() {
    let grid = shown(b"text");
    let mut sel = Selection::new();
    let mut held = None;
    let action = pointer_button(
        &grid,
        &mut sel,
        &mut held,
        true,
        Some(MouseButton::Middle),
        0,
        0,
        &ModifiersState::default(),
        20,
        &schemes(),
    );
    assert!(matches!(action, PointerAction::Nothing));
    assert!(!sel.active);
    assert_eq!(held, None);
}

#[test]
fn the_tab_bar_is_hit_where_it_is_drawn() {
    let bar = bar(2);
    assert_eq!(
        bar.close_button_rect(1),
        Area { left: 276, top: 0, width: 24, height: 24 }
    );
    assert_eq!(bar.target_at_position(0, 5, 800), Some(TabBarTarget::Tab(0)));
    assert_eq!(bar.target_at_position(126, 5, 800), Some(TabBarTarget::Close(0)));
    assert_eq!(bar.target_at_position(126, 24, 800), Some(TabBarTarget::Tab(0)));
    assert_eq!(bar.target_at_position(299, 0, 800), Some(TabBarTarget::Close(1)));
    assert_eq!(bar.target_at_position(300, 0, 800), None);
    assert_eq!(bar.target_at_position(-1, 0, 800), None);
    assert_eq!(bar.target_at_position(752, 0, 800), Some(TabBarTarget::NewTab));
    assert_eq!(bar.target_at_position(776, 0, 800), Some(TabBarTarget::Search));
    assert_eq!(bar.target_at_position(800, 0, 800), None);
}

#[test]
fn the_tab_bar_follows_the_pointer() {
    let mut bar = bar(1);
    bar.update_hover(10, 3, 800, 24);
    assert!(bar.is_hovered(TabBarTarget::Tab(0)));
    bar.update_hover(10, 24, 800, 24);
    assert_eq!(bar.hovered, None);
    let hit = bar.update_pressed(true, 780, 3, 800, 24);
    assert_eq!(hit, Some(Some(TabBarTarget::Search)));
    assert!(bar.is_pressed(TabBarTarget::Search));
    assert_eq!(bar.update_pressed(true, 400, 3, 800, 24), Some(None));
    assert_eq!(bar.update_pressed(true, 10, 30, 800, 24), None);
    assert_eq!(bar.update_pressed(false, 10, 3, 800, 24), None);
    assert_eq!(bar.pressed, None);
}
