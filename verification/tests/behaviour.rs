//! Behaviour beyond single modules: what operations keep, undo and refuse.
use terminal::atlas::{
    is_blank_bitmap, is_blank_glyph, kept_glyphs, GlyphSheet, KeptGlyph, ShapedId, Spot,
    ATLAS_SIZE,
};
use terminal::codec::{decode_png_rgba, decode_text, encode_text};
use terminal::config::{parse_hex_color, Config};
use terminal::engine::{Command, Engine, Event, Reply};
use terminal::grid::osc::parse_color_spec;
use terminal::grid::{Attrs, Grid, MouseEncoding, MouseMode, WinSize};
use terminal::image::create_kitty_command;
use terminal::input::{
    blink, clipboard_reply, clipboard_request, drag_selection, grid_size, key_pressed,
    mouse_bytes, mouse_event, parse_args, paste_bytes, search_key, select_all, selection_mode,
    shortcut, tab_bar_height, tab_index, text_to_copy, wheel_button, window_size, window_title,
    ClipboardAction, Shortcut,
};
use terminal::keys::{
    app_cursor_remap, kitty_modifier, pressed_key, released_key, Key, KeyProtocol,
    ModifiersState, NamedKey,
};
use terminal::mouse::{is_mouse_tracking_active, MouseButton, MouseEventType};
use terminal::parser::{print_each, Action, Parser};
use terminal::pty::{after_poll, after_read, after_write, shell_argv, ReadStep};
use terminal::record::ActionLog;
use terminal::render::{
    build_color_table, frame_colors, plan_frame, plan_search_bar, plan_tab_bar, search_status,
    CellMetrics, Mark, Rgba, Shade, Tint,
};
use terminal::search::SearchState;
use terminal::selection::{Selection, SelectionMode};
use terminal::sixel::decode_sixel;
use terminal::tab_bar::{TabBar, TabBarTarget};
use terminal::tabs::TabManager;
use terminal::workload::{
    check_invariants, gen_byte, generate_random_payload, parse_bench_args, parse_byte_count, Rng,
};

fn grid(cols: u16, rows: u16) -> Grid {
    Grid::new(WinSize { cols, rows }, 100)
}

fn feed(g: &mut Grid, bytes: &[u8]) {
    let mut parser = Parser::new();
    parser.advance_bytes(g, bytes);
}

fn plain() -> ModifiersState {
    ModifiersState::default()
}

fn character(s: &str) -> Key {
    Key::Character(s.to_string())
}

fn texts(v: &[&str]) -> Vec<String> {
    v.iter().map(|s| s.to_string()).collect()
}

// -- Text carried in base64, and images --

#[test]
fn text_survives_its_encoding() {
    let encoded = encode_text("héllo");
    assert_eq!(encoded, "aMOpbGxv");
    assert_eq!(decode_text(encoded.as_bytes()), Some("héllo".to_string()));
    assert_eq!(decode_text(b"not base64!"), None);
    assert_eq!(decode_text(b"/w=="), None);
}

#[test]
fn png_grayscale_becomes_rgba() {
    let mut bytes = Vec::new();
    {
        let mut enc = png::Encoder::new(&mut bytes, 2, 1);
        enc.set_color(png::ColorType::Grayscale);
        enc.set_depth(png::BitDepth::Eight);
        let mut writer = enc.write_header().unwrap();
        writer.write_image_data(&[7, 200]).unwrap();
    }
    let (w, h, rgba) = decode_png_rgba(&bytes).unwrap();
    assert_eq!((w, h), (2, 1));
    assert_eq!(rgba, vec![7, 7, 7, 255, 200, 200, 200, 255]);
    assert!(decode_png_rgba(b"no image").is_none());
}

#[test]
fn sixel_data_gives_pixels() {
    let image = decode_sixel(b"\"1;1;2;6#1;2;100;0;0#1!2~", 100, 100).unwrap();
    assert_eq!((image.width, image.height), (2, 6));
    assert_eq!(&image.rgba[0..4], &[255, 0, 0, 255]);
}

#[test]
fn kitty_commands_are_written() {
    assert_eq!(create_kitty_command("a=q", None), "\x1b_Ga=q\x1b\\");
    assert_eq!(
        create_kitty_command("a=T", Some(b"hi")),
        "\x1b_Ga=T,aGk=\x1b\\"
    );
}

// -- What the terminal keeps and undoes --

#[test]
fn saving_and_restoring_the_cursor_undo_each_other() {
    let mut g = grid(10, 4);
    feed(&mut g, b"\x1b[2;3H\x1b[31m\x1b7\x1b[4;9H\x1b[0m\x1b8");
    assert_eq!((g.cursor.row, g.cursor.col), (1, 2));
}

#[test]
fn the_primary_screen_survives_the_alternate_one() {
    let mut g = grid(10, 2);
    feed(&mut g, b"main\x1b[?1049hother\x1b[?1049l");
    assert!(g.line_to_string(0).starts_with("main"));
}

#[test]
fn attributes_are_independent() {
    let mut a = Attrs::default();
    a.set_bold(true);
    a.set_underline_style(3);
    a.set_protected(true);
    a.set_bold(false);
    assert!(!a.bold() && a.underline() && a.protected());
    assert_eq!(a.underline_style(), 3);
}

#[test]
fn selective_erase_spares_protected_cells() {
    let mut g = grid(10, 2);
    feed(&mut g, b"\x1b[2\"qAB\x1b[0\"qCD\x1b[1;1H\x1b[?2K");
    assert!(g.line_to_string(0).starts_with("AB  "));
}

#[test]
fn cancel_ends_a_sequence() {
    let mut g = grid(10, 2);
    feed(&mut g, b"\x1b[3\x18A");
    assert_eq!(g.cell(0, 0).ch, 'A');
}

#[test]
fn damage_is_taken_once() {
    let mut g = grid(4, 2);
    feed(&mut g, b"x");
    assert!(!g.take_dirty_cells().is_empty());
    assert!(g.take_dirty_cells().is_empty());
    assert!(!g.has_dirty_cells());
}

#[test]
fn scrollback_stays_within_its_capacity() {
    let mut g = Grid::new(WinSize { cols: 4, rows: 2 }, 3);
    for _ in 0..50 {
        feed(&mut g, b"line\r\n");
    }
    assert_eq!(g.screen.scrollback.len(), 3);
    assert!(check_invariants(&g, 1, 2).is_ok());
}

#[test]
fn broken_invariants_are_reported() {
    let mut g = grid(4, 2);
    g.cursor.row = 9;
    assert_eq!(
        check_invariants(&g, 5, 70).unwrap_err(),
        "seed 5 after 70 bytes: cursor row 9 out of bounds (2)"
    );
    g.cursor.row = 0;
    g.cursor.col = 8;
    assert_eq!(
        check_invariants(&g, 5, 70).unwrap_err(),
        "seed 5 after 70 bytes: cursor col 8 out of bounds (4)"
    );
}

#[test]
fn malformed_text_is_refused_or_mended() {
    let mut g = grid(10, 2);
    feed(&mut g, b"\x1b]2;a\xffb\x07");
    assert_eq!(g.palette.title, "");
    feed(&mut g, b"\x1b_Ga=T,f=32,s=1,v=1,t=f;L3RtcC//\x1b\\");
    let files = g.take_kitty_files();
    assert_eq!(files.len(), 1);
    assert_eq!(files[0].path, "/tmp/\u{fffd}");
}

#[test]
fn wide_and_combining_characters_take_their_cells() {
    let mut g = grid(10, 2);
    feed(&mut g, "界e\u{301}x".as_bytes());
    assert_eq!(g.cell(0, 0).ch, '界');
    assert!(g.cell(1, 0).wide_filler);
    assert_eq!(g.cell(2, 0).combining.as_deref(), Some("\u{301}"));
    assert_eq!(g.cell(3, 0).ch, 'x');
}

#[test]
fn rectangles_are_filled_with_a_character() {
    let mut g = grid(4, 2);
    feed(&mut g, b"\x1b[88;1;1;2;2$x");
    assert!(g.line_to_string(0).starts_with("XX  "));
    assert!(g.line_to_string(1).starts_with("XX  "));
}

#[test]
fn resizing_keeps_the_text() {
    let mut g = grid(6, 3);
    feed(&mut g, b"abcdef\r\n123456");
    g.resize(WinSize { cols: 4, rows: 3 });
    let text: String = g.all_lines_with_scrollback().join("");
    assert!(text.contains("abcdef") && text.contains("123456"));
}

// -- Engine --

#[test]
fn engine_reports_each_event_once() {
    let mut e = Engine::new(WinSize { cols: 20, rows: 4 }, 50, (8, 16));
    assert!(!e.accept(b"\x1b]2;title\x07\x07\x1b]52;c;aGk=\x07".to_vec(), 1000));
    assert!(e.accept(b"\x1b[c\x1b]9;note\x07".to_vec(), 10));
    let batch = e.parse();
    assert_eq!(batch.responses.len(), 1);
    assert_eq!(batch.events.len(), 4);
    assert!(matches!(&batch.events[0], Event::ClipboardSet(s) if s == "hi"));
    assert!(matches!(&batch.events[1], Event::Bell));
    assert!(matches!(&batch.events[2], Event::Notification(s) if s == "note"));
    assert!(matches!(&batch.events[3], Event::TitleChanged(s) if s == "title"));
    let turn = e.end_turn(false);
    assert!(turn.publish && !turn.idle && !turn.stop);
    e.accept(b"\x1b]2;title\x07".to_vec(), 1000);
    assert!(e.parse().events.is_empty());
    e.end_turn(false);
    e.close();
    assert!(e.end_turn(false).stop);
    assert!(!e.end_turn(true).stop);
}

#[test]
fn engine_waits_for_image_files() {
    let mut e = Engine::new(WinSize { cols: 20, rows: 4 }, 50, (8, 16));
    let path = encode_text("/srv/a.rgba");
    e.accept(format!("ab\x1b_Ga=T,f=32,s=1,v=1,t=f;{path}\x1b\\cd\r\nefg").into_bytes(), 1000);
    let mut batch = e.parse();
    assert_eq!(batch.files.len(), 1);
    assert_eq!((e.grid.cursor.row, e.grid.cursor.col), (0, 2));
    let file = batch.files.remove(0);
    assert_eq!(file.path, "/srv/a.rgba");
    e.complete_file(file, Ok(vec![255, 0, 0, 255]));
    assert!(e.parse().files.is_empty());
    let image = &e.grid.screen.sixel_images[0];
    assert_eq!((image.row, image.col), (0, 2));
    assert!(e.grid.all_lines()[1].starts_with("efg"));
}

#[test]
fn engine_answers_about_files_in_order() {
    let mut e = Engine::new(WinSize { cols: 20, rows: 4 }, 50, (8, 16));
    let path = encode_text("/srv/a.rgba");
    e.accept(
        format!("\x1b_Ga=t,i=9,f=32,s=1,v=1,t=f;{path}\x1b\\\x1b_Ga=p,i=9\x1b\\\x1b[5n").into_bytes(),
        1000,
    );
    let mut responses = Vec::new();
    let mut rounds = 0;
    loop {
        let batch = e.drain();
        responses.extend(batch.responses);
        if batch.files.is_empty() {
            break;
        }
        rounds += 1;
        for file in batch.files {
            e.complete_file(file, Ok(vec![255, 0, 0, 255]));
        }
    }
    assert_eq!(rounds, 1);
    assert_eq!(responses.len(), 3);
    assert!(responses[0].windows(2).any(|w| w == b"OK"));
    assert!(responses[1].windows(2).any(|w| w == b"OK"));
    assert_eq!(responses[2], b"\x1b[0n");
    assert_eq!(e.grid.screen.sixel_images.len(), 1);
}

#[test]
fn engine_carries_out_commands() {
    let mut e = Engine::new(WinSize { cols: 20, rows: 2 }, 50, (8, 16));
    e.accept(b"\x1b]133;A\x07one\r\ntwo\r\nthree\r\nfour".to_vec(), 10);
    e.drain();
    assert!(matches!(e.command(Command::ScrollBy { amount: 9 }), Reply::Done));
    assert_eq!(e.grid.scrollback_offset, 2);
    e.command(Command::ScrollBy { amount: -1 });
    assert_eq!(e.grid.scrollback_offset, 1);
    e.command(Command::JumpPrompt { dir: -1 });
    assert_eq!(e.grid.scrollback_offset, 2);
    e.command(Command::JumpPrompt { dir: 1 });
    assert_eq!(e.grid.scrollback_offset, 0);
    match e.command(Command::GetLines) {
        Reply::Lines(l) => assert!(l[0].starts_with("three")),
        _ => panic!("expected lines"),
    }
    match e.command(Command::FocusIn) {
        Reply::Write(v) => assert!(v.is_empty()),
        _ => panic!("expected nothing to write"),
    }
    match e.command(Command::WriteToPty(b"ls\r".to_vec())) {
        Reply::Write(v) => assert_eq!(v, vec![b"ls\r".to_vec()]),
        _ => panic!("expected bytes to write"),
    }
    match e.command(Command::GetHyperlinkAt { col: 0, row: 0 }) {
        Reply::Link(l) => assert!(l.is_none()),
        _ => panic!("expected a link"),
    }
    assert!(matches!(e.command(Command::Resize(WinSize { cols: 9, rows: 3 })), Reply::Resize(_)));
    assert_eq!(e.grid.screen.cols, 9);
    assert!(matches!(e.command(Command::Quit), Reply::Quit));
}

// -- Tabs --

#[test]
fn closing_tabs_keeps_the_active_one() {
    let mut t = TabManager::new(WinSize { cols: 10, rows: 4 }, 10, (8, 16));
    t.new_tab();
    t.new_tab();
    assert_eq!(t.active_index(), 2);
    assert_eq!(t.close_tab(0), Some(1));
    assert_eq!(t.close_current(), Some(0));
    assert_eq!(t.close_current(), None);
    assert_eq!(t.len(), 1);
    assert_eq!(t.titles(), vec!["Terminal".to_string()]);
    t.new_tab();
    t.next();
    assert_eq!(t.active_index(), 0);
    t.prev();
    assert_eq!(t.active_index(), 1);
}

// -- Keys --

#[test]
fn pressed_and_released_keys() {
    let legacy = KeyProtocol {
        kitty_flags: 0,
        modify_other_keys: 0,
        application_cursor_keys: true,
    };
    let ctrl = ModifiersState { control: true, ..plain() };
    assert_eq!(pressed_key(&character("c"), &ctrl, None, false, legacy), vec![3]);
    assert_eq!(
        pressed_key(&Key::Named(NamedKey::ArrowUp), &plain(), None, false, legacy),
        b"\x1bOA"
    );
    assert!(released_key(&character("c"), &plain(), None, legacy).is_none());
    let events = KeyProtocol { kitty_flags: 10, ..legacy };
    assert_eq!(
        released_key(&character("c"), &plain(), None, events),
        Some(b"\x1b[99;1:3u".to_vec())
    );
    assert_eq!(
        pressed_key(&character("c"), &plain(), None, true, events),
        b"\x1b[99;1:2u"
    );
    assert_eq!(
        kitty_modifier(&ModifiersState { shift: true, alt: true, control: true, super_key: true }),
        16
    );
    let mut bytes = b"\x1b[A".to_vec();
    app_cursor_remap(&mut bytes);
    app_cursor_remap(&mut bytes);
    assert_eq!(bytes, b"\x1bOA");
}

#[test]
fn keys_that_are_shortcuts() {
    let cs = ModifiersState { control: true, shift: true, ..plain() };
    let c = ModifiersState { control: true, ..plain() };
    assert_eq!(shortcut(&character("C"), &cs), Some(Shortcut::Copy));
    assert_eq!(shortcut(&character("7"), &cs), Some(Shortcut::SwitchTo(7)));
    assert_eq!(shortcut(&character("r"), &c), Some(Shortcut::ReverseSearch));
    assert_eq!(shortcut(&character("c"), &c), None);
    assert_eq!(shortcut(&Key::Named(NamedKey::PageUp), &c), Some(Shortcut::PrevTab));
    assert_eq!(tab_index(3, 2), None);
    assert_eq!(tab_index(2, 2), Some(1));
}

#[test]
fn keys_scroll_or_go_to_the_application() {
    let mut g = grid(10, 2);
    feed(&mut g, b"a\r\nb\r\nc\r\nd\r\ne");
    let shift = ModifiersState { shift: true, ..plain() };
    assert!(key_pressed(&mut g, &Key::Named(NamedKey::PageUp), &shift, None, false, 2).is_empty());
    assert_eq!(g.scrollback_offset, 2);
    assert!(key_pressed(&mut g, &Key::Named(NamedKey::PageDown), &shift, None, false, 1).is_empty());
    assert_eq!(g.scrollback_offset, 1);
    assert_eq!(key_pressed(&mut g, &character("x"), &plain(), None, false, 2), b"x");
    assert_eq!(g.scrollback_offset, 0);
}

// -- Searching --

#[test]
fn search_keys_edit_and_step() {
    let mut g = grid(20, 3);
    feed(&mut g, b"cat dog cat");
    let mut s = SearchState::new();
    s.activate();
    for key in ["c", "a", "t", "s"] {
        assert!(search_key(&mut s, &mut g, &character(key), &plain()));
    }
    assert_eq!(s.match_count(), 0);
    assert!(search_key(&mut s, &mut g, &Key::Named(NamedKey::Backspace), &plain()));
    assert_eq!(s.match_count(), 2);
    assert!(search_key(&mut s, &mut g, &Key::Named(NamedKey::F3), &plain()));
    assert_eq!(s.current_index(), 2);
    assert_eq!(search_status(&s), "/cat  search  2/2");
    let back = ModifiersState { control: true, shift: true, ..plain() };
    assert!(search_key(&mut s, &mut g, &character("g"), &back));
    assert_eq!(s.current_index(), 1);
    let shift = ModifiersState { shift: true, ..plain() };
    assert!(search_key(&mut s, &mut g, &Key::Named(NamedKey::F3), &shift));
    assert_eq!(s.current_index(), 2);
    assert!(search_key(&mut s, &mut g, &character("G"), &back));
    assert_eq!(s.current_index(), 1);
    assert_eq!(s.query, "cat");
    assert!(!search_key(&mut s, &mut g, &Key::Named(NamedKey::Home), &plain()));
    assert!(search_key(&mut s, &mut g, &Key::Named(NamedKey::Escape), &plain()));
    assert!(!s.active && s.query.is_empty());
}

#[test]
fn literal_queries_are_escaped() {
    let mut s = SearchState::new();
    s.update_query("a.c");
    s.search(&texts(&["abc a.c"]));
    assert_eq!(s.match_count(), 1);
    s.toggle_regex_mode();
    s.search(&texts(&["abc a.c"]));
    assert_eq!(s.match_count(), 2);
    s.update_query("(");
    s.search(&texts(&["("]));
    assert_eq!(s.match_count(), 0);
}

// -- Mouse and selection --

#[test]
fn mouse_reports() {
    let e = mouse_event(None, MouseEventType::Press, 3, 4, &plain());
    assert_eq!(mouse_bytes(&e, MouseEncoding::SGR), Some(b"\x1b[<0;3;4M".to_vec()));
    assert_eq!(mouse_bytes(&e, MouseEncoding::X10), Some(b"\x1b[M #$".to_vec()));
    assert_eq!(mouse_bytes(&e, MouseEncoding::Urxvt), Some(b"\x1b[0;4;5M".to_vec()));
    assert!(is_mouse_tracking_active(MouseMode::Normal));
    assert!(!is_mouse_tracking_active(MouseMode::Off));
    assert_eq!(wheel_button(1, -1), Some(MouseButton::WheelDown));
    assert_eq!(wheel_button(-1, 0), Some(MouseButton::WheelLeft));
    assert_eq!(wheel_button(0, 0), None);
}

#[test]
fn selections_of_every_kind() {
    let lines = texts(&["abcdef", "ghijkl", "mnopqr"]);
    let alt = ModifiersState { alt: true, ..plain() };
    assert_eq!(selection_mode(&alt), SelectionMode::Rectangular);
    let mut s = Selection::new();
    s.start_selection(0, 3, SelectionMode::Rectangular);
    s.update(2, 1);
    s.end_selection();
    assert!(s.contains(1, 2) && !s.contains(1, 4));
    assert_eq!(text_to_copy(&s, &lines, 6), Some("bcd\nhij\nnop".to_string()));
    let mut back = Selection::new();
    back.start_selection(1, 2, SelectionMode::Char);
    back.update(0, 4);
    back.end_selection();
    assert_eq!(text_to_copy(&back, &lines, 6), Some("ef\nghi".to_string()));
    assert_eq!(text_to_copy(&Selection::new(), &lines, 6), None);
    let mut all = Selection::new();
    select_all(&mut all, WinSize { cols: 6, rows: 3 });
    assert!(all.contains(0, 0) && all.contains(2, 5));
}

#[test]
fn words_grow_over_letters_of_any_script() {
    let mut s = Selection::new();
    s.start_selection(0, 5, SelectionMode::Word);
    s.expand_to_word(&texts(&["an échange, no"]));
    assert_eq!(s.end.1, 10);
}

#[test]
fn dragging_marks_what_changes() {
    let mut g = grid(6, 3);
    feed(&mut g, b"abcdef\r\nghijkl");
    g.take_dirty_cells();
    let mut s = Selection::new();
    s.start_selection(0, 1, SelectionMode::Char);
    drag_selection(&mut g, &mut s, 0, 3, 6);
    assert_eq!(g.take_dirty_cells(), vec![(0, 1), (0, 2), (0, 3)]);
}

// -- Policy, paste, geometry --

#[test]
fn clipboard_policy() {
    assert_eq!(clipboard_request(false, "x"), ClipboardAction::Blocked);
    assert_eq!(clipboard_request(true, ""), ClipboardAction::Clear);
    assert_eq!(clipboard_request(true, "x"), ClipboardAction::Copy);
    assert_eq!(clipboard_reply(false, Some("hi".to_string())), None);
    assert_eq!(clipboard_reply(true, None), None);
    assert_eq!(
        clipboard_reply(true, Some("hi".to_string())),
        Some(b"\x1b]52;c;aGk=\x07".to_vec())
    );
    assert_eq!(paste_bytes("ls", false), b"ls");
    assert_eq!(paste_bytes("ls", true), b"\x1b[200~ls\x1b[201~");
}

#[test]
fn pixels_and_cells() {
    assert_eq!(tab_bar_height(false, 30, 24), 0);
    assert_eq!(tab_bar_height(true, 10, 24), 24);
    let size = WinSize { cols: 80, rows: 24 };
    let (w, h) = window_size(size, 8, 16, 30);
    assert_eq!((w, h), (640, 414));
    assert_eq!(grid_size(w, h, 8, 16, 30), Some(size));
    assert_eq!(grid_size(4, 400, 8, 16, 30), None);
    assert_eq!(blink(true, 500, 499), (true, false));
    assert_eq!(blink(true, 500, 500), (false, true));
    assert_eq!(blink(false, 0, 0), (true, false));
}

#[test]
fn command_lines() {
    let o = parse_args(&texts(&["--cols", "100", "-e", "top", "--rows", "x", "--cols"]));
    assert_eq!(o.command.as_deref(), Some("top"));
    assert_eq!((o.cols, o.rows), (Some(100), None));
    let a = parse_bench_args(&texts(&["--runs", "7", "--json", "--label", "now", "--cols", "big"]));
    assert_eq!((a.runs, a.cols, a.json, a.bulk_output), (7, 80, true, false));
    assert_eq!(a.label, "now");
    assert_eq!(parse_byte_count("2M", 9), Some(2097152));
    assert_eq!(parse_byte_count("xM", 9), Some(8388608));
    assert_eq!(parse_byte_count("17", 9), Some(17));
    assert_eq!(parse_byte_count("?", 9), Some(9));
}

#[test]
fn streams_are_reproducible() {
    let mut rng = Rng(0);
    assert_eq!(rng.next_u64(), 0xE220A8397B1DCDAF);
    let mut a = Rng(3);
    let mut b = Rng(3);
    for mode in 0..4u8 {
        assert_eq!(gen_byte(mode, &mut a), gen_byte(mode, &mut b));
    }
    assert_eq!(generate_random_payload(0).len(), 0);
}

#[test]
fn reading_and_writing_a_pseudoterminal() {
    assert_eq!(after_poll(1, false), ReadStep::Read);
    assert_eq!(after_poll(0, false), ReadStep::Poll);
    assert_eq!(after_poll(-1, true), ReadStep::Poll);
    assert_eq!(after_poll(-1, false), ReadStep::Stop);
    assert_eq!(after_read(5, 16, false), ReadStep::Deliver(5));
    assert_eq!(after_read(0, 16, true), ReadStep::Stop);
    assert_eq!(after_read(-1, 16, true), ReadStep::Poll);
    assert_eq!(after_write(2, 9, 3, false), Some(5));
    assert_eq!(after_write(2, 9, 7, false), None);
    assert_eq!(after_write(2, 9, -1, true), Some(2));
    assert_eq!(after_write(2, 9, -1, false), None);
    assert_eq!(shell_argv("/bin/sh", Some("ls")), texts(&["/bin/sh", "-c", "ls"]));
}

// -- Drawing --

#[test]
fn colors_to_draw_with() {
    assert_eq!(parse_hex_color("#1E1E2E"), (30, 30, 46, 255));
    assert_eq!(parse_hex_color("#1E1E2E80"), (30, 30, 46, 128));
    assert_eq!(parse_hex_color("##zz0010"), (0, 0, 16, 255));
    let config = Config::default();
    let g = grid(2, 2);
    let table = build_color_table(&config.colors, &g.palette);
    assert_eq!(table.len(), 256);
    assert_eq!(table[1], (0xF3, 0x8B, 0xA8));
    assert_eq!(Some(table[200]), g.palette.get_color(200));
}

#[test]
fn a_frame_draws_cells_and_cursor() {
    let mut g = grid(2, 1);
    feed(&mut g, b"\x1b[4;7mA");
    let config = Config::default();
    let colors = frame_colors(&config.colors);
    let m = CellMetrics { cell_width: 8, cell_height: 16, top: 30 };
    let marks = plan_frame(&g, &Selection::new(), &colors, m, true, &Vec::new(), true);
    assert_eq!(marks.len(), 5);
    match &marks[0] {
        Mark::Fill { x, y, w, h, color, dim } => {
            assert_eq!((*x, *y, *w, *h, *dim), (0, 600, 160, 320, false));
            assert_eq!(*color, colors.foreground);
        }
        other => panic!("expected the background, got {other:?}"),
    }
    assert!(matches!(&marks[1], Mark::Glyph { ch: 'A', bold: false, .. }));
    assert!(matches!(&marks[2], Mark::Fill { y: 880, h: 40, .. }));
    assert!(matches!(&marks[4], Mark::Fill { x: 160, y: 600, w: 160, h: 320, .. }));
    assert_eq!(colors.cursor, Rgba { r: 0x89, g: 0xB4, b: 0xFA, a: 255 });
    let none = plan_frame(&g, &Selection::new(), &colors, m, false, &Vec::new(), false);
    assert!(none.is_empty());
    let one = plan_frame(&g, &Selection::new(), &colors, m, false, &vec![(0, 1)], false);
    assert_eq!(one.len(), 1);
}

#[test]
fn glyphs_are_packed_on_shelves() {
    let mut sheet = GlyphSheet::new();
    let a = sheet.pack(2, 2, &vec![1, 2, 3, 4]).unwrap();
    assert_eq!(a, Spot { x: 0, y: 0, width: 2, height: 2 });
    let b = sheet.pack(1023, 1, &vec![9; 1023]).unwrap();
    assert_eq!((b.x, b.y), (0, 3));
    assert_eq!(sheet.bitmap[1], 2);
    assert_eq!(sheet.bitmap[ATLAS_SIZE as usize], 3);
    assert_eq!(sheet.bitmap[3 * ATLAS_SIZE as usize], 9);
    assert!(sheet.take_dirty());
    assert!(!sheet.take_dirty());
    assert!(sheet.pack(1, 1022, &vec![0; 1022]).is_none());
    assert!(is_blank_glyph(' ') && is_blank_glyph('\n') && !is_blank_glyph('x'));
    assert!(is_blank_bitmap(0, 3) && is_blank_bitmap(3, 0) && !is_blank_bitmap(1, 1));
}

#[test]
fn a_glyph_wider_than_the_atlas_has_no_room() {
    let mut sheet = GlyphSheet::new();
    assert!(sheet.pack(ATLAS_SIZE + 1, 1, &vec![7; ATLAS_SIZE as usize + 1]).is_none());
    assert!(!sheet.take_dirty() && sheet.bitmap.iter().all(|&p| p == 0));
    let whole = sheet.pack(ATLAS_SIZE, 1, &vec![7; ATLAS_SIZE as usize]).unwrap();
    assert_eq!((whole.x, whole.y), (0, 1));
}

#[test]
fn shaped_glyphs_keep_their_order() {
    let at = |glyph_id: u32| ShapedId { glyph_id, x_offset: 1, y_offset: -2, x_advance: 600 };
    let kept = kept_glyphs(&vec![at(65), at(65536), at(0xd801), at(65535)]);
    let glyph = |index: u16, key: char| KeptGlyph {
        index,
        key,
        x_offset: 1,
        y_offset: -2,
        x_advance: 600,
    };
    assert_eq!(kept, vec![glyph(65, 'A'), glyph(0xd801, ' '), glyph(65535, '\u{ffff}')]);
}

fn letters(marks: &[Mark]) -> Vec<(i128, char)> {
    let of = |m: &Mark| match m {
        Mark::Letter { left, ch, .. } => Some((*left, *ch)),
        _ => None,
    };
    marks.iter().filter_map(of).collect()
}

#[test]
fn the_tab_bar_is_drawn_in_order() {
    let mut bar = TabBar::new();
    bar.update_tabs(texts(&["a b", "abcdefghijklmnopqrstuvwxyz"]), 1);
    bar.hovered = Some(TabBarTarget::Close(0));
    bar.pressed = Some(TabBarTarget::Tab(0));
    let m = CellMetrics { cell_width: 9, cell_height: 18, top: 28 };
    let ink = Rgba { r: 1, g: 2, b: 3, a: 255 };
    let marks = plan_tab_bar(&bar, ink, m, 640, &Vec::new());
    // Header, and for each tab its surface, letters, and a button.
    assert_eq!(marks.len(), 1 + (1 + 2 + 2) + (1 + 18 + 2) + 2 + 2);
    let header = Rgba { r: 0x18, g: 0x18, b: 0x25, a: 255 };
    assert!(matches!(
        &marks[0],
        Mark::Surface { left: 0, top: 0, width: 12800, height: 560, tint } if tint.color == header
    ));
    let inactive = Rgba { r: 0x1e, g: 0x1e, b: 0x2e, a: 255 };
    assert!(matches!(
        &marks[1],
        Mark::Surface { left: 0, width: 3000, tint, .. }
            if *tint == Tint { color: inactive, tab: Shade::Pressed, button: Shade::Plain }
    ));
    assert!(matches!(&marks[2], Mark::Letter { left: 160, top: 100, ch: 'a', color, .. } if *color == ink));
    assert!(matches!(&marks[3], Mark::Letter { left: 430, ch: 'b', .. }));
    assert!(matches!(
        &marks[4],
        Mark::Surface { left: 2520, top: 0, width: 480, height: 480, tint }
            if *tint == Tint { color: inactive, tab: Shade::Pressed, button: Shade::Hovered }
    ));
    assert!(matches!(&marks[5], Mark::Letter { left: 2670, top: 60, ch: '\u{d7}', .. }));
    let all = letters(&marks);
    assert_eq!(all[19], (3160 + 16 * 180, 'q'));
    assert_eq!(all[20], (3160 + 17 * 180, 'r'));
    assert_eq!(&all[22..], &[(12800 - 960 + 150, '+'), (12800 - 480 + 150, 'S')]);

    // A character without a glyph takes no room; a button falls back on an x.
    let marks = plan_tab_bar(&bar, ink, m, 640, &vec!['a', '\u{d7}']);
    assert_eq!(&letters(&marks)[..2], &[(160 + 90, 'b'), (2670, 'x')]);
}

#[test]
fn the_search_bar_stands_at_the_upper_right() {
    let mut search = SearchState::new();
    search.activate();
    search.query = "a c".to_string();
    let m = CellMetrics { cell_width: 10, cell_height: 20, top: 30 };
    let marks = plan_search_bar(&search, m, 640, &vec!['/']);
    assert!(matches!(
        &marks[0],
        Mark::Surface { left: 6240, top: 760, width: 6400, height: 720, .. }
    ));
    assert!(matches!(&marks[1], Mark::Letter { left: 6480, top: 920, ch: 'a', .. }));
    assert!(matches!(&marks[2], Mark::Letter { left: 6680, ch: 'c', .. }));
    let narrow = plan_search_bar(&search, m, 100, &Vec::new());
    assert!(matches!(&narrow[0], Mark::Surface { left: 160, width: 1680, .. }));
    search.query = "y".repeat(60);
    assert_eq!(plan_search_bar(&search, m, 640, &Vec::new()).len(), 1 + 40);
}

#[test]
fn a_run_of_text_ends_at_an_escape() {
    let mut log = ActionLog::new();
    assert_eq!(print_each(&mut log, b"a\nb\x1b[m"), 3);
    assert_eq!(log.actions.len(), 3);
    assert!(matches!(log.actions[0], Action::Print('a')));
    assert!(matches!(log.actions[1], Action::Execute(0x0a)));
    assert!(matches!(log.actions[2], Action::Print('b')));
}

#[test]
fn a_batch_does_what_its_bytes_do() {
    let text = b"one\ttwo\r\nthree\x08\x08X and a line that wraps around";
    let mut batch = grid(20, 5);
    feed(&mut batch, text);
    let mut single = grid(20, 5);
    let mut parser = Parser::new();
    for &b in text.iter() {
        parser.advance(&mut single, b);
    }
    assert_eq!(batch.all_lines(), single.all_lines());
    assert_eq!(batch.cursor, single.cursor);
    assert_eq!(batch.all_lines()[1], "thrX and a line that");
}

#[test]
fn a_batch_heeds_tab_stops_and_margins() {
    let mut g = grid(20, 5);
    feed(&mut g, b"\x1b[1;3H\x1bH\r");
    feed(&mut g, b"\tX");
    assert_eq!(g.cell(2, 0).ch, 'X');

    let mut below = grid(20, 5);
    feed(&mut below, b"top\x1b[1;2r\x1b[4;1H");
    feed(&mut below, b"\n");
    assert_eq!((below.cursor.row, below.cursor.col), (4, 0));
    feed(&mut below, b"\t\n\n\r");
    assert_eq!((below.cursor.row, below.cursor.col), (4, 0));
    assert_eq!(below.cell(0, 0).ch, 't');
}

#[test]
fn a_visit_to_the_other_screen_leaves_this_one_alone() {
    let mut g = grid(8, 3);
    feed(&mut g, b"one\r\ntwo\r\nthree\r\nfour\x1b[2;3H");
    let before = g.all_lines_with_scrollback();
    let cursor = g.cursor;
    feed(&mut g, b"\x1b[?1049h1\r\n2\r\n3\r\n4\r\n5 and more\x1b[2J\x1b[L\x1b#8\x1bM");
    feed(&mut g, b"\x1b[?1049l");
    assert_eq!(g.all_lines_with_scrollback(), before);
    assert_eq!(g.cursor, cursor);
}

#[test]
fn erasing_takes_the_images_in_its_rectangle() {
    let mut g = grid(20, 5);
    let pixel = b"\x1b_Ga=T,f=32,s=1,v=1;/wAA/w==\x1b\\";
    for place in [b"\x1b[1;9H", b"\x1b[2;3H", b"\x1b[2;9H", b"\x1b[4;2H", b"\x1b[4;9H"] {
        feed(&mut g, place);
        feed(&mut g, pixel);
    }
    let places = |g: &Grid| -> Vec<(usize, usize)> {
        g.screen.sixel_images.iter().map(|p| (p.row, p.col)).collect()
    };
    assert_eq!(places(&g), vec![(0, 8), (1, 2), (1, 8), (3, 1), (3, 8)]);
    // From the cursor down: columns left of it are spared in every row.
    feed(&mut g, b"\x1b[2;6H\x1b[J");
    assert_eq!(places(&g), vec![(0, 8), (1, 2), (3, 1)]);
    // Up to the cursor: columns right of it are spared in every row.
    feed(&mut g, b"\x1b[4;3H\x1b[1J");
    assert_eq!(places(&g), vec![(0, 8)]);
    feed(&mut g, b"\x1b[2J");
    assert!(places(&g).is_empty());
}

#[test]
fn colors_are_named_in_four_ways() {
    assert_eq!(parse_color_spec(b"#ff8000"), Some((255, 128, 0)));
    assert_eq!(parse_color_spec(b"ff8000"), Some((255, 128, 0)));
    assert_eq!(parse_color_spec(b"rgb:65535/0/257"), Some((255, 0, 1)));
    assert_eq!(parse_color_spec(b"65535/0/257"), Some((255, 0, 1)));
    assert_eq!(parse_color_spec(b"10/2/3"), Some((0, 0, 0)));
    assert_eq!(parse_color_spec(b"rgb:1/2"), None);
    assert_eq!(parse_color_spec(b"65536/0/0"), None);
    assert_eq!(parse_color_spec(b"red"), None);
}

#[test]
fn legacy_mouse_coordinates_are_capped() {
    let event = mouse_event(Some(MouseButton::Left), MouseEventType::Press, 500, 224, &plain());
    let bytes = mouse_bytes(&event, MouseEncoding::X10).unwrap();
    assert_eq!(String::from_utf8(bytes).unwrap(), "\x1b[M \u{ff}\u{ff}");
    let event = mouse_event(Some(MouseButton::Other(250)), MouseEventType::Press, 1, 1, &plain());
    assert_eq!(mouse_bytes(&event, MouseEncoding::X10), None);
}

#[test]
fn unknown_underline_styles_are_single() {
    let mut attrs = Attrs::default();
    attrs.set_underline_style(5);
    assert_eq!(attrs.underline_style(), 5);
    attrs.set_underline_style(6);
    assert_eq!(attrs.underline_style(), 1);
    assert!(attrs.underline());
}

#[test]
fn an_operating_system_command_rings_the_bell() {
    let mut g = grid(10, 3);
    feed(&mut g, b"\x1b]9;7\x07");
    assert!(g.take_bell());
    assert_eq!(g.take_notification(), None);
    feed(&mut g, b"\x1b]9;done\x07");
    assert!(!g.take_bell());
    assert_eq!(g.take_notification(), Some("done".to_string()));
}

#[test]
fn a_column_switch_empties_the_screen() {
    let mut g = grid(80, 4);
    feed(&mut g, b"0123456789\x1b[?69h\x1b[3;5s\x1b[?3h");
    assert_eq!(g.screen.cols, 80);
    assert_eq!(g.line_to_string(0).trim_end(), "");
    assert_eq!((g.left_margin(), g.right_margin()), (0, 79));
    assert!(!g.margins.horizontal);
}

#[test]
fn the_policy_decides_on_titles() {
    assert_eq!(window_title(true, "shell"), Some("shell"));
    assert_eq!(window_title(true, ""), None);
    assert_eq!(window_title(false, "shell"), None);
}

#[test]
fn a_soft_reset_keeps_the_scrollback() {
    let mut g = grid(10, 2);
    feed(&mut g, b"one\r\ntwo\r\nthree\r\nfour\x1b[!p");
    assert_eq!(g.screen.scrollback.len(), 2);
    assert_eq!(g.all_lines_with_scrollback()[0].trim_end(), "one");
    assert_eq!(g.line_to_string(0).trim_end(), "");
}

#[test]
fn pruning_forgets_only_unused_links() {
    let mut g = grid(10, 2);
    feed(&mut g, b"\x1b]8;id=5;https://a.org\x07x\x1b]8;;\x07");
    feed(&mut g, b"\x1b]8;id=6;https://b.org\x07\x1b]8;;\x07");
    assert_eq!(g.links.hyperlinks.len(), 2);
    g.prune_hyperlinks();
    assert_eq!(g.links.hyperlinks.len(), 1);
    assert_eq!(g.get_hyperlink_at(0, 0), Some("https://a.org"));
    feed(&mut g, b"\r\n\r\n\r\n");
    g.prune_hyperlinks();
    assert_eq!(g.links.hyperlinks.len(), 1);
}

#[test]
fn an_unscrolled_view_is_the_screen() {
    let mut g = grid(10, 2);
    feed(&mut g, b"one\r\ntwo\r\nsix");
    assert_eq!(g.cell_at_view(0, 1).map(|c| c.ch), Some('s'));
    g.set_scroll_offset(1);
    assert_eq!(g.cell_at_view(0, 0).map(|c| c.ch), Some('o'));
    assert_eq!(g.cell_at_view(0, 1).map(|c| c.ch), Some('t'));
    assert_eq!(g.cell_at_view(0, 2).map(|c| c.ch), None);
}
