//! The grid, driven through the parser.
use base64::Engine as _;
use terminal::grid::graphics::read_graphics_file;
use terminal::grid::{Color, ColorPalette, Grid, MouseEncoding, WinSize};
use terminal::parser::Parser;

use terminal::mouse::{MouseButton, MouseEvent, MouseEventType};

fn make_grid(cols: u16, rows: u16) -> Grid {
    Grid::new(WinSize { cols, rows }, 1000)
}

fn feed(grid: &mut Grid, input: &[u8]) {
    let mut parser = Parser::new();
    for &b in input {
        parser.advance(grid, b);
    }
}

// -- Basic printing --

#[test]
fn test_print_single_char() {
    let mut g = make_grid(10, 5);
    feed(&mut g, b"A");
    assert_eq!(g.cell(0, 0).ch, 'A');
    assert_eq!(g.cursor.col, 1);
    assert_eq!(g.cursor.row, 0);
}

#[test]
fn test_kitty_graphics_places_rgb_image() {
    let mut g = make_grid(80, 24);
    // 2x1 RGB24 image (f=24): red, green.
    let raw = [255u8, 0, 0, 0, 255, 0];
    let b64 = base64::engine::general_purpose::STANDARD.encode(raw);
    let mut seq = format!("\x1b_Ga=T,f=24,s=2,v=1;{b64}").into_bytes();
    seq.extend_from_slice(b"\x1b\\");
    feed(&mut g, &seq);

    assert_eq!(g.screen.sixel_images.len(), 1);
    let p = &g.screen.sixel_images[0];
    assert_eq!(p.image.width, 2);
    assert_eq!(p.image.height, 1);
    assert_eq!(p.image.rgba, vec![255, 0, 0, 255, 0, 255, 0, 255]);
    assert_eq!((p.col, p.row), (0, 0));
}

#[test]
fn test_kitty_graphics_places_rgba_image() {
    let mut g = make_grid(80, 24);
    // 2x1 RGBA image (f=32, the default): red@255, green@128.
    let raw = [255u8, 0, 0, 255, 0, 255, 0, 128];
    let b64 = base64::engine::general_purpose::STANDARD.encode(raw);
    let mut seq = format!("\x1b_Ga=T,f=32,s=2,v=1;{b64}").into_bytes();
    seq.extend_from_slice(b"\x1b\\");
    feed(&mut g, &seq);

    assert_eq!(g.screen.sixel_images.len(), 1);
    let p = &g.screen.sixel_images[0];
    assert_eq!(p.image.rgba, vec![255, 0, 0, 255, 0, 255, 0, 128]);
}

#[test]
fn test_kitty_graphics_chunked() {
    let mut g = make_grid(80, 24);
    let raw = [255u8, 0, 0, 0, 255, 0];
    let b64 = base64::engine::general_purpose::STANDARD.encode(raw);
    let (c1, c2) = b64.split_at(b64.len() / 2);
    let mut seq = format!("\x1b_Ga=T,f=24,s=2,v=1,m=1;{c1}").into_bytes();
    seq.extend_from_slice(b"\x1b\\");
    seq.extend_from_slice(format!("\x1b_Gm=0;{c2}").as_bytes());
    seq.extend_from_slice(b"\x1b\\");
    feed(&mut g, &seq);

    assert_eq!(g.screen.sixel_images.len(), 1);
    assert_eq!(
        g.screen.sixel_images[0].image.rgba,
        vec![255, 0, 0, 255, 0, 255, 0, 255]
    );
}

#[test]
fn test_kitty_graphics_png() {
    let mut g = make_grid(80, 24);
    // Encode a 2x1 RGB PNG with the `png` crate, then transmit it as f=100.
    let mut png_bytes = Vec::new();
    {
        let mut enc = png::Encoder::new(&mut png_bytes, 2, 1);
        enc.set_color(png::ColorType::Rgb);
        enc.set_depth(png::BitDepth::Eight);
        let mut writer = enc.write_header().expect("png header");
        writer
            .write_image_data(&[255, 0, 0, 0, 255, 0])
            .expect("png data");
    }
    let b64 = base64::engine::general_purpose::STANDARD.encode(&png_bytes);
    let mut seq = format!("\x1b_Ga=T,f=100;{b64}").into_bytes();
    seq.extend_from_slice(b"\x1b\\");
    feed(&mut g, &seq);

    assert_eq!(g.screen.sixel_images.len(), 1);
    let p = &g.screen.sixel_images[0];
    assert_eq!((p.image.width, p.image.height), (2, 1));
    assert_eq!(p.image.rgba, vec![255, 0, 0, 255, 0, 255, 0, 255]);
}

#[test]
fn test_kitty_graphics_transmit_put_delete() {
    let mut g = make_grid(80, 24);
    let raw = [255u8, 0, 0, 255]; // 1x1 RGBA red
    let b64 = base64::engine::general_purpose::STANDARD.encode(raw);

    // Transmit only (a=t,i=7): stores the image, replies OK, no placement.
    let mut seq = format!("\x1b_Ga=t,i=7,f=32,s=1,v=1;{b64}").into_bytes();
    seq.extend_from_slice(b"\x1b\\");
    feed(&mut g, &seq);
    assert_eq!(g.screen.sixel_images.len(), 0);
    assert_eq!(g.graphics.kitty_images.len(), 1);
    assert_eq!(g.take_responses(), vec![b"\x1b_Gi=7;OK\x1b\\".to_vec()]);

    // Put (a=p,i=7): displays the stored image and replies OK.
    let seq = b"\x1b_Ga=p,i=7;\x1b\\".to_vec();
    feed(&mut g, &seq);
    assert_eq!(g.screen.sixel_images.len(), 1);
    assert_eq!(g.screen.sixel_images[0].image_id, 7);
    assert_eq!(g.take_responses(), vec![b"\x1b_Gi=7;OK\x1b\\".to_vec()]);

    // Put an unknown id replies ENOENT and places nothing.
    feed(&mut g, b"\x1b_Ga=p,i=999;\x1b\\");
    assert_eq!(g.screen.sixel_images.len(), 1);
    assert_eq!(
        g.take_responses(),
        vec![b"\x1b_Gi=999;ENOENT:no such image\x1b\\".to_vec()]
    );

    // Delete (a=d,i=7) removes the stored image and its placement.
    feed(&mut g, b"\x1b_Ga=d,d=I,i=7;\x1b\\");
    assert!(g.graphics.kitty_images.is_empty());
    assert!(g.screen.sixel_images.is_empty());
}

#[test]
fn test_kitty_graphics_query() {
    let mut g = make_grid(80, 24);
    feed(&mut g, b"\x1b_Ga=q,i=1;\x1b\\");
    assert_eq!(g.take_responses(), vec![b"\x1b_Gi=1;OK\x1b\\".to_vec()]);
    assert!(g.graphics.kitty_images.is_empty());
    assert!(g.screen.sixel_images.is_empty());
}

#[test]
fn test_kitty_graphics_file_transmission() {
    let mut g = make_grid(80, 24);
    // The file is a 1x1 RGBA red image.
    let path_str = "/srv/images/img.rgba";
    let b64 = base64::engine::general_purpose::STANDARD.encode(path_str.as_bytes());

    // t=f,f=32,s=1,v=1 → read the file as raw RGBA.
    let mut seq = format!("\x1b_Ga=T,f=32,s=1,v=1,t=f;{b64}").into_bytes();
    seq.extend_from_slice(b"\x1b\\");
    feed(&mut g, &seq);
    let files = g.take_kitty_files();
    assert_eq!(files.len(), 1);
    for file in files {
        assert_eq!(file.path, path_str);
        assert!(read_graphics_file(&file.path, true, 4).is_none());
        g.complete_kitty_file(file, Ok(vec![255, 0, 0, 255]));
    }
    assert_eq!(g.screen.sixel_images.len(), 1);
    assert_eq!(g.screen.sixel_images[0].image.rgba, vec![255, 0, 0, 255]);

    // Sensitive path is refused.
    let blocked = base64::engine::general_purpose::STANDARD.encode(b"/proc/self/mem");
    let mut seq = format!("\x1b_Ga=t,i=9,f=32,s=1,v=1,t=f;{blocked}").into_bytes();
    seq.extend_from_slice(b"\x1b\\");
    feed(&mut g, &seq);
    for file in g.take_kitty_files() {
        let fault = read_graphics_file(&file.path, true, 4).expect("sensitive path must be refused");
        g.complete_kitty_file(file, Err(String::from_utf8(fault).unwrap()));
    }
    assert!(g.graphics.kitty_images.is_empty(), "sensitive path must be refused");
    assert!(g.take_responses()[0].windows(3).any(|w| w == b"EIO"));
}

#[test]
fn test_print_multiple_chars() {
    let mut g = make_grid(10, 5);
    feed(&mut g, b"Hello");
    assert_eq!(g.cell(0, 0).ch, 'H');
    assert_eq!(g.cell(4, 0).ch, 'o');
    assert_eq!(g.cursor.col, 5);
}

#[test]
fn test_print_wraps_to_next_line() {
    let mut g = make_grid(5, 5);
    feed(&mut g, b"123456789");
    // First line: 12345, wraps at col 5
    assert_eq!(g.cell(0, 0).ch, '1');
    assert_eq!(g.cell(4, 0).ch, '5');
    // Second line: 6789
    assert_eq!(g.cell(0, 1).ch, '6');
    assert_eq!(g.cell(3, 1).ch, '9');
    assert_eq!(g.cursor.col, 4);
    assert_eq!(g.cursor.row, 1);
}

// -- Cursor movement --

#[test]
fn test_cursor_up() {
    let mut g = make_grid(10, 5);
    feed(&mut g, b"\x1b[3A"); // move up 3
    assert_eq!(g.cursor.row, 0); // can't go above 0
    assert_eq!(g.cursor.col, 0);
}

#[test]
fn test_cursor_down() {
    let mut g = make_grid(10, 5);
    feed(&mut g, b"\x1b[3B"); // move down 3
    assert_eq!(g.cursor.row, 3); // 0-indexed, 1-based param
}

#[test]
fn test_cursor_forward() {
    let mut g = make_grid(10, 5);
    feed(&mut g, b"\x1b[5C"); // move right 5
    assert_eq!(g.cursor.col, 5);
}

#[test]
fn test_cursor_position() {
    let mut g = make_grid(10, 5);
    feed(&mut g, b"\x1b[3;7H"); // row 3, col 7
    assert_eq!(g.cursor.row, 2); // 0-indexed
    assert_eq!(g.cursor.col, 6);
}

// -- Scrolling --

#[test]
fn test_scroll_up_on_overflow() {
    let mut g = make_grid(10, 3);
    // Fill 3 lines
    feed(&mut g, b"Line1\r\nLine2\r\nLine3\r\n");
    assert_eq!(g.cursor.row, 2);
    // Print one more line — should scroll
    feed(&mut g, b"Line4\r\n");
    // After scroll, "Line1" should be in scrollback
    assert!(!g.screen.scrollback.is_empty());
    // Cursor should still be on row 2
    assert_eq!(g.cursor.row, 2);
}

#[test]
fn test_scroll_region() {
    let mut g = make_grid(10, 5);
    // Set scroll region to rows 2-4 (1-indexed: 3;5r)
    feed(&mut g, b"\x1b[3;5r");
    assert_eq!(g.margins.top, 2);
    assert_eq!(g.margins.bottom, 4);
}

// -- Erase operations --

#[test]
fn test_erase_display() {
    let mut g = make_grid(10, 3);
    feed(&mut g, b"Hello");
    assert_eq!(g.cell(0, 0).ch, 'H');
    // ED 2 = clear entire screen
    feed(&mut g, b"\x1b[2J");
    assert_eq!(g.cell(0, 0).ch, ' ');
}

#[test]
fn test_erase_line() {
    let mut g = make_grid(10, 3);
    feed(&mut g, b"Hello");
    g.cursor.col = 2; // move to col 2
                      // EL 0 = clear from cursor to end of line
    feed(&mut g, b"\x1b[0K");
    assert_eq!(g.cell(0, 0).ch, 'H');
    assert_eq!(g.cell(1, 0).ch, 'e');
    assert_eq!(g.cell(2, 0).ch, ' '); // cleared
}

// -- SGR (colors and attributes) --

#[test]
fn mod_test_sgr_bold() {
    let mut g = make_grid(10, 3);
    feed(&mut g, b"\x1b[1mB");
    assert!(g.cell(0, 0).attrs.bold());
}

#[test]
fn test_sgr_foreground_color() {
    let mut g = make_grid(10, 3);
    feed(&mut g, b"\x1b[31mR"); // red foreground
    assert_eq!(g.cell(0, 0).fg, Color::Indexed(1));
}

#[test]
fn test_sgr_background_color() {
    let mut g = make_grid(10, 3);
    feed(&mut g, b"\x1b[44mB"); // blue background
    assert_eq!(g.cell(0, 0).bg, Color::Indexed(4));
}

#[test]
fn test_sgr_truecolor() {
    let mut g = make_grid(10, 3);
    feed(&mut g, b"\x1b[38;2;100;200;50mT"); // truecolor fg
    assert_eq!(g.cell(0, 0).fg, Color::Rgb(100, 200, 50));
}

#[test]
fn test_sgr_reset() {
    let mut g = make_grid(10, 3);
    feed(&mut g, b"\x1b[1;31mRB\x1b[0mX");
    assert!(g.cell(0, 0).attrs.bold());
    assert_eq!(g.cell(0, 0).fg, Color::Indexed(1));
    // After reset, 'X' should have default attributes
    assert!(!g.cell(2, 0).attrs.bold());
    assert_eq!(g.cell(2, 0).fg, Color::Default);
}

// -- Alternate screen --

#[test]
fn mod_test_alternate_screen() {
    let mut g = make_grid(10, 3);
    feed(&mut g, b"Hello"); // write to primary
    assert_eq!(g.cell(0, 0).ch, 'H');

    // Enter alternate screen
    feed(&mut g, b"\x1b[?1049h");
    assert!(g.screen.alt_active);
    assert_eq!(g.cell(0, 0).ch, ' '); // alt screen is empty

    // Write to alt screen
    feed(&mut g, b"Alt");
    assert_eq!(g.cell(0, 0).ch, 'A');

    // Exit alt screen — primary should be restored
    feed(&mut g, b"\x1b[?1049l");
    assert!(!g.screen.alt_active);
    assert_eq!(g.cell(0, 0).ch, 'H'); // primary preserved
}

#[test]
fn test_cursor_restore_on_exit_alt() {
    let mut g = make_grid(10, 5);
    // Move cursor to specific position, then enter alt screen
    feed(&mut g, b"\x1b[3;5H"); // row 3, col 5
    let saved_row = g.cursor.row;
    let saved_col = g.cursor.col;

    feed(&mut g, b"\x1b[?1049h"); // enter alt
                                  // Cursor should be at 0,0 in alt screen
    assert_eq!(g.cursor.row, 0);
    assert_eq!(g.cursor.col, 0);

    feed(&mut g, b"\x1b[?1049l"); // exit alt
                                  // Cursor should be restored to where it was before entering alt
    assert_eq!(g.cursor.row, saved_row);
    assert_eq!(g.cursor.col, saved_col);
}

// -- DECTCEM (cursor visibility) --

#[test]
fn mod_test_cursor_visibility() {
    let mut g = make_grid(10, 3);
    assert!(g.modes.cursor_visible); // default visible

    feed(&mut g, b"\x1b[?25l"); // hide cursor
    assert!(!g.modes.cursor_visible);

    feed(&mut g, b"\x1b[?25h"); // show cursor
    assert!(g.modes.cursor_visible);
}

// -- Resize --

#[test]
fn test_resize_larger() {
    let mut g = make_grid(5, 3);
    feed(&mut g, b"Hello");
    g.resize(WinSize { cols: 10, rows: 5 });
    assert_eq!(g.screen.cols, 10);
    assert_eq!(g.screen.rows, 5);
    assert_eq!(g.cell(0, 0).ch, 'H'); // content preserved
}

#[test]
fn test_resize_reflows_primary_scrollback_without_losing_text() {
    let mut g = make_grid(6, 3);
    feed(&mut g, b"abcdef\n123456\nuvwxyz\nlast");
    assert!(!g.screen.scrollback.is_empty());

    g.resize(WinSize { cols: 4, rows: 3 });

    let text = g.all_lines_with_scrollback().join("");
    assert!(text.contains("abcdef"));
    assert!(text.contains("123456"));
    assert!(text.contains("uvwxyz"));
}

#[test]
fn test_resize_smaller() {
    let mut g = make_grid(10, 5);
    feed(&mut g, b"Hello");
    g.resize(WinSize { cols: 3, rows: 2 });
    assert_eq!(g.screen.cols, 3);
    assert_eq!(g.screen.rows, 2);
    // First 3 chars should still be there
    assert_eq!(g.cell(0, 0).ch, 'H');
    assert_eq!(g.cell(2, 0).ch, 'l');
}

// -- Backspace --

#[test]
fn mod_test_backspace() {
    let mut g = make_grid(10, 3);
    feed(&mut g, b"AB\x08"); // BS
    assert_eq!(g.cursor.col, 1); // moved back
}

// -- Tab --

#[test]
fn test_horizontal_tab() {
    let mut g = make_grid(20, 3);
    feed(&mut g, b"\t"); // HT
    assert_eq!(g.cursor.col, 8); // tab stop at 8
}

// -- Carriage return --

#[test]
fn mod_test_carriage_return() {
    let mut g = make_grid(10, 3);
    feed(&mut g, b"ABC\r");
    assert_eq!(g.cursor.col, 0); // back to column 0
}

// -- Wide characters --

#[test]
fn test_wide_character() {
    let mut g = make_grid(10, 3);
    // '中' is a double-width character (U+4E2D, UTF-8: 0xE4 0xB8 0xAD)
    feed(&mut g, "中".as_bytes());
    // After printing a wide char, cursor should advance by 2
    assert_eq!(g.cursor.col, 2);
    // The second cell should be marked as wide_filler
    assert!(g.cell(1, 0).wide_filler);
}

// -- Line feed at bottom with scroll region --

#[test]
fn test_lf_at_scroll_bottom() {
    let mut g = make_grid(10, 3);
    // Move to bottom row
    feed(&mut g, b"\x1b[3;1H"); // row 3
    assert_eq!(g.cursor.row, 2);

    // Print LF at bottom — should scroll
    feed(&mut g, b"\n");
    // Cursor should stay at row 2 (scroll happened)
    assert_eq!(g.cursor.row, 2);
}

#[test]
fn test_consecutive_lf_batched_into_single_scroll() {
    // The batch path (advance_bytes) must collapse a run of LFs into one
    // scroll instead of scrolling per-LF.
    let mut g = make_grid(10, 3);
    g.cursor = terminal::grid::Cursor { col: 0, row: 2 };
    let mut p = Parser::new();
    p.advance_bytes(&mut g, b"\n\n\n\n");
    // 4 LFs from the bottom of a 3-row screen scroll exactly 3 lines
    // (the region clamps), and the cursor stays at the bottom.
    assert_eq!(g.cursor.row, 2);
    assert_eq!(g.screen.scrollback.len(), 3);
    // All scrolled-off rows were blank (grid started empty).
    for line in g.screen.scrollback.iter() {
        assert!(line.iter().all(|c| c.ch == ' '));
    }
}

#[test]
fn test_erase_line_at_pending_wrap_does_not_panic() {
    // Fuzz-found: after filling a row the cursor sits one column past the
    // end (pending wrap). EL mode 1 from that state used to index out of
    // bounds; it must clamp to the row length.
    let mut g = make_grid(10, 3);
    feed(&mut g, b"abcdefghij"); // fills row 0, cursor.col == 10
    assert_eq!(g.cursor.col, 10);
    feed(&mut g, b"\x1b[1K"); // EL mode 1 — must not panic
    assert_eq!(g.cursor.col, 10);
    // ED mode 1 has the same shape.
    feed(&mut g, b"\x1b[1J");
    assert_eq!(g.cursor.col, 10);
}

#[test]
fn test_scrollback_eviction_recycles_blanks() {
    // Heavy scrolling past a tiny scrollback exercises the blank-row
    // recycle path: evicted rows are reset and reused, and the grid must
    // stay correct (bounded scrollback, newest lines kept, clean blanks).
    let mut g = make_grid(10, 3);
    g.screen.scrollback_capacity = 2;
    let mut p = Parser::new();
    let mut payload = Vec::new();
    for i in 0..6 {
        payload.extend_from_slice(format!("LINE{i}\r\n").as_bytes());
    }
    p.advance_bytes(&mut g, &payload);
    // Scrollback bounded by capacity; oldest scrolled lines evicted.
    assert_eq!(g.screen.scrollback.len(), 2);
    assert_eq!(g.screen.scrollback[0][0].ch, 'L');
    assert_eq!(g.screen.scrollback[0][4].ch, '2');
    assert_eq!(g.screen.scrollback[1][4].ch, '3');
    // Visible rows hold the newest lines; the bottom is a clean blank.
    assert_eq!(g.cell(4, 0).ch, '4');
    assert_eq!(g.cell(4, 1).ch, '5');
    for c in 0..10 {
        assert_eq!(g.cell(c, 2).ch, ' ');
    }
}

// -- IL/DL act from the cursor row (T1-3) --

#[test]
fn test_il_inserts_at_cursor_row() {
    let mut g = make_grid(10, 5);
    feed(&mut g, b"L0\r\nL1\r\nL2\r\nL3\r\nL4");
    // Cursor at row 1 (after "L1\r\n"), insert 1 line
    g.cursor = terminal::grid::Cursor { col: 0, row: 1 };
    let sb_before = g.screen.scrollback.len();
    feed(&mut g, b"\x1b[1L");
    // Row 1 should now be blank; L1..L3 shifted down; L4 fell off.
    assert_eq!(g.cell(0, 1).ch, ' ');
    assert_eq!(g.cell(0, 2).ch, 'L');
    assert_eq!(g.cell(1, 2).ch, '1');
    assert_eq!(g.cell(0, 3).ch, 'L');
    assert_eq!(g.cell(1, 3).ch, '2');
    // Row 0 untouched
    assert_eq!(g.cell(0, 0).ch, 'L');
    assert_eq!(g.cell(1, 0).ch, '0');
    // IL must not add to scrollback
    assert_eq!(g.screen.scrollback.len(), sb_before);
}

#[test]
fn test_dl_deletes_at_cursor_row() {
    let mut g = make_grid(10, 5);
    feed(&mut g, b"L0\r\nL1\r\nL2\r\nL3\r\nL4");
    g.cursor = terminal::grid::Cursor { col: 0, row: 1 };
    let sb_before = g.screen.scrollback.len();
    feed(&mut g, b"\x1b[1M");
    // L1 deleted; L2 moved up into row 1.
    assert_eq!(g.cell(1, 1).ch, '2');
    assert_eq!(g.cell(1, 2).ch, '3');
    assert_eq!(g.cell(1, 3).ch, '4');
    // Bottom row blanked
    assert_eq!(g.cell(0, 4).ch, ' ');
    // Row 0 untouched
    assert_eq!(g.cell(1, 0).ch, '0');
    // DL'd lines are lost, never saved to scrollback
    assert_eq!(g.screen.scrollback.len(), sb_before);
}

#[test]
fn test_il_dl_noop_outside_scroll_region() {
    let mut g = make_grid(10, 5);
    // Region rows 2-4 (1-indexed 3;5r); cursor parked above it at row 0.
    feed(&mut g, b"\x1b[3;5r\x1b[H");
    assert_eq!(g.cursor.row, 0);
    feed(&mut g, b"\x1b[1L");
    feed(&mut g, b"\x1b[1M");
    // No effect on row 0 and no crash; region untouched as well.
    assert_eq!(g.cursor.row, 0);
}

// -- Zero-width combining characters (T1-8) --

#[test]
fn test_combining_mark_preserves_base_char() {
    let mut g = make_grid(10, 3);
    // "e" + U+0301 (combining acute accent, width 0). The mark must not
    // clobber the base character or consume a cell.
    feed(&mut g, b"e\xcc\x81x");
    assert_eq!(g.cell(0, 0).ch, 'e'); // base preserved
    assert_eq!(g.cell(0, 0).combining.as_deref(), Some("\u{0301}"));
    assert_eq!(g.cell(1, 0).ch, 'x'); // next char lands in col 1
    assert_eq!(g.cursor.col, 2); // only 2 cells consumed
}

#[test]
fn test_arbitrary_combining_tail_remains_attached() {
    let mut g = make_grid(10, 3);
    feed(
        &mut g,
        b"a\xcc\x81\xcc\x82\xe2\x80\x8d\xef\xb8\x8f\xcc\x80b",
    );
    assert_eq!(
        g.cell(0, 0).combining.as_deref(),
        Some("\u{0301}\u{0302}\u{200d}\u{fe0f}\u{0300}")
    );
    assert_eq!(g.cell(1, 0).ch, 'b');
    assert_eq!(g.line_to_string(0).chars().count(), 15);
}

#[test]
fn test_multiple_combining_marks_remain_attached() {
    let mut g = make_grid(10, 3);
    feed(&mut g, b"a\xcc\x81\xcc\x82b");
    assert_eq!(g.cell(0, 0).combining.as_deref(), Some("\u{0301}\u{0302}"));
    assert_eq!(g.cell(1, 0).ch, 'b');
}

#[test]
fn test_combining_mark_at_col0_is_dropped() {
    let mut g = make_grid(10, 3);
    feed(&mut g, b"\xcc\x81x"); // leading mark with no base cell
    assert_eq!(g.cell(0, 0).ch, 'x');
    assert_eq!(g.cursor.col, 1);
}

// -- OSC title --

#[test]
fn test_osc_title_does_not_crash() {
    let mut g = make_grid(10, 3);
    // OSC 0 ; title BEL
    feed(&mut g, b"\x1b]0;My Title\x07");
    // No crash, title is logged
}

// -- Full reset (RIS) --

#[test]
fn test_full_reset() {
    let mut g = make_grid(10, 3);
    feed(&mut g, b"\x1b[1mB"); // bold + print B
    assert!(g.cell(0, 0).attrs.bold());
    assert_eq!(g.cell(0, 0).ch, 'B');

    feed(&mut g, b"\x1bc"); // RIS
    assert_eq!(g.cell(0, 0).ch, ' ');
    assert!(!g.cell(0, 0).attrs.bold());
    assert!(g.modes.cursor_visible); // reset
}

// -- OSC title --

#[test]
fn test_osc_title_sets_palette() {
    let mut g = make_grid(10, 3);
    // OSC 2 ; title BEL
    feed(&mut g, b"\x1b]2;My Terminal\x07");
    assert_eq!(g.palette.title, "My Terminal");
}

// -- OSC color palette --

#[test]
fn test_osc4_set_color() {
    let mut g = make_grid(10, 3);
    // OSC 4 ; 0 ; #FF0000 BEL (set color 0 to red)
    // Parser splits at ;, so params = ["4", "0", "#FF0000"]
    feed(&mut g, b"\x1b]4;0;#FF0000\x07");
    assert_eq!(g.palette.get_color(0), Some((255, 0, 0)));
}

#[test]
fn test_osc10_set_fg() {
    let mut g = make_grid(10, 3);
    // OSC 10 ; #00FF00 BEL (set fg to green)
    // Parser splits at ;, so params = ["10", "#00FF00"]
    feed(&mut g, b"\x1b]10;#00FF00\x07");
    assert_eq!(g.palette.default_fg, (0, 255, 0));
}

#[test]
fn test_osc11_set_bg() {
    let mut g = make_grid(10, 3);
    // OSC 11 ; #0000FF BEL (set bg to blue)
    // Parser splits at ;, so params = ["11", "#0000FF"]
    feed(&mut g, b"\x1b]11;#0000FF\x07");
    assert_eq!(g.palette.default_bg, (0, 0, 255));
}

#[test]
fn test_osc12_set_cursor_color() {
    let mut g = make_grid(10, 3);
    // OSC 12 ; #FFFF00 BEL (set cursor to yellow)
    // Parser splits at ;, so params = ["12", "#FFFF00"]
    feed(&mut g, b"\x1b]12;#FFFF00\x07");
    assert_eq!(g.palette.cursor_color, (255, 255, 0));
}

#[test]
fn test_osc104_reset_palette() {
    let mut g = make_grid(10, 3);
    // First modify a color
    feed(&mut g, b"\x1b]4;0;#FF0000\x07");
    assert_eq!(g.palette.get_color(0), Some((255, 0, 0)));
    // Then reset
    feed(&mut g, b"\x1b]104\x07");
    // Should be back to default black
    assert_eq!(g.palette.get_color(0), Some((0, 0, 0)));
}

#[test]
fn test_osc112_reset_cursor_color() {
    let mut g = make_grid(10, 3);
    // Modify cursor color
    feed(&mut g, b"\x1b]12;#FFFF00\x07");
    assert_eq!(g.palette.cursor_color, (255, 255, 0));
    // Reset
    feed(&mut g, b"\x1b]112\x07");
    // Should be back to default blue
    assert_eq!(g.palette.cursor_color, (137, 180, 250));
}

// -- OSC 52 clipboard (T1-6) --

#[test]
fn test_osc52_set_records_request() {
    let mut g = make_grid(10, 3);
    // OSC 52 ; c ; base64("hello world") BEL
    feed(&mut g, b"\x1b]52;c;aGVsbG8gd29ybGQ=\x07");
    assert_eq!(g.outbox.clipboard_set.take(), Some("hello world".to_string()));
    assert!(!g.outbox.clipboard_query_requested);
}

#[test]
fn test_osc52_query_sets_flag() {
    let mut g = make_grid(10, 3);
    feed(&mut g, b"\x1b]52;c;?\x07");
    assert!(g.outbox.clipboard_query_requested);
    assert!(g.outbox.clipboard_set.is_none());
}

#[test]
fn test_osc52_st_terminated() {
    // OSC 52 terminated by ESC \ (ST) — exercises the T1-2 fix path too.
    let mut g = make_grid(10, 3);
    feed(&mut g, b"\x1b]52;c;aGk=\x1b\\");
    assert_eq!(g.outbox.clipboard_set.take(), Some("hi".to_string()));
}

// -- Bracketed paste mode --

#[test]
fn test_bracketed_paste_mode() {
    let mut g = make_grid(10, 3);
    assert!(!g.modes.bracketed_paste); // default disabled

    feed(&mut g, b"\x1b[?2004h"); // enable
    assert!(g.modes.bracketed_paste);

    feed(&mut g, b"\x1b[?2004l"); // disable
    assert!(!g.modes.bracketed_paste);
}

// -- Bell --

#[test]
fn test_bell_sets_pending() {
    let mut g = make_grid(10, 3);
    assert!(!g.outbox.bell_pending);

    feed(&mut g, b"\x07"); // BEL
    assert!(g.outbox.bell_pending);
}

// -- Color palette --

#[test]
fn test_color_palette_rgb_conversion() {
    let palette = ColorPalette::default();
    let color = Color::Indexed(1); // Red
    assert_eq!(color.to_rgb(&palette), Some((205, 49, 49)));
}

#[test]
fn test_color_palette_custom_color() {
    let mut palette = ColorPalette::default();
    palette.set_color(100, 123, 45, 67);
    assert_eq!(palette.get_color(100), Some((123, 45, 67)));
}

#[test]
fn test_dirty_cells_after_print() {
    let mut g = make_grid(10, 3);
    // Initially all cells are dirty (Cell::default sets dirty: true)
    assert!(g.has_dirty_cells());

    // Clear initial dirty flags
    let _ = g.take_dirty_cells();

    // No dirty cells now
    assert!(!g.has_dirty_cells());

    // Print some text - should mark cells dirty
    feed(&mut g, b"Hello");
    assert!(g.has_dirty_cells());

    // Take dirty cells - should return them and clear flags
    let dirty = g.take_dirty_cells();
    assert!(dirty.len() >= 5); // At least 5 cells for "Hello"

    // Second call should return empty (flags cleared)
    let dirty2 = g.take_dirty_cells();
    assert!(dirty2.is_empty());

    // No dirty cells now
    assert!(!g.has_dirty_cells());
}

#[test]
fn test_scrollback_capacity_enforcement() {
    // Grid with only 3 lines of scrollback capacity
    let mut g = Grid::new(WinSize { cols: 10, rows: 3 }, 3);

    // Fill the visible area and scroll up to generate scrollback
    feed(&mut g, b"Line1\r\nLine2\r\nLine3\r\n");
    // Cursor is now at row 3, which will cause scroll up
    feed(&mut g, b"Line4\r\n");
    feed(&mut g, b"Line5\r\n");
    feed(&mut g, b"Line6\r\n");
    feed(&mut g, b"Line7\r\n");

    // Scrollback should never exceed capacity
    assert!(g.screen.scrollback.len() <= 3);
}

// -- Scrollback view mapping (T1-4) --

#[test]
fn test_cell_at_view_no_offset_is_identity() {
    let mut g = make_grid(10, 3);
    feed(&mut g, b"ABC");
    // With no offset the view maps straight onto the live grid.
    assert_eq!(g.cell_at_view(0, 0).map(|c| c.ch), Some('A'));
    assert_eq!(g.cell_at_view(2, 0).map(|c| c.ch), Some('C'));
}

#[test]
fn test_cell_at_view_with_offset_shows_scrollback() {
    let mut g = make_grid(10, 3);
    // 5 lines through a 3-row grid → 2 lines land in scrollback.
    feed(&mut g, b"one\r\ntwo\r\nthree\r\nfour\r\nfive");
    assert_eq!(g.screen.scrollback.len(), 2);
    assert_eq!(g.cell(0, 0).ch, 't'); // live grid shows three/four/five

    // Scroll up by 1 line: top screen row shows "two" (newest scrollback).
    g.scrollback_offset = 1;
    assert_eq!(g.view_scrollback_lines(), 1);
    assert_eq!(g.cell_at_view(0, 0).map(|c| c.ch), Some('t'));
    assert_eq!(g.cell_at_view(1, 0).map(|c| c.ch), Some('w'));
    // Live grid shifts down by the offset.
    assert_eq!(g.cell_at_view(0, 1).map(|c| c.ch), Some('t')); // "three"
    assert_eq!(g.cell_at_view(0, 2).map(|c| c.ch), Some('f')); // "four"

    // Scroll up by 2 lines: both scrollback lines visible on top.
    g.scrollback_offset = 2;
    assert_eq!(g.cell_at_view(0, 0).map(|c| c.ch), Some('o')); // "one"
    assert_eq!(g.cell_at_view(0, 1).map(|c| c.ch), Some('t')); // "two"
    assert_eq!(g.cell_at_view(0, 2).map(|c| c.ch), Some('t')); // "three"

    // Offset capped by buffer size; far out-of-bounds rows return None.
    g.scrollback_offset = 5;
    assert_eq!(g.view_scrollback_lines(), 2);
    assert!(g.cell_at_view(0, g.screen.rows + 10).is_none());
    assert!(g.cell_at_view(g.screen.cols, 0).is_none());
}

// -- Device query responses (T2) --

#[test]
fn test_da1_responds_vt220() {
    let mut g = make_grid(10, 3);
    feed(&mut g, b"\x1b[c");
    let responses = g.take_responses();
    assert_eq!(responses.len(), 1);
    assert_eq!(responses[0], b"\x1b[?62;22c");
    // Second call yields nothing (outbox drained).
    assert!(g.take_responses().is_empty());
}

#[test]
fn test_da1_no_response_for_nonzero_request() {
    let mut g = make_grid(10, 3);
    feed(&mut g, b"\x1b[1c");
    assert!(g.take_responses().is_empty());
}

#[test]
fn test_da2_responds() {
    let mut g = make_grid(10, 3);
    feed(&mut g, b"\x1b[>c");
    let responses = g.take_responses();
    assert_eq!(responses.len(), 1);
    assert_eq!(responses[0], b"\x1b[>1;20;0c");
}

#[test]
fn test_dsr_ok() {
    let mut g = make_grid(10, 3);
    feed(&mut g, b"\x1b[5n");
    let responses = g.take_responses();
    assert_eq!(responses.len(), 1);
    assert_eq!(responses[0], b"\x1b[0n");
}

#[test]
fn test_cpr_reports_cursor_position() {
    let mut g = make_grid(10, 5);
    feed(&mut g, b"\x1b[3;7H\x1b[6n");
    let responses = g.take_responses();
    assert_eq!(responses.len(), 1);
    assert_eq!(responses[0], b"\x1b[3;7R");
}

#[test]
fn test_cpr_reports_origin_relative_row_with_decom() {
    let mut g = make_grid(10, 8);
    feed(&mut g, b"\x1b[3;6r\x1b[?6h\x1b[2;4H\x1b[6n");
    let responses = g.take_responses();
    assert_eq!(responses, vec![b"\x1b[2;4R".to_vec()]);
}

#[test]
fn test_decxcpr_reports_origin_relative_row_with_decom() {
    let mut g = make_grid(10, 8);
    feed(&mut g, b"\x1b[3;6r\x1b[?6h\x1b[2;4H\x1b[?6n");
    let responses = g.take_responses();
    assert_eq!(responses, vec![b"\x1b[?2;4;1R".to_vec()]);
}

#[test]
fn test_decxcpr_reports_page() {
    let mut g = make_grid(10, 5);
    feed(&mut g, b"\x1b[2;4H\x1b[?6n");
    let responses = g.take_responses();
    assert_eq!(responses.len(), 1);
    assert_eq!(responses[0], b"\x1b[?2;4;1R");
}

#[test]
fn test_decrqm_known_modes() {
    let mut g = make_grid(10, 3);
    // DECTCEM defaults to set (cursor visible).
    feed(&mut g, b"\x1b[?25$p");
    assert_eq!(g.take_responses()[0], b"\x1b[?25;1$y");
    // Hide cursor, then query again.
    feed(&mut g, b"\x1b[?25l\x1b[?25$p");
    assert_eq!(g.take_responses()[0], b"\x1b[?25;2$y");
    // Unknown private mode → 0.
    feed(&mut g, b"\x1b[?1234$p");
    assert_eq!(g.take_responses()[0], b"\x1b[?1234;0$y");
}

#[test]
fn test_decrqm_ansi_modes() {
    let mut g = make_grid(10, 3);
    // IRM (ANSI 4) is tracked; defaults to reset (Ps=2).
    feed(&mut g, b"\x1b[4$p");
    assert_eq!(g.take_responses()[0], b"\x1b[4;2$y");
    // After enabling IRM it reports set.
    feed(&mut g, b"\x1b[4h\x1b[4$p");
    assert_eq!(g.take_responses()[0], b"\x1b[4;1$y");
    // Untracked ANSI mode → Ps=0.
    feed(&mut g, b"\x1b[20$p");
    assert_eq!(g.take_responses()[0], b"\x1b[20;0$y");
}

#[test]
fn test_osc10_query_responds() {
    let mut g = make_grid(10, 3);
    feed(&mut g, b"\x1b]10;?\x07");
    let responses = g.take_responses();
    assert_eq!(responses.len(), 1);
    // Default fg is (229,229,229) → 0xe5*257 = 0xe5e5.
    assert_eq!(
        std::str::from_utf8(&responses[0]).unwrap(),
        "\x1b]10;rgb:e5e5/e5e5/e5e5\x1b\\"
    );
}

#[test]
fn test_osc11_query_after_set() {
    let mut g = make_grid(10, 3);
    feed(&mut g, b"\x1b]11;#ff0000\x07\x1b]11;?\x07");
    let responses = g.take_responses();
    assert_eq!(responses.len(), 1);
    assert_eq!(
        std::str::from_utf8(&responses[0]).unwrap(),
        "\x1b]11;rgb:ffff/0000/0000\x1b\\"
    );
}

#[test]
fn test_osc4_query_responds() {
    let mut g = make_grid(10, 3);
    feed(&mut g, b"\x1b]4;0;?\x07");
    let responses = g.take_responses();
    assert_eq!(responses.len(), 1);
    // Palette index 0 defaults to black.
    assert_eq!(
        std::str::from_utf8(&responses[0]).unwrap(),
        "\x1b]4;0;rgb:0000/0000/0000\x1b\\"
    );
}

#[test]
fn test_color_spec_formatting() {
    assert_eq!(Grid::color_spec(0, 0, 0), "rgb:0000/0000/0000");
    assert_eq!(Grid::color_spec(255, 255, 255), "rgb:ffff/ffff/ffff");
    assert_eq!(Grid::color_spec(0x80, 0, 0xff), "rgb:8080/0000/ffff");
}

// -- Tier-3 private modes --

#[test]
fn test_decckm_flag() {
    let mut g = make_grid(10, 3);
    assert!(!g.modes.application_cursor_keys);
    feed(&mut g, b"\x1b[?1h");
    assert!(g.modes.application_cursor_keys);
    feed(&mut g, b"\x1b[?1l");
    assert!(!g.modes.application_cursor_keys);
    // DECRQM reports it.
    feed(&mut g, b"\x1b[?1h\x1b[?1$p");
    assert_eq!(g.take_responses()[0], b"\x1b[?1;1$y");
}

#[test]
fn test_decom_region_relative_cup() {
    let mut g = make_grid(10, 8);
    feed(&mut g, b"\x1b[2;5r"); // scroll region rows 2..5 (1-based)
    feed(&mut g, b"\x1b[?6h"); // DECOM on — cursor homes to region top
    assert_eq!(g.cursor.row, 1); // scroll_top (0-based)
    assert_eq!(g.cursor.col, 0);
    // CUP 1;1 lands at region top, not screen top.
    feed(&mut g, b"\x1b[1;1H");
    assert_eq!(g.cursor.row, 1);
    // Row param clamps inside the region bottom (row 4, 0-based).
    feed(&mut g, b"\x1b[9;1H");
    assert_eq!(g.cursor.row, 4);
    // Reset DECOM: CUP is absolute again.
    feed(&mut g, b"\x1b[?6l\x1b[1;1H");
    assert_eq!(g.cursor.row, 0);
}

#[test]
fn test_decawm_off_clamps() {
    let mut g = make_grid(4, 3);
    feed(&mut g, b"\x1b[?7l"); // autowrap off
    feed(&mut g, b"ABCDEF");
    // No wrap: stays on row 0; last cell(s) hold the tail.
    assert_eq!(g.cursor.row, 0);
    assert_eq!(g.cell(0, 0).ch, 'A');
    assert_eq!(g.cell(3, 0).ch, 'F');
    // Autowrap back on (default behaviour): wraps again.
    feed(&mut g, b"\x1b[2J\x1b[H\x1b[?7h");
    feed(&mut g, b"ABCDE");
    assert_eq!(g.cursor.row, 1);
}

#[test]
fn test_decscnm_flag() {
    let mut g = make_grid(10, 3);
    assert!(!g.modes.screen_reverse);
    feed(&mut g, b"\x1b[?5h");
    assert!(g.modes.screen_reverse);
    feed(&mut g, b"\x1b[?5l");
    assert!(!g.modes.screen_reverse);
}

#[test]
fn test_decscusr_sets_shape() {
    let mut g = make_grid(10, 3);
    assert_eq!(g.modes.cursor_shape, 0);
    feed(&mut g, b"\x1b[4 q"); // underline steady
    assert_eq!(g.modes.cursor_shape, 4);
    feed(&mut g, b"\x1b[6 q"); // bar steady
    assert_eq!(g.modes.cursor_shape, 6);
    // Out-of-range clamps to 6.
    feed(&mut g, b"\x1b[9 q");
    assert_eq!(g.modes.cursor_shape, 6);
    // No param → 0.
    feed(&mut g, b"\x1b[ q");
    assert_eq!(g.modes.cursor_shape, 0);
}

#[test]
fn test_decaln_fills_screen() {
    let mut g = make_grid(4, 3);
    feed(&mut g, b"junk text here");
    feed(&mut g, b"\x1b#8");
    for row in 0..3 {
        for col in 0..4 {
            assert_eq!(g.cell(col, row).ch, 'E');
        }
    }
    assert_eq!(g.cursor.row, 0);
    assert_eq!(g.cursor.col, 0);
    // Scroll region reset to full screen.
    assert_eq!(g.margins.top, 0);
    assert_eq!(g.margins.bottom, 2);
}

#[test]
fn test_irm_inserts() {
    let mut g = make_grid(8, 3);
    feed(&mut g, b"ACDE");
    feed(&mut g, b"\x1b[1;2H"); // col 2 (between A and C)
    feed(&mut g, b"\x1b[4h"); // IRM on
    feed(&mut g, b"B");
    feed(&mut g, b"\x1b[4l");
    let line: String = (0..5).map(|c| g.cell(c, 0).ch).collect();
    assert_eq!(line, "ABCDE");
}

#[test]
fn test_deccolm_switches_columns() {
    let mut g = make_grid(80, 24);
    feed(&mut g, b"text\x1b[?3h"); // DECCOLM set → 80 columns, cleared
    assert_eq!(g.screen.cols, 80);
    assert_eq!(g.screen.rows, 24);
    assert_eq!(g.cursor.col, 0, "DECCOLM should home the cursor");
    assert_eq!(
        g.line_to_string(0),
        "".to_owned() + &" ".repeat(80),
        "DECCOLM should clear"
    );
    feed(&mut g, b"\x1b[?3l"); // DECCOLM reset → 132 columns
    assert_eq!(g.screen.cols, 132);
    assert_eq!(g.screen.rows, 24);
}

// -- Tier-3 Batch B: tab stops, ICH, REP, ED 3, per-screen cursor --

#[test]
fn test_tab_default_stops_every_8() {
    let g = make_grid(40, 3);
    // Power-up state: stops at 8,16,24,32 (not col 0).
    assert!(!g.tab_stops[0]);
    assert!(g.tab_stops[8]);
    assert!(!g.tab_stops[9]);
    assert!(g.tab_stops[16]);
    assert!(g.tab_stops[32]);
}

#[test]
fn test_ht_advances_to_next_stop() {
    let mut g = make_grid(40, 3);
    feed(&mut g, b"X\t"); // 'X' then tab
    assert_eq!(g.cell(0, 0).ch, 'X');
    // Cursor should land on col 8 (the next stop after col 1).
    assert_eq!(g.cursor.col, 8);
}

#[test]
fn test_hts_sets_and_tbc_clears_stop() {
    let mut g = make_grid(40, 3);
    feed(&mut g, b"\x1b[3G"); // move to col 3 (1-based)
    feed(&mut g, b"\x1bH"); // HTS — set stop at col 2
    assert!(g.tab_stops[2]);
    feed(&mut g, b"\x1b[g"); // TBC — clear stop at cursor column
    assert!(!g.tab_stops[2]);
}

#[test]
fn test_tbc_3_clears_all_stops() {
    let mut g = make_grid(40, 3);
    feed(&mut g, b"\x1b[3g"); // TBC 3 — clear all
    assert!(!g.tab_stops.iter().any(|&s| s));
}

#[test]
fn test_ich_shifts_row_right() {
    let mut g = make_grid(10, 3);
    feed(&mut g, b"ABCD");
    feed(&mut g, b"\x1b[1;2H"); // col 2 (between A and B)
    feed(&mut g, b"\x1b[2@"); // ICH 2 — insert 2 blanks
    let line: String = (0..6).map(|c| g.cell(c, 0).ch).collect();
    assert_eq!(line, "A  BCD");
    // ICH does NOT move the cursor; it stays at the insert position.
    assert_eq!(g.cursor.col, 1);
}

#[test]
fn test_rep_repeats_last_char() {
    let mut g = make_grid(10, 3);
    feed(&mut g, b"X"); // last char = 'X'
    feed(&mut g, b"\x1b[4b"); // REP 4 -> 4 more 'X' (5 total incl. original)
    let line: String = (0..5).map(|c| g.cell(c, 0).ch).collect();
    assert_eq!(line, "XXXXX");
}

#[test]
fn test_ed_3_clears_scrollback() {
    let mut g = Grid::new(WinSize { cols: 10, rows: 3 }, 100);
    feed(&mut g, b"L1\r\nL2\r\nL3\r\nL4\r\nL5"); // scrolls, builds history
    assert!(!g.screen.scrollback.is_empty());
    feed(&mut g, b"\x1b[3J"); // ED 3 — also wipe history
    assert!(g.screen.scrollback.is_empty());
}

#[test]
fn test_decsc_decre_per_screen_isolated() {
    // Save cursor on primary, switch to alternate, save a different
    // cursor, restore on each — they must not bleed across screens.
    let mut g = make_grid(10, 5);
    feed(&mut g, b"\x1b[2;3H");
    feed(&mut g, b"\x1b7"); // DECSC on primary -> (row1,col2)
    feed(&mut g, b"\x1b[?1049h"); // enter alt
    feed(&mut g, b"\x1b[4;5H");
    feed(&mut g, b"\x1b7"); // DECSC on alt -> (row3,col4)
    feed(&mut g, b"\x1b8"); // DECRC on alt -> restore alt save
    assert_eq!(g.cursor.row, 3);
    assert_eq!(g.cursor.col, 4);
    feed(&mut g, b"\x1b[?1049l"); // back to primary
    feed(&mut g, b"\x1b8"); // DECRC on primary -> restore primary save
    assert_eq!(g.cursor.row, 1);
    assert_eq!(g.cursor.col, 2);
}

// -- Tier-3 T3-8: character sets --

#[test]
fn test_dec_special_graphics_box_drawing() {
    // ESC ( 0 selects DEC Special Graphics for G0. With it active, the
    // ASCII codepoints should be remapped to box-drawing glyphs:
    // 'q' (0x71) -> '─', 'x' (0x78) -> '│', 'l' (0x6C) -> '┌'.
    let mut g = make_grid(10, 3);
    feed(&mut g, b"\x1b(0"); // designate G0 = DEC Special Graphics
    feed(&mut g, b"qxl"); // prints ─ │ ┌
    assert_eq!(g.cell(0, 0).ch, '─');
    assert_eq!(g.cell(1, 0).ch, '│');
    assert_eq!(g.cell(2, 0).ch, '┌');
}

#[test]
fn test_charset_reset_to_ascii() {
    // ESC ( B restores US ASCII; the same byte then prints literally.
    let mut g = make_grid(10, 3);
    feed(&mut g, b"\x1b(0");
    feed(&mut g, b"q"); // box-drawing ─
    assert_eq!(g.cell(0, 0).ch, '─');
    feed(&mut g, b"\x1b(B"); // back to US ASCII
    feed(&mut g, b"q"); // literal 'q'
    assert_eq!(g.cell(1, 0).ch, 'q');
}

#[test]
fn test_so_si_charset_shift() {
    // G1 can hold DEC Special Graphics; SO shifts to it, SI back to G0.
    let mut g = make_grid(10, 3);
    feed(&mut g, b"\x1b)0"); // designate G1 = DEC Special Graphics
    feed(&mut g, b"q"); // G0 still ASCII -> literal 'q'
    assert_eq!(g.cell(0, 0).ch, 'q');
    feed(&mut g, b"\x0e"); // SO -> activate G1
    feed(&mut g, b"q"); // now box-drawing ─
    assert_eq!(g.cell(1, 0).ch, '─');
    feed(&mut g, b"\x0f"); // SI -> back to G0
    feed(&mut g, b"q"); // literal 'q'
    assert_eq!(g.cell(2, 0).ch, 'q');
}

// -- Tier-3 remaining items: CBT, modified keys, DCS, OSC cap, mouse, SGR colon --

#[test]
fn test_cbt_backward_tab() {
    let mut g = make_grid(40, 3);
    feed(&mut g, b"TAB\t"); // T,A,B → col 3, HT → col 8 (stop)
    assert_eq!(g.cursor.col, 8);
    feed(&mut g, b"\x1b[Z"); // CBT -> back to col 0
    assert_eq!(g.cursor.col, 0);
}

#[test]
fn test_cht_forward_tab() {
    let mut g = make_grid(40, 3);
    feed(&mut g, b"\x1b[2I"); // CHT(2): col 0 → 8 → 16
    assert_eq!(g.cursor.col, 16);
    feed(&mut g, b"\x1b[2Z"); // CBT(2): back to col 0
    assert_eq!(g.cursor.col, 0);
    // Past the last stop → clamp to the last column.
    feed(&mut g, b"\x1b[9I");
    assert_eq!(g.cursor.col, 39);
}

// -- vt100.net research pass: DECSTR, DECREQTPARM, DECCOLM/DECSCPP,
//    DECIC/DECDC, DECFRA/DECERA, DECNKM/DECBKM --

#[test]
fn test_decstr_soft_reset() {
    let mut g = make_grid(10, 6);
    feed(&mut g, b"\x1b[?7l\x1b[4h\x1b[5;1Hxy"); // autowrap off, insert on, cursor row 4
    assert!(!g.modes.autowrap && g.modes.insert_mode);
    feed(&mut g, b"\x1b[!p"); // DECSTR
    assert!(g.modes.autowrap, "autowrap not restored");
    assert!(!g.modes.insert_mode, "insert mode not cleared");
    assert_eq!(g.cursor.row, 0, "cursor not homed");
    assert_eq!(g.cursor.col, 0);
    assert_eq!(g.line_to_string(4), "          ", "screen not cleared");
}

#[test]
fn test_decreqtparm_reports() {
    let mut g = make_grid(10, 3);
    feed(&mut g, b"\x1b[x");
    assert_eq!(
        g.take_responses(),
        vec![b"\x1b[2;1;1;112;112;1;0x".to_vec()],
        "DECREQTPARM request 0 reply wrong"
    );
    feed(&mut g, b"\x1b[1x");
    assert_eq!(
        g.take_responses(),
        vec![b"\x1b[3;1;1;112;112;1;0x".to_vec()],
        "DECREQTPARM request 1 reply wrong"
    );
}

#[test]
fn test_deccolm_and_decscpp_resize() {
    let mut g = make_grid(40, 4);
    feed(&mut g, b"hello\x1b[2;3H");
    feed(&mut g, b"\x1b[?3h"); // DECCOLM set → 80 columns
    assert_eq!(g.screen.cols, 80, "DECCOLM did not switch to 80");
    assert_eq!(g.cursor.row, 0, "DECCOLM did not home cursor");
    assert_eq!(g.cursor.col, 0);
    assert_eq!(
        g.line_to_string(0),
        "".to_owned() + &" ".repeat(80),
        "DECCOLM did not clear"
    );
    feed(&mut g, b"\x1b[132$|"); // DECSCPP 132
    assert_eq!(g.screen.cols, 132, "DECSCPP 132 failed");
    feed(&mut g, b"\x1b[?3l"); // DECCOLM reset → 132
    assert_eq!(g.screen.cols, 132, "DECCOLM reset should stay 132 (already 132)");
    assert!(
        g.outbox.window_resize_request.is_some(),
        "window resize not requested"
    );
}

#[test]
fn test_decic_and_decdc_columns() {
    let mut g = make_grid(8, 2);
    feed(&mut g, b"abcdef\x1b[4D"); // cursor at col 2
    feed(&mut g, b"\x1b['}"); // DECIC 1: insert blank column
    assert_eq!(
        g.line_to_string(0),
        "ab cdef ",
        "DECIC insert wrong: {:?}",
        g.line_to_string(0)
    );
    feed(&mut g, b"\x1b[2D\x1b['~"); // back to col 0, DECDC 1: delete col 0
    assert_eq!(
        g.line_to_string(0),
        "b cdef  ",
        "DECDC delete wrong: {:?}",
        g.line_to_string(0)
    );
}

#[test]
fn test_decfra_fills_and_decera_erases() {
    let mut g = make_grid(8, 4);
    feed(&mut g, b"\x1b[65;2;2;3;4$x"); // DECFRA: fill rows 2-3, cols 2-4 with 'A'
    assert_eq!(g.cell(1, 1).ch, 'A', "DECFRA top-left");
    assert_eq!(g.cell(3, 2).ch, 'A', "DECFRA bottom-right");
    assert_eq!(g.cell(0, 0).ch, ' ', "DECFRA leaked outside rect");
    feed(&mut g, b"\x1b[1;1;2;3$z"); // DECERA: erase rows 1-2, cols 1-3
    assert_eq!(g.cell(0, 0).ch, ' ', "DECERA top-left not erased");
    // (col 2, row 1) was filled by DECFRA and lies inside the erase
    // rectangle → blank now; (col 3, row 1) is outside it → still 'A'.
    assert_eq!(g.cell(2, 1).ch, ' ', "DECERA did not erase filled cells");
    assert_eq!(g.cell(3, 1).ch, 'A', "DECERA over-erased");
}

#[test]
fn test_decpam_decnkm_and_decbkm() {
    let mut g = make_grid(10, 3);
    feed(&mut g, b"\x1b[?66h");
    assert!(g.modes.keypad_app, "DECNKM set failed");
    feed(&mut g, b"\x1b>"); // DECPNM
    assert!(!g.modes.keypad_app, "DECPNM clear failed");
    feed(&mut g, b"\x1b="); // DECPAM
    assert!(g.modes.keypad_app, "DECPAM set failed");
    feed(&mut g, b"\x1b[?67h");
    assert!(g.modes.backarrow_del, "DECBKM set failed");
    feed(&mut g, b"\x1b[?67$p");
    assert_eq!(
        g.take_responses(),
        vec![b"\x1b[?67;1$y".to_vec()],
        "DECRQM mode 67 mismatch"
    );
}

#[test]
fn test_decslrm_margins_bound_wrap_el_and_movement() {
    let mut g = make_grid(8, 3);
    feed(&mut g, b"\x1b[?69h\x1b[3;6s"); // LRMM on, margins cols 3..6 (0-based 2..5)
    assert!(g.margins.horizontal);
    assert_eq!((g.margins.left, g.margins.right), (2, 5));
    assert_eq!(
        (g.cursor.col, g.cursor.row),
        (2, 0),
        "DECSLRM should home into the margins"
    );
    feed(&mut g, b"abcdefgh");
    // 'abcd' fills cols 2-5 of row 0; 'e' wraps to the left margin of row 1.
    assert_eq!(g.line_to_string(0), "  abcd  ");
    assert_eq!(g.line_to_string(1), "  efgh  ");
    // CUF/CUB are bounded by the margins.
    feed(&mut g, b"\x1b[3;1H"); // cursor to (2, 0)
    feed(&mut g, b"\x1b[9C"); // CUF 9 → clamped at right margin (col 5)
    assert_eq!(g.cursor.col, 5);
    feed(&mut g, b"\x1b[9D"); // CUB 9 → clamped at left margin (col 2)
    assert_eq!(g.cursor.col, 2);
    // EL 2 is bounded by the margins: only cols 2-5 of the row are wiped.
    feed(&mut g, b"\x1b[1;1H\x1b[2K");
    assert_eq!(g.line_to_string(0), "        ");
    // DECSTBM resets the left/right margins to full width.
    feed(&mut g, b"\x1b[2;2r");
    assert_eq!((g.margins.left, g.margins.right), (0, 7));
}

#[test]
fn test_decsca_protects_against_selective_erase() {
    // DECSCA 2 protects: plain EL 2 wipes everything…
    let mut g1 = make_grid(8, 2);
    feed(&mut g1, b"\x1b[2\"qab\x1b[0\"qcd\x1b[1;1H\x1b[2K");
    assert_eq!(g1.line_to_string(0), "        ");

    // …but DECSEL (?K) skips protected cells.
    let mut g2 = make_grid(8, 2);
    feed(&mut g2, b"\x1b[2\"qab\x1b[0\"qcd\x1b[1;1H\x1b[?2K");
    assert_eq!(g2.line_to_string(0), "ab      ");

    // DECSED (?J) skips protected cells too (cursor → end of screen).
    let mut g3 = make_grid(8, 2);
    feed(&mut g3, b"\x1b[2\"qab\x1b[0\"qcd\r\nxy\x1b[1;1H\x1b[?J");
    assert_eq!(g3.line_to_string(0), "ab      ");
    assert_eq!(g3.line_to_string(1), "        ");

    // DECSERA ($ {) erases a rectangle but leaves protected cells.
    let mut g4 = make_grid(8, 2);
    feed(&mut g4, b"\x1b[2\"qA\x1b[0\"qB");
    feed(&mut g4, b"\x1b[1;1;2;2${");
    assert_eq!(g4.cell(0, 0).ch, 'A', "DECSERA erased a protected cell");
    assert_eq!(g4.cell(1, 0).ch, ' ', "DECSERA left an unprotected cell");
}

#[test]
fn test_decstr_clears_protection() {
    let mut g = make_grid(8, 2);
    // DECSCA 2 protects; DECSCA and SGR are independent (VT420), so SGR
    // 0;1 restyles without losing protection.
    feed(&mut g, b"\x1b[2\"qA\x1b[0;1mB");
    assert!(g.cell(0, 0).attrs.protected(), "DECSCA 2 did not protect");
    assert!(g.cell(1, 0).attrs.bold(), "SGR 0;1 after DECSCA broke");
    assert!(
        g.cell(1, 0).attrs.protected(),
        "protection lost on SGR reset"
    );
    // DECSCA 0 clears protection for subsequent characters.
    feed(&mut g, b"\x1b[0\"qC");
    assert!(
        !g.cell(2, 0).attrs.protected(),
        "DECSCA 0 did not unprotect"
    );
    // DECSTR resets protection so selective erase wipes everything.
    feed(&mut g, b"\x1b[!p\x1b[?2K");
    assert_eq!(g.line_to_string(0), "        ");
}

#[test]
fn test_decrqss_answered() {
    // `DECRQSS m` should produce a DCS reply reporting the SGR state.
    let mut g = make_grid(10, 3);
    feed(&mut g, b"\x1bP1$qm\x1b\\"); // DCS 1 $ q  m  ST
    let resp = g.take_responses();
    assert!(resp
        .iter()
        .any(|r| r.starts_with(b"\x1bP1$r") && r.ends_with(b"\x1b\\")));
}

#[test]
fn test_sgr_colon_truecolor() {
    // T3-20: colon sub-parameters `38:2::r:g:b` (tone slot empty).
    let mut g = make_grid(10, 3);
    feed(&mut g, b"\x1b[38:2::255:0:0m");
    match g.pen.fg {
        Color::Rgb(r, gg, b) => {
            assert_eq!((r, gg, b), (255, 0, 0));
        }
        other => panic!("expected RGB, got {:?}", other),
    }
    // Background colon form as well.
    feed(&mut g, b"\x1b[48:2:0:0:255m");
    match g.pen.bg {
        Color::Rgb(r, gg, b) => {
            assert_eq!((r, gg, b), (0, 0, 255));
        }
        other => panic!("expected RGB, got {:?}", other),
    }
}

#[test]
fn test_sgr_extended_underline_styles() {
    let mut g = make_grid(10, 3);
    feed(&mut g, b"\x1b[4:2mX");
    assert_eq!(g.cell(0, 0).attrs.underline_style(), 2);
    feed(&mut g, b"\x1b[4:5mY");
    assert_eq!(g.cell(1, 0).attrs.underline_style(), 5);
    feed(&mut g, b"\x1b[24mZ");
    assert_eq!(g.cell(2, 0).attrs.underline_style(), 0);
}

#[test]
fn test_sgr_colon_indexed() {
    // T3-20: colon form of indexed color `38:5:208`.
    let mut g = make_grid(10, 3);
    feed(&mut g, b"\x1b[38:5:208m");
    match g.pen.fg {
        Color::Indexed(i) => assert_eq!(i, 208),
        other => panic!("expected Indexed, got {:?}", other),
    }
}

#[test]
fn test_mouse_urxvt_encoding() {
    // T3-19: mode 1015 emits urxvt-style `CSI Cb ; Cx ; Cy M`.
    let me = MouseEvent {
        button: MouseButton::Left,
        event_type: MouseEventType::Press,
        col: 10,
        row: 5,
        shift: false,
        ctrl: false,
        alt: false,
    };
    assert_eq!(me.encode(MouseEncoding::Urxvt), "\x1b[0;11;6M");
}

// -- Tier 4: focus reporting, synchronized output, hyperlink pruning --

#[test]
fn test_focus_reporting() {
    let mut g = make_grid(10, 3);
    // Off by default — no response.
    g.focus_in();
    g.focus_out();
    assert!(g.take_responses().is_empty());

    // Enable mode 1004.
    feed(&mut g, b"\x1b[?1004h");
    g.focus_in();
    let resp = g.take_responses();
    assert_eq!(resp, vec![b"\x1b[I".to_vec()]);
    g.focus_out();
    let resp = g.take_responses();
    assert_eq!(resp, vec![b"\x1b[O".to_vec()]);

    // Disable — no more responses.
    feed(&mut g, b"\x1b[?1004l");
    g.focus_in();
    assert!(g.take_responses().is_empty());
}

#[test]
fn test_double_width_line_mode() {
    let mut g = make_grid(10, 3);
    feed(&mut g, b"\x1b#6");
    assert_eq!(g.line_mode(0), 6);
}

#[test]
fn test_keyboard_protocol_negotiation() {
    let mut g = make_grid(10, 3);
    // Quickstart: push + enable disambiguation.
    feed(&mut g, b"\x1b[>1u");
    assert_eq!(g.keyboard.kitty_flags, 0b1);
    // Pop restores the previous (zero) flags.
    feed(&mut g, b"\x1b[<u");
    assert_eq!(g.keyboard.kitty_flags, 0);
    // Progressive enhancement set with mode semantics.
    feed(&mut g, b"\x1b[=5u"); // disambiguate + alternate keys
    assert_eq!(g.keyboard.kitty_flags, 0b101);
    feed(&mut g, b"\x1b[=2;2u"); // mode 2: set event-types bit
    assert_eq!(g.keyboard.kitty_flags, 0b111);
    feed(&mut g, b"\x1b[=4;3u"); // mode 3: reset alternate-keys bit
    assert_eq!(g.keyboard.kitty_flags, 0b011);
    // Query replies with the current flags.
    feed(&mut g, b"\x1b[?u");
    assert_eq!(g.take_responses(), vec![b"\x1b[?3u".to_vec()]);
    // Nested push/pop.
    feed(&mut g, b"\x1b[>0u");
    assert_eq!(g.keyboard.kitty_flags, 0);
    feed(&mut g, b"\x1b[<u");
    assert_eq!(g.keyboard.kitty_flags, 0b011);
    // modifyOtherKeys unaffected.
    feed(&mut g, b"\x1b[>4;1m");
    assert_eq!(g.modes.modify_other_keys, 1);
    feed(&mut g, b"\x1b[>4;0m");
    assert_eq!(g.modes.modify_other_keys, 0);
}

#[test]
fn test_kitty_keyboard_flags_are_per_screen() {
    let mut g = make_grid(10, 3);
    feed(&mut g, b"\x1b[>1u"); // primary: disambiguate
    assert_eq!(g.keyboard.kitty_flags, 0b1);
    feed(&mut g, b"\x1b[?1049h"); // enter alt screen
    assert_eq!(g.keyboard.kitty_flags, 0, "alt screen starts with fresh flags");
    feed(&mut g, b"\x1b[>5u"); // alt: disambiguate + event types
    assert_eq!(g.keyboard.kitty_flags, 0b101);
    feed(&mut g, b"\x1b[?1049l"); // exit alt screen
    assert_eq!(g.keyboard.kitty_flags, 0b1, "primary flags restored on exit");
    feed(&mut g, b"\x1b[?1049h"); // re-enter alt
    assert_eq!(g.keyboard.kitty_flags, 0b101, "alt flags remembered");
}

#[test]
fn test_synchronized_output_mode() {
    let mut g = make_grid(10, 3);
    assert!(!g.modes.synchronized_output);
    feed(&mut g, b"\x1b[?2026h");
    assert!(g.modes.synchronized_output);
    feed(&mut g, b"\x1b[?2026l");
    assert!(!g.modes.synchronized_output);
}

#[test]
fn test_hyperlink_prune() {
    let mut g = make_grid(10, 2);
    // OSC 8 ; ; https://example.com ST — start hyperlink, print, end.
    feed(&mut g, b"\x1b]8;;https://example.com\x07X\x1b]8;;\x07");
    assert_eq!(g.links.hyperlinks.len(), 1);
    // Overwrite the cell with a non-hyperlink char — the link is now orphaned.
    feed(&mut g, b"\rY");
    // After prune, the orphaned entry should be gone.
    g.prune_hyperlinks();
    assert!(g.links.hyperlinks.is_empty());
}

#[test]
fn test_all_lines_with_scrollback() {
    let mut g = make_grid(5, 2);
    g.screen.scrollback_capacity = 10;
    feed(&mut g, b"abc\r\ndef\r\n");
    // After two CRLFs on a 2-row grid, "abc" should be in scrollback.
    let lines = g.all_lines_with_scrollback();
    assert!(lines.iter().any(|l| l.contains("abc")));
    assert!(lines.iter().any(|l| l.contains("def")));
}

// -----------------------------------------------------------------------
// Shell integration (OSC 133) markers
// -----------------------------------------------------------------------

#[test]
fn test_osc133_prompt_markers() {
    let mut g = make_grid(20, 6);
    feed(
        &mut g,
        b"\x1b]133;A\x07prompt>\r\n\x1b]133;B\x07ls\r\n\x1b]133;C\x07",
    );
    assert_eq!(g.screen.shell_markers[0], 1); // prompt row
    assert_eq!(g.screen.shell_markers[1], 2); // command row
    assert_eq!(g.screen.shell_markers[2], 3); // output row
}

#[test]
fn test_osc133_clean_prompt_and_exit() {
    let mut g = make_grid(20, 6);
    feed(&mut g, b"\x1b]133;E\x07\r\n\x1b]133;D;0\x07");
    assert_eq!(g.screen.shell_markers[0], 1); // 133;E → prompt marker
    assert_eq!(g.screen.shell_markers[1], 3); // 133;D → output marker
}

#[test]
fn test_prompt_markers_follow_scroll() {
    let mut g = make_grid(10, 4);
    g.screen.scrollback_capacity = 32;
    feed(&mut g, b"\x1b]133;A\x07");
    // Scroll the marked row into scrollback.
    feed(&mut g, b"a\r\nb\r\nc\r\nd\r\ne\r\n");
    assert_eq!(g.screen.shell_scrollback_markers.len(), g.screen.scrollback.len());
    assert_eq!(
        g.screen.shell_scrollback_markers.iter().find(|m| **m == 1),
        Some(&1)
    );
    // The prompt is reachable by scanning backwards from the end.
    let stream_len = g.marker_stream_len();
    assert!(g.prev_prompt(stream_len).is_some());
    assert_eq!(g.prev_prompt(0), None);
}

#[test]
fn test_prev_next_prompt_stream() {
    let mut g = make_grid(20, 5);
    feed(
        &mut g,
        b"\x1b]133;A\x07one\r\n\x1b]133;A\x07two\r\n\x1b]133;A\x07three",
    );
    // Prompts on rows 0, 1, 2 → stream indices 0, 1, 2 (no scrollback yet).
    assert_eq!(g.prev_prompt(3), Some(2));
    assert_eq!(g.prev_prompt(2), Some(1));
    assert_eq!(g.next_prompt(0), Some(1));
    assert_eq!(g.next_prompt(2), None);
}

// -----------------------------------------------------------------------
// In-band resize (mode 2048), OSC 7/9, sixel
// -----------------------------------------------------------------------

#[test]
fn test_mode_2048_resize_report() {
    let mut g = make_grid(10, 5);
    feed(&mut g, b"\x1b[?2048h");
    assert!(g.modes.in_band_resize);
    g.resize_report();
    assert_eq!(g.take_responses(), vec![b"\x1b[4;5;10t".to_vec()]);
    feed(&mut g, b"\x1b[?2048l");
    g.resize_report();
    assert!(g.take_responses().is_empty());
}

#[test]
fn test_decrqm_reports_2048() {
    let mut g = make_grid(10, 5);
    feed(&mut g, b"\x1b[?2048h\x1b[?2048$p");
    assert_eq!(g.take_responses(), vec![b"\x1b[?2048;1$y".to_vec()]);
    feed(&mut g, b"\x1b[?2048l\x1b[?2048$p");
    assert_eq!(g.take_responses(), vec![b"\x1b[?2048;2$y".to_vec()]);
}

#[test]
fn test_osc7_cwd() {
    let mut g = make_grid(20, 3);
    feed(&mut g, b"\x1b]7;file:///home/user/projects\x07");
    assert_eq!(g.outbox.cwd.as_deref(), Some("file:///home/user/projects"));
}

#[test]
fn test_osc9_notification() {
    let mut g = make_grid(20, 3);
    feed(&mut g, b"\x1b]9;hello world\x07");
    assert_eq!(g.take_notification().as_deref(), Some("hello world"));
    // Progress form: OSC 9;4;title;message
    feed(&mut g, b"\x1b]9;4;Task;done\x07");
    assert_eq!(g.take_notification().as_deref(), Some("done"));
    // Empty clears the pending notification.
    feed(&mut g, b"\x1b]9;\x07");
    assert_eq!(g.take_notification(), None);
}

#[test]
fn test_sixel_dcs_places_image() {
    let mut g = make_grid(40, 10);
    g.set_cell_size(8, 16);
    // DCS q, blue columns at band 0 and band 1 (after LF), ST.
    feed(&mut g, b"\x1bPq#1~$~$~$~-~\x1b\\");
    assert_eq!(g.screen.sixel_images.len(), 1);
    let img = &g.screen.sixel_images[0];
    assert_eq!(img.col, 0);
    assert_eq!(img.row, 0);
    assert_eq!(img.image.width, 1);
    assert_eq!(img.image.height, 12);
    // Cursor advanced below the image: 12px / 16px cell → 1 row.
    assert_eq!(g.cursor.row, 1);
    assert_eq!(g.cursor.col, 0);
}

#[test]
fn test_sixel_respects_cursor_position() {
    let mut g = make_grid(40, 10);
    g.set_cell_size(8, 16);
    feed(&mut g, b"abc\x1bPq#1~\x1b\\");
    assert_eq!(g.screen.sixel_images[0].col, 3);
}

#[test]
fn test_sixel_bad_payload_is_ignored() {
    let mut g = make_grid(40, 10);
    g.set_cell_size(8, 16);
    // Only control characters (CR/LF) — no graphic chars, nothing drawn.
    feed(&mut g, b"\x1bPq$-$-\x1b\\");
    assert!(g.screen.sixel_images.is_empty());
    // And the cursor is untouched.
    assert_eq!(g.cursor.row, 0);
    assert_eq!(g.cursor.col, 0);
}

// -- Sixel lifecycle (scroll / clear / resize) --

fn placement(id: u64, row: usize, col: usize) -> terminal::sixel::SixelPlacement {
    terminal::sixel::SixelPlacement {
        id,
        col,
        row,
        image: terminal::sixel::SixelImage {
            width: 8,
            height: 8,
            rgba: vec![0u8; 8 * 8 * 4],
        },
        image_id: 0,
    }
}

#[test]
fn test_sixel_scroll_shifts_rows_and_drops_off_top() {
    let mut g = make_grid(40, 6);
    g.screen.sixel_images = vec![placement(1, 2, 0), placement(2, 0, 5)];
    g.scroll_up_from(0, 1);
    // The image at row 2 travels up with its content; the one at the very
    // top scrolled into history and is dropped.
    assert_eq!(g.screen.sixel_images.len(), 1);
    assert_eq!(g.screen.sixel_images[0].id, 1);
    assert_eq!(g.screen.sixel_images[0].row, 1);
}

#[test]
fn test_sixel_insert_shifts_down_and_drops_off_bottom() {
    let mut g = make_grid(40, 6);
    g.screen.sixel_images = vec![placement(1, 2, 0), placement(2, 5, 0)];
    g.scroll_down_from(0, 1);
    // IL pushes content down; the bottom placement is discarded (IL
    // semantics never save) and the middle one moves down a row.
    assert_eq!(g.screen.sixel_images.len(), 1);
    assert_eq!(g.screen.sixel_images[0].id, 1);
    assert_eq!(g.screen.sixel_images[0].row, 3);
}

#[test]
fn test_sixel_erase_display_clears_screen_and_region() {
    let mut g = make_grid(40, 10);
    g.screen.sixel_images = vec![placement(1, 2, 3), placement(2, 6, 0)];
    // ED 2 clears the whole screen.
    feed(&mut g, b"\x1b[2J");
    assert!(g.screen.sixel_images.is_empty());

    g.screen.sixel_images = vec![placement(1, 2, 3), placement(2, 6, 0)];
    // ED 0 erases cursor → end of screen; cursor is at row 5, so the
    // placement at row 2 survives while the one at row 6 is dropped.
    g.cursor.row = 5;
    g.cursor.col = 0;
    feed(&mut g, b"\x1b[0J");
    assert_eq!(g.screen.sixel_images.len(), 1);
    assert_eq!(g.screen.sixel_images[0].id, 1);
}

#[test]
fn test_sixel_erase_line_removes_anchored_image() {
    let mut g = make_grid(40, 10);
    g.screen.sixel_images = vec![placement(1, 2, 3)];
    // Cursor to row 2 (1-based 3;1H), then EL 2 wipes the whole line.
    feed(&mut g, b"\x1b[3;1H\x1b[2K");
    assert!(g.screen.sixel_images.is_empty());
}

#[test]
fn test_sixel_resize_drops_all_placements() {
    let mut g = make_grid(40, 6);
    g.screen.sixel_images = vec![placement(1, 2, 0), placement(2, 5, 0)];
    g.resize(WinSize { cols: 30, rows: 4 });
    // Reflow re-orders rows, so placements (viewport-relative) can no
    // longer be positioned correctly and are dropped wholesale.
    assert!(g.screen.sixel_images.is_empty());
}

#[test]
fn test_sixel_ids_unique_and_list_capped() {
    let mut g = make_grid(40, 10);
    g.set_cell_size(8, 16);
    // 20 tiny one-pixel images — ids must be unique and the list capped.
    for _ in 0..20 {
        feed(&mut g, b"\x1bPq!1~!1~!1~!1~!1~!1~\x1b\\");
    }
    assert_eq!(g.screen.sixel_images.len(), terminal::sixel::MAX_LIVE_SIXELS);
    let mut ids: Vec<u64> = g.screen.sixel_images.iter().map(|p| p.id).collect();
    ids.dedup();
    assert_eq!(ids.len(), terminal::sixel::MAX_LIVE_SIXELS);
}
