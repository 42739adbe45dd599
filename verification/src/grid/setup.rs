//! Power-up state.
use std::collections::{HashMap, VecDeque};
use std::sync::Arc;
use vstd::prelude::*;

use super::attrs::{Attrs, Color, ColorPalette};
use super::cell::{
    blank_line, line_view, lines_view, new_blank_line, share, Cell, Cursor, MouseEncoding,
    MouseMode, WinSize,
};
use super::screen::Screen;
use super::state::{default_stops, Charsets, GridState, Modes, Pen, ScreenState};
use super::{
    Dcs, Graphics, Grid, Keyboard, Links, Outbox, SavedCursor, ScrollMargins,
};

verus! {

broadcast use vstd::std_specs::hash::group_hash_axioms;

/// Default horizontal tab stops: every eighth column except the first.
pub fn default_tab_stops(cols: usize) -> (r: Vec<bool>)
    ensures
        r@ == default_stops(cols as int),
{
    let mut r: Vec<bool> = Vec::new();
    let mut c: usize = 0;
    while c < cols
        invariant
            c <= cols,
            r@ == default_stops(c as int),
        decreases cols - c,
    {
        r.push(c % 8 == 0 && c != 0);
        c += 1;
        proof {
            assert(default_stops(c as int) =~= default_stops(c - 1).push(
                (c - 1) % 8 == 0 && c - 1 != 0,
            ));
        }
    }
    r
}

/// `n` handles to the line `row`.
pub(crate) fn repeat_line(row: &Arc<Vec<Cell>>, n: usize) -> (r: Vec<Arc<Vec<Cell>>>)
    ensures
        lines_view(r@) == Seq::new(n as nat, |i: int| line_view(row@)),
{
    let mut r: Vec<Arc<Vec<Cell>>> = Vec::new();
    let mut i: usize = 0;
    while i < n
        invariant
            i <= n,
            r@.len() == i,
            forall|k: int| 0 <= k < i ==> #[trigger] r@[k] == *row,
        decreases n - i,
    {
        r.push(share(row));
        i += 1;
    }
    proof {
        assert(lines_view(r@) =~= Seq::new(n as nat, |i: int| line_view(row@)));
    }
    r
}

/// `n` copies of a flag.
pub(crate) fn flags(n: usize, v: bool) -> (r: Vec<bool>)
    ensures
        r@ == Seq::new(n as nat, |i: int| v),
{
    let r: Vec<bool> = vec![v; n];
    proof {
        assert(r@ =~= Seq::new(n as nat, |i: int| v));
    }
    r
}

/// `n` zero bytes.
pub(crate) fn zeros(n: usize) -> (r: Vec<u8>)
    ensures
        r@ == Seq::new(n as nat, |i: int| 0u8),
{
    let r: Vec<u8> = vec![0u8; n];
    proof {
        assert(r@ =~= Seq::new(n as nat, |i: int| 0u8));
    }
    r
}

impl Grid {
    /// A blank grid of the given size that keeps up to `scrollback` lines of
    /// history.
    pub fn new(size: WinSize, scrollback: usize) -> (r: Self)
        requires
            size.cols >= 1,
            size.rows >= 1,
        ensures
            r.wf(),
            r@ == GridState::initial(size.cols as int, size.rows as int, scrollback as int),
    {
        let cols: usize = size.cols as usize;
        let rows: usize = size.rows as usize;
        let pen = Pen { fg: Color::Default, bg: Color::Default, attrs: Attrs::default() };
        let r = Grid {
            screen: Screen::new(cols, rows, scrollback),
            cursor: Cursor::default(),
            saved_cursor: SavedCursor { cursor: Cursor::default(), pen },
            saved_cursor_alt: SavedCursor { cursor: Cursor::default(), pen },
            alt_saved_cursor: Cursor::default(),
            pen,
            margins: ScrollMargins {
                top: 0,
                bottom: rows - 1,
                left: 0,
                right: cols - 1,
                horizontal: false,
            },
            line_modes: zeros(rows),
            scrollback_offset: 0,
            scroll_fraction: 0,
            modes: Modes {
                cursor_visible: true,
                origin_mode: false,
                autowrap: true,
                screen_reverse: false,
                insert_mode: false,
                cursor_shape: 0,
                application_cursor_keys: false,
                keypad_app: false,
                backarrow_del: false,
                bracketed_paste: false,
                focus_reporting: false,
                synchronized_output: false,
                in_band_resize: false,
                bulk_output: false,
                mouse_mode: MouseMode::Off,
                mouse_encoding: MouseEncoding::X10,
                modify_other_keys: 0,
            },
            keyboard: Keyboard {
                kitty_flags: 0,
                kitty_stack: Vec::new(),
                kitty_flags_primary: 0,
                kitty_stack_primary: Vec::new(),
                kitty_flags_alt: 0,
                kitty_stack_alt: Vec::new(),
            },
            palette: ColorPalette::default(),
            tab_stops: default_tab_stops(cols),
            last_char: None,
            charsets: Charsets { g0: 0x42, g1: 0x42, active: 0 },
            mouse_position: Cursor::default(),
            outbox: Outbox {
                responses: Vec::new(),
                bell_pending: false,
                clipboard_set: None,
                clipboard_query_requested: false,
                notification: None,
                cwd: None,
                window_resize_request: None,
            },
            dcs: Dcs { dcs_buf: Vec::new(), dcs_request: false, dcs_sixel: false },
            links: Links {
                hyperlinks: HashMap::new(),
                active_hyperlink_id: 0,
                next_hyperlink_id: 1,
            },
            graphics: Graphics {
                kitty_gfx: None,
                kitty_images: Vec::new(),
                kitty_files: Vec::new(),
                next_sixel_id: 0,
                video_frame: None,
                video_frame_version: 0,
                cell_w: 8,
                cell_h: 16,
            },
        };
        proof {
            let i = GridState::initial(cols as int, rows as int, scrollback as int);
            assert(r@.outbox.responses =~= i.outbox.responses);
            assert(r@.links.urls =~= i.links.urls);
            assert(r@.graphics.stored =~= i.graphics.stored);
            assert(r@.graphics.files =~= i.graphics.files);
            assert(r@.screen == i.screen);
        }
        r
    }
}

impl Screen {
    /// Two blank screens without history.
    pub fn new(cols: usize, rows: usize, scrollback: usize) -> (r: Self)
        requires
            1 <= cols <= 65535,
            1 <= rows <= 65535,
        ensures
            r.wf(),
            r@ == GridState::initial(cols as int, rows as int, scrollback as int).screen,
    {
        let blank = Arc::new(new_blank_line(cols));
        let r = Screen {
            cols,
            rows,
            cells_primary: repeat_line(&blank, rows),
            cells_alt: repeat_line(&blank, rows),
            alt_active: false,
            scrollback: VecDeque::new(),
            scrollback_capacity: scrollback,
            shell_markers: zeros(rows),
            shell_scrollback_markers: VecDeque::new(),
            blank_row: blank,
            row_is_blank: flags(rows, true),
            // A fresh grid needs a full first redraw.
            row_blank_dirty: flags(rows, true),
            sixel_images: Vec::new(),
        };
        proof {
            reveal(ScreenState::filled);
            let i = GridState::initial(cols as int, rows as int, scrollback as int).screen;
            assert(r@.primary =~= i.primary);
            assert(r@.alt =~= i.alt);
            assert(r@.scrollback =~= i.scrollback);
            assert(r@.images =~= i.images);
        }
        r
    }
}

} // verus!
