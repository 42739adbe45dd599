//! Character sets, the presentation of lines, and what a reset brings back.
use vstd::prelude::*;

use super::attrs::Color;
use super::cell::{CellState, MouseEncoding, MouseMode};
use super::csi::Setting;
use super::effects::{carried_setting, cell_at, no_prefix, on_screen};
use super::print::char_width;
use super::state::{Charsets, GridState, Margins, Modes, Pen, ScreenState};

verus! {

/// `ESC ( 0` and `ESC ) 0` choose line drawing as G0 and G1, and SI and SO one
/// of the two; each changes nothing else.
pub proof fn character_sets_are_chosen(g: GridState, set: u8)
    requires
        set != 0x37,
        set != 0x38,
        set != 0x48,
    ensures
        g.esc(seq![0x28u8], set) == (GridState {
            charsets: Charsets { g0: set, ..g.charsets },
            ..g
        }),
        g.esc(seq![0x29u8], set) == (GridState {
            charsets: Charsets { g1: set, ..g.charsets },
            ..g
        }),
        g.executed(0x0e) == (GridState { charsets: Charsets { active: 1, ..g.charsets }, ..g }),
        g.executed(0x0f) == (GridState { charsets: Charsets { active: 0, ..g.charsets }, ..g }),
{
    reveal(GridState::esc);
    reveal(GridState::executed);
}

/// Where ASCII is chosen a character is printed as itself.
pub proof fn ascii_prints_as_itself(g: GridState, ch: char)
    requires
        if g.charsets.active == 1 {
            g.charsets.g1 == 0x42
        } else {
            g.charsets.g0 == 0x42
        },
    ensures
        g.char_printed(ch) == g.printed(ch, char_width(ch)),
{
    reveal(GridState::char_printed);
}

/// The line-drawing character at the place of a letter: lines, corners, tees
/// and the crossing.
pub open spec fn line_of(ch: char) -> Option<char> {
    match ch {
        'q' => Some('\u{2500}'),
        'x' => Some('\u{2502}'),
        'l' => Some('\u{250c}'),
        'k' => Some('\u{2510}'),
        'm' => Some('\u{2514}'),
        'j' => Some('\u{2518}'),
        't' => Some('\u{251c}'),
        'u' => Some('\u{2524}'),
        'w' => Some('\u{252c}'),
        'v' => Some('\u{2534}'),
        'n' => Some('\u{253c}'),
        _ => None,
    }
}

/// Where line drawing is chosen the letters of the lines print as lines, and
/// what is not a letter or one of the marks above them prints as itself.
pub proof fn lines_are_drawn(g: GridState, ch: char)
    requires
        if g.charsets.active == 1 {
            g.charsets.g1 == 0x30
        } else {
            g.charsets.g0 == 0x30
        },
    ensures
        line_of(ch) matches Some(c) ==> g.char_printed(ch) == g.printed(c, char_width(c)),
        ch <= '@' || 'H' <= ch <= '_' || ch > '~' ==> g.char_printed(ch) == g.printed(
            ch,
            char_width(ch),
        ),
{
    reveal(GridState::char_printed);
}

proof fn redrawn(g: GridState, r: int, c: int)
    requires
        on_screen(g, r, c),
        g.screen.wf(),
    ensures
        ({
            let t = g.all_dirty();
            &&& cell_at(t, r, c) == (CellState {
                dirty: cell_at(t, r, c).dirty,
                ..cell_at(g, r, c)
            })
            &&& t == g.with_screen(t.screen)
            &&& t.screen.scrollback == g.screen.scrollback
            &&& t.screen.rows == g.screen.rows && t.screen.cols == g.screen.cols
        }),
{
    reveal(ScreenState::dirtied);
    reveal(ScreenState::filled);
    let s = g.screen;
    let d = s.dirtied(0, s.rows - 1);
    assert(d.active()[r] == if !s.is_blank[r] {
        super::cell::dirtied_line(s.active()[r])
    } else {
        s.active()[r]
    });
}

/// DECDHL, DECSWL and DECDWL present the row of the cursor, and no other; no
/// character and no cursor moves.
pub proof fn lines_are_presented(g: GridState, b: u8, r: int, c: int)
    requires
        g.wf(),
        0x33 <= b <= 0x36,
        on_screen(g, r, c),
        g.line_modes.len() == g.screen.rows,
    ensures
        ({
            let t = g.esc(seq![0x23u8], b);
            &&& t.line_modes[r] == if r == g.row {
                (b - 0x30) as u8
            } else {
                g.line_modes[r]
            }
            &&& cell_at(t, r, c).ch == cell_at(g, r, c).ch
            &&& cell_at(t, r, c).attrs == cell_at(g, r, c).attrs
            &&& t.row == g.row && t.col == g.col && t.pen == g.pen && t.modes == g.modes
        }),
{
    reveal(GridState::esc);
    reveal(GridState::esc_hash);
    reveal(GridState::line_mode_set);
    let s = GridState { line_modes: g.line_modes.update(g.row, (b - 0x30) as u8), ..g };
    redrawn(s, r, c);
}

/// The modes of power-up.
pub open spec fn fresh(m: Modes) -> bool {
    &&& m.cursor_visible && m.autowrap
    &&& !m.origin_mode && !m.screen_reverse && !m.insert_mode
    &&& m.cursor_shape == 0
    &&& !m.application_cursor_keys && !m.keypad_app && !m.backarrow_del
    &&& !m.bracketed_paste && !m.focus_reporting && !m.synchronized_output && !m.in_band_resize
    &&& m.mouse_mode == MouseMode::Off && m.mouse_encoding == MouseEncoding::X10
}

/// The margins are those of the screen.
pub open spec fn unbounded(g: GridState) -> bool {
    g.margins == (Margins {
        top: 0,
        bottom: g.screen.rows - 1,
        left: 0,
        right: g.screen.cols - 1,
        horizontal: false,
    })
}

/// The pen draws in the default colours without attributes.
pub open spec fn plain_pen(p: Pen) -> bool {
    &&& p.fg == Color::Default
    &&& p.bg == Color::Default
    &&& p.attrs.bits == 0
}

/// RIS brings everything back as at power-up, at the size that the screen has.
pub proof fn full_reset(g: GridState, r: int, c: int)
    requires
        g.wf(),
        on_screen(g, r, c),
    ensures
        ({
            let t = g.esc(no_prefix(), 0x63);
            &&& t.screen.rows == g.screen.rows && t.screen.cols == g.screen.cols
                && t.screen.capacity == g.screen.capacity
            &&& cell_at(t, r, c) == CellState::empty()
            &&& !t.screen.alt_active
            &&& t.screen.scrollback.len() == 0 && t.screen.images.len() == 0
            &&& t.row == 0 && t.col == 0 && t.view.offset == 0
            &&& plain_pen(t.pen) && fresh(t.modes) && unbounded(t)
            &&& t.modes.modify_other_keys == 0 && t.keyboard.flags == 0
            &&& t.keyboard.stack.len() == 0
            &&& t.links.active == 0 && t.graphics.stored.len() == 0
            &&& !t.charsets.special() && t.line_modes[r] == 0
            &&& t.tabs.len() == g.screen.cols && t.tabs[c] == (c > 0 && c % 8 == 0)
        }),
{
    reveal(GridState::esc);
    reveal(GridState::esc_final);
    reveal(GridState::reset);
}

/// DECSTR brings back the pen, the modes, the margins and the tab stops, clears
/// the screen and homes the cursor; the history stays.
pub proof fn soft_reset_keeps_the_history(g: GridState, r: int, c: int)
    requires
        g.wf(),
        on_screen(g, r, c),
    ensures
        ({
            let t = g.csi(Seq::empty(), seq![0x21u8], 0x70);
            &&& cell_at(t, r, c).ch == ' ' && cell_at(t, r, c).bg == Color::Default
            &&& cell_at(t, r, c).hyperlink_id == 0
            &&& t.screen.scrollback == g.screen.scrollback
            &&& t.row == 0 && t.col == 0
            &&& plain_pen(t.pen) && fresh(t.modes) && unbounded(t)
            &&& t.tabs.len() == g.screen.cols && t.tabs[c] == (c > 0 && c % 8 == 0)
            &&& t.keyboard == g.keyboard && t.links == g.links && t.outbox == g.outbox
        }),
{
    carried_setting(g, Seq::empty(), seq![0x21u8], 0x70, Setting::SoftReset);
    reveal(GridState::soft_reset);
    let s = GridState {
        pen: Pen::plain(),
        modes: Modes {
            bulk_output: g.modes.bulk_output,
            modify_other_keys: g.modes.modify_other_keys,
            ..Modes::initial()
        },
        tabs: super::state::default_stops(g.screen.cols),
        margins: Margins {
            top: 0,
            bottom: g.screen.rows - 1,
            left: 0,
            right: g.screen.cols - 1,
            horizontal: false,
        },
        ..g
    };
    super::effects::display_erasure_by_cell(s, seq![seq![2u16]], false, r, c);
    super::effects::means_ed(s, seq![seq![2u16]]);
    assert(seq![seq![2u16]][0] == seq![2u16]);
    let e = s.display_erased(2, false).at(0, 0);
    super::screen::map_lines_wf(
        s.screen,
        0,
        s.screen.rows - 1,
        super::state::erasing(
            0,
            0,
            s.screen.rows - 1,
            s.screen.cols,
            0,
            s.screen.cols,
            s.erased_cell(),
            false,
        ),
    );
    reveal(ScreenState::filled);
    redrawn(e, r, c);
}

/// `CSI > 4 ; n m` chooses how other keys are reported, from 0 to 2.
pub proof fn other_keys_are_chosen(g: GridState, n: u16)
    ensures
        g.csi(seq![seq![4u16], seq![n]], seq![0x3eu8], 0x6d) == g.with_modes(
            Modes {
                modify_other_keys: if n <= 2 {
                    n as u8
                } else {
                    2
                },
                ..g.modes
            },
        ),
{
    let p = seq![seq![4u16], seq![n]];
    assert(p[0] == seq![4u16] && p[1] == seq![n]);
    let v = if n <= 2 {
        n as u8
    } else {
        2
    };
    carried_setting(g, p, seq![0x3eu8], 0x6d, Setting::ModifyOtherKeys(v));
}

/// DECCOLM and DECSCPP give the screen that many columns, tell the window, and
/// leave the screen without margins and the cursor at home with a plain pen.
pub proof fn columns_are_switched(g: GridState, set: bool)
    requires
        g.wf(),
        g.screen.cols != 80,
        g.screen.cols != 132,
    ensures
        ({
            let n: u16 = if set {
                80
            } else {
                132
            };
            let t = super::replies::with_mode(g, 3, set);
            &&& t == g.csi(seq![seq![n]], seq![0x24u8], 0x7c)
            &&& t.screen.cols == n && t.screen.rows == g.screen.rows
            &&& t.outbox.resize_request is Some
            &&& t.outbox.resize_request->0.cols == n
            &&& t.outbox.resize_request->0.rows == g.screen.rows
            &&& t.row == 0 && t.col == 0 && plain_pen(t.pen) && unbounded(t)
            &&& t.screen.images.len() == 0
        }),
{
    let n: u16 = if set {
        80
    } else {
        132
    };
    let p = seq![seq![n]];
    assert(p[0] == seq![n]);
    super::replies::means_mode(g, 3, set);
    carried_setting(g, p, seq![0x24u8], 0x7c, Setting::Columns(n));
    reveal(GridState::columns_set);
    super::resize::resizing_keeps_the_rest(g, n as int, g.screen.rows, 0, 0);
    reveal(ScreenState::map_lines);
}

/// A sequence whose last byte means nothing does nothing.
pub proof fn unknown_sequences_do_nothing(g: GridState, params: Seq<Seq<u16>>, b: u8)
    requires
        b == 0x4e || b == 0x4f || b == 0x51 || b == 0x52 || b == 0x55 || b == 0x56 || b == 0x57
            || b == 0x59 || 0x5b <= b <= 0x61 || b == 0x65 || b == 0x69 || b == 0x6a || b == 0x6b
            || b == 0x6f || b == 0x74 || b == 0x76 || b == 0x77 || b == 0x79 || b == 0x7a,
    ensures
        g.csi(params, no_prefix(), b) == g,
{
    reveal(GridState::csi);
}

/// What is saved on the primary screen is restored there, whatever is saved on
/// the alternate screen in between.
pub proof fn saved_cursors_are_per_screen(g: GridState, row: int, col: int, pen: Pen)
    requires
        g.wf(),
        !g.screen.alt_active,
    ensures
        ({
            let saved = g.esc(no_prefix(), 0x37);
            let visiting = super::replies::with_mode(saved, 1049, true);
            let other = (GridState { row, col, pen, ..visiting }).esc(no_prefix(), 0x37);
            let back = super::replies::with_mode(other, 1049, false).esc(no_prefix(), 0x38);
            &&& back.row == g.row && back.col == g.col && back.pen == g.pen
            &&& back.screen.primary == g.screen.primary
        }),
{
    let saved = g.esc(no_prefix(), 0x37);
    let visiting = super::replies::with_mode(saved, 1049, true);
    let other = (GridState { row, col, pen, ..visiting }).esc(no_prefix(), 0x37);
    super::replies::means_mode(saved, 1049, true);
    super::replies::means_mode(other, 1049, false);
    reveal(GridState::esc);
    reveal(GridState::esc_cursor);
}

} // verus!
