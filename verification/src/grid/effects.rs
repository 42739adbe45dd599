//! What control sequences do to the screen, cell by cell.
use vstd::prelude::*;

use super::attrs::{Attrs, Color};
use super::cell::CellState;
use super::csi::{csi_of, Csi, Edit, Move, Setting};
use super::state::{GridState, ScreenState};
use crate::parser::ActionState;

verus! {

/// The first parameter, 0 where it is left out.
pub open spec fn first_param(params: Seq<Seq<u16>>) -> int {
    if params.len() > 0 && params[0].len() > 0 {
        params[0][0] as int
    } else {
        0
    }
}

/// The second parameter, 0 where it is left out.
pub open spec fn second_param(params: Seq<Seq<u16>>) -> int {
    if params.len() > 1 && params[1].len() > 0 {
        params[1][0] as int
    } else {
        0
    }
}

/// How many times: the first parameter, but at least once.
pub open spec fn times(params: Seq<Seq<u16>>) -> int {
    if first_param(params) == 0 {
        1
    } else {
        first_param(params)
    }
}

/// `x`, or the nearer end of the range.
pub open spec fn within(x: int, low: int, high: int) -> int {
    if x < low {
        low
    } else if x > high {
        high
    } else {
        x
    }
}

/// A blank in these colours, without attributes, to be drawn.
pub open spec fn blank_of(fg: Color, bg: Color) -> CellState {
    CellState {
        ch: ' ',
        fg,
        bg,
        attrs: Attrs { bits: 0 },
        dirty: true,
        wide_filler: false,
        hyperlink_id: 0,
        combining: None,
    }
}

/// No bytes between the introducer and the parameters.
pub open spec fn no_prefix() -> Seq<u8> {
    Seq::empty()
}

/// The cell at a row and column of the shown screen.
pub open spec fn cell_at(g: GridState, r: int, c: int) -> CellState {
    if g.screen.alt_active {
        g.screen.alt[r][c]
    } else {
        g.screen.primary[r][c]
    }
}

/// A position of the screen.
pub open spec fn on_screen(g: GridState, r: int, c: int) -> bool {
    0 <= r < g.screen.rows && 0 <= c < g.screen.cols
}

/// The column lies between the left and right margins, where they are honoured.
pub open spec fn in_sides(g: GridState, c: int) -> bool {
    g.margins.horizontal ==> g.margins.left <= c <= g.margins.right
}

/// The left margin, where it is honoured, is on the screen and not right of the
/// cursor.
pub open spec fn sides_reach_cursor(g: GridState) -> bool {
    g.margins.horizontal ==> g.margins.left <= g.col && g.margins.left < g.screen.cols
}

/// Nothing but cells of the shown screen, and images on it, differ.
pub open spec fn only_cells_differ(g: GridState, t: GridState) -> bool {
    &&& t == (GridState {
        screen: ScreenState {
            primary: t.screen.primary,
            alt: t.screen.alt,
            is_blank: t.screen.is_blank,
            images: t.screen.images,
            ..g.screen
        },
        ..g
    })
    &&& g.screen.alt_active ==> t.screen.primary == g.screen.primary
    &&& !g.screen.alt_active ==> t.screen.alt == g.screen.alt
}

/// Nothing but the shown screen, and what moves with its lines, differs.
pub open spec fn only_lines_differ(g: GridState, t: GridState) -> bool {
    &&& t == (GridState {
        screen: ScreenState {
            primary: t.screen.primary,
            alt: t.screen.alt,
            is_blank: t.screen.is_blank,
            blank_dirty: t.screen.blank_dirty,
            markers: t.screen.markers,
            images: t.screen.images,
            ..g.screen
        },
        ..g
    })
    &&& g.screen.alt_active ==> t.screen.primary == g.screen.primary
    &&& !g.screen.alt_active ==> t.screen.alt == g.screen.alt
}

// ---------------------------------------------------------------------------
// Which sequence means what
// ---------------------------------------------------------------------------

pub(super) proof fn carried_move(g: GridState, params: Seq<Seq<u16>>, bytes: Seq<u8>, b: u8, m: Move)
    requires
        csi_of(params, bytes, b) == Csi::Move(m),
    ensures
        g.csi(params, bytes, b) == g.moved(m),
{
    reveal(GridState::csi);
}

pub(super) proof fn carried_edit(g: GridState, params: Seq<Seq<u16>>, bytes: Seq<u8>, b: u8, e: Edit)
    requires
        csi_of(params, bytes, b) == Csi::Edit(e),
    ensures
        g.csi(params, bytes, b) == g.edited(e),
{
    reveal(GridState::csi);
}

pub(super) proof fn carried_setting(g: GridState, params: Seq<Seq<u16>>, bytes: Seq<u8>, b: u8, s: Setting)
    requires
        csi_of(params, bytes, b) == Csi::Setting(s),
    ensures
        g.csi(params, bytes, b) == g.set(s, params),
{
    reveal(GridState::csi);
}

pub(super) proof fn means_ed(g: GridState, params: Seq<Seq<u16>>)
    ensures
        g.csi(params, no_prefix(), 0x4a) == g.display_erased(first_param(params), false),
{
    carried_edit(g, params, no_prefix(), 0x4a, Edit::EraseDisplay(first_param(params) as u16, false));
}

proof fn means_decsed(g: GridState, params: Seq<Seq<u16>>)
    ensures
        g.csi(params, seq![0x3fu8], 0x4a) == g.display_erased(first_param(params), true),
{
    carried_edit(g, params, seq![0x3fu8], 0x4a, Edit::EraseDisplay(first_param(params) as u16, true));
}

proof fn means_el(g: GridState, params: Seq<Seq<u16>>)
    ensures
        g.csi(params, no_prefix(), 0x4b) == g.line_erased(first_param(params), false),
{
    carried_edit(g, params, no_prefix(), 0x4b, Edit::EraseLine(first_param(params) as u16, false));
}

proof fn means_decsel(g: GridState, params: Seq<Seq<u16>>)
    ensures
        g.csi(params, seq![0x3fu8], 0x4b) == g.line_erased(first_param(params), true),
{
    carried_edit(g, params, seq![0x3fu8], 0x4b, Edit::EraseLine(first_param(params) as u16, true));
}

proof fn means_ech(g: GridState, params: Seq<Seq<u16>>)
    ensures
        g.csi(params, no_prefix(), 0x58) == g.chars_erased(times(params)),
{
    carried_edit(g, params, no_prefix(), 0x58, Edit::EraseChars(times(params) as u16));
}

proof fn means_ich(g: GridState, params: Seq<Seq<u16>>)
    ensures
        g.csi(params, no_prefix(), 0x40) == g.chars_inserted(times(params)),
{
    carried_edit(g, params, no_prefix(), 0x40, Edit::InsertChars(times(params) as u16));
}

proof fn means_dch(g: GridState, params: Seq<Seq<u16>>)
    ensures
        g.csi(params, no_prefix(), 0x50) == g.chars_deleted(times(params)),
{
    carried_edit(g, params, no_prefix(), 0x50, Edit::DeleteChars(times(params) as u16));
}

proof fn means_il(g: GridState, params: Seq<Seq<u16>>)
    ensures
        g.csi(params, no_prefix(), 0x4c) == g.lines_inserted(times(params)),
{
    carried_edit(g, params, no_prefix(), 0x4c, Edit::InsertLines(times(params) as u16));
}

proof fn means_dl(g: GridState, params: Seq<Seq<u16>>)
    ensures
        g.csi(params, no_prefix(), 0x4d) == g.lines_deleted(times(params)),
{
    carried_edit(g, params, no_prefix(), 0x4d, Edit::DeleteLines(times(params) as u16));
}

proof fn means_sd(g: GridState, params: Seq<Seq<u16>>)
    ensures
        g.csi(params, no_prefix(), 0x54) == g.scrolled_down(g.margins.top, times(params)),
{
    carried_edit(g, params, no_prefix(), 0x54, Edit::ScrollDown(times(params) as u16));
}

proof fn means_decic(g: GridState, params: Seq<Seq<u16>>)
    ensures
        g.csi(params, seq![0x27u8], 0x7d) == g.columns_inserted(times(params)),
{
    carried_edit(g, params, seq![0x27u8], 0x7d, Edit::InsertColumns(times(params) as u16));
}

proof fn means_decdc(g: GridState, params: Seq<Seq<u16>>)
    ensures
        g.csi(params, seq![0x27u8], 0x7e) == g.columns_deleted(times(params)),
{
    carried_edit(g, params, seq![0x27u8], 0x7e, Edit::DeleteColumns(times(params) as u16));
}

proof fn means_cuu(g: GridState, params: Seq<Seq<u16>>)
    ensures
        g.csi(params, no_prefix(), 0x41) == g.cursor_up(times(params)),
{
    carried_move(g, params, no_prefix(), 0x41, Move::Up(times(params) as u16));
}

proof fn means_cud(g: GridState, params: Seq<Seq<u16>>)
    ensures
        g.csi(params, no_prefix(), 0x42) == g.cursor_down(times(params)),
{
    carried_move(g, params, no_prefix(), 0x42, Move::Down(times(params) as u16));
}

proof fn means_cuf(g: GridState, params: Seq<Seq<u16>>)
    ensures
        g.csi(params, no_prefix(), 0x43) == g.cursor_forward(times(params)),
{
    carried_move(g, params, no_prefix(), 0x43, Move::Forward(times(params) as u16));
}

proof fn means_cub(g: GridState, params: Seq<Seq<u16>>)
    ensures
        g.csi(params, no_prefix(), 0x44) == g.cursor_back(times(params)),
{
    carried_move(g, params, no_prefix(), 0x44, Move::Back(times(params) as u16));
}

proof fn means_cnl(g: GridState, params: Seq<Seq<u16>>)
    ensures
        g.csi(params, no_prefix(), 0x45) == g.next_line(times(params)),
{
    carried_move(g, params, no_prefix(), 0x45, Move::NextLine(times(params) as u16));
}

proof fn means_cpl(g: GridState, params: Seq<Seq<u16>>)
    ensures
        g.csi(params, no_prefix(), 0x46) == g.prev_line(times(params)),
{
    carried_move(g, params, no_prefix(), 0x46, Move::PrevLine(times(params) as u16));
}

proof fn means_cup(g: GridState, params: Seq<Seq<u16>>)
    ensures
        g.csi(params, no_prefix(), 0x48) == g.at(g.target_row(first_param(params)), g.target_col(second_param(params))),
{
    carried_move(g, params, no_prefix(), 0x48, Move::Position(first_param(params) as u16, second_param(params) as u16));
}

proof fn means_hvp(g: GridState, params: Seq<Seq<u16>>)
    ensures
        g.csi(params, no_prefix(), 0x66) == g.at(g.target_row(first_param(params)), g.target_col(second_param(params))),
{
    carried_move(g, params, no_prefix(), 0x66, Move::Position(first_param(params) as u16, second_param(params) as u16));
}

proof fn means_cha(g: GridState, params: Seq<Seq<u16>>)
    ensures
        g.csi(params, no_prefix(), 0x47) == g.at(g.row, g.target_col(first_param(params))),
{
    carried_move(g, params, no_prefix(), 0x47, Move::Column(first_param(params) as u16));
}

proof fn means_stbm(g: GridState, params: Seq<Seq<u16>>)
    ensures
        g.csi(params, no_prefix(), 0x72) == g.region_set(first_param(params), second_param(params)),
{
    carried_setting(g, params, no_prefix(), 0x72, Setting::Region(first_param(params) as u16, second_param(params) as u16));
}

proof fn means_cht(g: GridState, params: Seq<Seq<u16>>)
    ensures
        g.csi(params, no_prefix(), 0x49) == g.tabbed_forward(times(params) as nat),
{
    carried_move(g, params, no_prefix(), 0x49, Move::TabForward(times(params) as u16));
}

proof fn means_cbt(g: GridState, params: Seq<Seq<u16>>)
    ensures
        g.csi(params, no_prefix(), 0x5a) == g.tabbed_back(times(params) as nat),
{
    carried_move(g, params, no_prefix(), 0x5a, Move::TabBack(times(params) as u16));
}

proof fn means_tbc(g: GridState, params: Seq<Seq<u16>>)
    ensures
        g.csi(params, no_prefix(), 0x67) == g.stops_cleared(first_param(params)),
{
    carried_move(g, params, no_prefix(), 0x67, Move::ClearTabs(first_param(params) as u16));
}

proof fn means_rc(g: GridState, params: Seq<Seq<u16>>)
    ensures
        g.csi(params, no_prefix(), 0x75) == g.cursor_restored(),
{
    carried_move(g, params, no_prefix(), 0x75, Move::Restore);
}

proof fn means_vpa(g: GridState, params: Seq<Seq<u16>>)
    ensures
        g.csi(params, no_prefix(), 0x64) == g.at(
            super::state::min(super::state::monus(first_param(params), 1), g.screen.rows - 1),
            g.col,
        ),
{
    carried_move(g, params, no_prefix(), 0x64, Move::Row(first_param(params) as u16));
}

proof fn means_sc(g: GridState)
    ensures
        g.csi(Seq::empty(), no_prefix(), 0x73) == g.cursor_saved(),
{
    carried_move(g, Seq::empty(), no_prefix(), 0x73, Move::Save);
}

// ---------------------------------------------------------------------------
// Erasing
// ---------------------------------------------------------------------------

/// ED erases from the cursor on (0), up to the cursor (1), or the whole screen
/// (2), between the margins, in the colours of the pen; all else stays. DECSED
/// spares protected cells.
pub proof fn display_erasure_by_cell(
    g: GridState,
    params: Seq<Seq<u16>>,
    selective: bool,
    r: int,
    c: int,
)
    requires
        g.wf(),
        on_screen(g, r, c),
        sides_reach_cursor(g),
        first_param(params) <= 2,
    ensures
        ({
            let t = g.csi(
                params,
                if selective {
                    seq![0x3fu8]
                } else {
                    no_prefix()
                },
                0x4a,
            );
            let before = r < g.row || (r == g.row && c < g.col);
            let after = r > g.row || (r == g.row && c > g.col);
            let spared = selective && cell_at(g, r, c).attrs@.protected;
            let meant = if first_param(params) == 0 {
                !before
            } else if first_param(params) == 1 {
                !after
            } else {
                true
            };
            &&& only_cells_differ(g, t)
            &&& cell_at(t, r, c) == if meant && in_sides(g, c) && !spared {
                blank_of(g.pen.fg, g.pen.bg)
            } else {
                cell_at(g, r, c)
            }
        }),
{
    means_ed(g, params);
    means_decsed(g, params);
    reveal(ScreenState::map_lines);
    reveal(ScreenState::filled);
}

/// ED 3 does what ED 2 does, and the history is gone too.
pub proof fn history_erasure(g: GridState)
    requires
        g.wf(),
    ensures
        ({
            let t = g.csi(seq![seq![3u16]], no_prefix(), 0x4a);
            let u = g.csi(seq![seq![2u16]], no_prefix(), 0x4a);
            &&& t.screen.scrollback.len() == 0
            &&& t.screen.history_markers.len() == 0
            &&& t.view.offset == 0
            &&& t == (GridState {
                screen: ScreenState {
                    scrollback: t.screen.scrollback,
                    history_markers: t.screen.history_markers,
                    ..u.screen
                },
                view: t.view,
                ..u
            })
            &&& u.screen.images.len() == 0
        }),
{
    means_ed(g, seq![seq![3u16]]);
    means_ed(g, seq![seq![2u16]]);
    reveal(ScreenState::map_lines);
}

/// EL erases the cursor's line from the cursor on (0), up to it (1), or whole
/// (2), between the margins; all else stays. DECSEL spares protected cells.
pub proof fn line_erasure_by_cell(
    g: GridState,
    params: Seq<Seq<u16>>,
    selective: bool,
    r: int,
    c: int,
)
    requires
        g.wf(),
        on_screen(g, r, c),
        sides_reach_cursor(g),
        first_param(params) <= 2,
    ensures
        ({
            let t = g.csi(
                params,
                if selective {
                    seq![0x3fu8]
                } else {
                    no_prefix()
                },
                0x4b,
            );
            let spared = selective && cell_at(g, r, c).attrs@.protected;
            let meant = if first_param(params) == 0 {
                c >= g.col
            } else if first_param(params) == 1 {
                c <= g.col
            } else {
                true
            };
            &&& only_cells_differ(g, t)
            &&& cell_at(t, r, c) == if r == g.row && meant && in_sides(g, c) && !spared {
                blank_of(g.pen.fg, g.pen.bg)
            } else {
                cell_at(g, r, c)
            }
        }),
{
    means_el(g, params);
    means_decsel(g, params);
    reveal(ScreenState::put_line);
    reveal(ScreenState::filled);
}

/// ECH erases as many cells as it is told from the cursor on, and no more.
pub proof fn char_erasure_by_cell(g: GridState, params: Seq<Seq<u16>>, r: int, c: int)
    requires
        g.wf(),
        on_screen(g, r, c),
    ensures
        ({
            let t = g.csi(params, no_prefix(), 0x58);
            &&& only_cells_differ(g, t)
            &&& t.screen.images == g.screen.images
            &&& cell_at(t, r, c) == if r == g.row && g.col <= c < g.col + times(params) {
                blank_of(g.pen.fg, g.pen.bg)
            } else {
                cell_at(g, r, c)
            }
        }),
{
    means_ech(g, params);
    reveal(ScreenState::put_line);
    reveal(ScreenState::filled);
}

// ---------------------------------------------------------------------------
// Inserting and deleting characters and columns
// ---------------------------------------------------------------------------

/// ICH moves the cells from the cursor on to the right, up to the right margin,
/// and puts blanks in their place.
pub proof fn char_insertion_by_cell(g: GridState, params: Seq<Seq<u16>>, r: int, c: int)
    requires
        g.wf(),
        on_screen(g, r, c),
    ensures
        ({
            let t = g.csi(params, no_prefix(), 0x40);
            let n = times(params);
            let free = g.margins.horizontal ==> c <= g.margins.right;
            &&& only_cells_differ(g, t)
            &&& t.screen.images == g.screen.images
            &&& cell_at(t, r, c) == if r == g.row && c >= g.col && free {
                if c - n >= g.col {
                    cell_at(g, r, c - n)
                } else {
                    blank_of(Color::Default, Color::Default)
                }
            } else {
                cell_at(g, r, c)
            }
        }),
{
    means_ich(g, params);
    reveal(ScreenState::put_line);
    reveal(ScreenState::filled);
}

/// DCH takes cells away at the cursor: those right of them move left, up to the
/// right margin, and blanks follow.
pub proof fn char_deletion_by_cell(g: GridState, params: Seq<Seq<u16>>, r: int, c: int)
    requires
        g.wf(),
        on_screen(g, r, c),
    ensures
        ({
            let t = g.csi(params, no_prefix(), 0x50);
            let n = times(params);
            let last = if g.margins.horizontal && g.margins.right < g.screen.cols {
                g.margins.right
            } else {
                g.screen.cols - 1
            };
            &&& only_cells_differ(g, t)
            &&& t.screen.images == g.screen.images
            &&& r == g.row && g.col <= c <= last ==> cell_at(t, r, c).dirtied() == if c + n <= last {
                cell_at(g, r, c + n).dirtied()
            } else {
                blank_of(Color::Default, Color::Default)
            }
            &&& !(r == g.row && g.col <= c <= last) ==> cell_at(t, r, c) == cell_at(g, r, c)
        }),
{
    means_dch(g, params);
    reveal(ScreenState::put_line);
    reveal(ScreenState::filled);
}

/// DECIC and DECDC move the cells of every line at and right of the cursor, as
/// far as the right margin, and put blanks in the colours of the pen where they
/// came from.
pub proof fn columns_by_cell(g: GridState, params: Seq<Seq<u16>>, r: int, c: int)
    requires
        g.wf(),
        on_screen(g, r, c),
    ensures
        ({
            let t = g.csi(params, seq![0x27u8], 0x7d);
            let u = g.csi(params, seq![0x27u8], 0x7e);
            let n = times(params);
            let last = if g.margins.horizontal && g.margins.right < g.screen.cols {
                g.margins.right
            } else {
                g.screen.cols - 1
            };
            let blank = CellState { attrs: g.pen.attrs, ..blank_of(g.pen.fg, g.pen.bg) };
            &&& only_cells_differ(g, t)
            &&& only_cells_differ(g, u)
            &&& g.col <= c <= last ==> {
                &&& cell_at(t, r, c) == if c - n >= g.col {
                    cell_at(g, r, c - n)
                } else {
                    blank
                }
                &&& cell_at(u, r, c).dirtied() == if c + n <= last {
                    cell_at(g, r, c + n).dirtied()
                } else {
                    blank
                }
            }
            &&& !(g.col <= c <= last) ==> cell_at(t, r, c) == cell_at(g, r, c) && cell_at(u, r, c)
                == cell_at(g, r, c)
        }),
{
    means_decic(g, params);
    means_decdc(g, params);
    reveal(ScreenState::map_lines);
    reveal(ScreenState::filled);
}

// ---------------------------------------------------------------------------
// Rectangles
// ---------------------------------------------------------------------------

/// The rows of a rectangle count from 1, in origin mode from the top margin.
pub open spec fn first_row(g: GridState) -> int {
    if g.modes.origin_mode {
        g.margins.top - 1
    } else {
        -1
    }
}

/// DECFRA fills a rectangle with a character in the colours and attributes of
/// the pen, and nothing else.
pub proof fn rectangle_filling_by_cell(
    g: GridState,
    ch: u16,
    top: u16,
    left: u16,
    bottom: u16,
    right: u16,
    r: int,
    c: int,
)
    requires
        g.wf(),
        on_screen(g, r, c),
        1 <= top <= bottom,
        1 <= left <= right,
        ch < 0xd800,
        on_screen(g, top + first_row(g), left - 1),
    ensures
        ({
            let t = g.csi(
                seq![seq![ch], seq![top], seq![left], seq![bottom], seq![right]],
                seq![0x24u8],
                0x78,
            );
            let inside = top + first_row(g) <= r <= bottom + first_row(g) && left - 1 <= c < right;
            &&& only_cells_differ(g, t)
            &&& t.screen.images == g.screen.images
            &&& inside ==> cell_at(t, r, c).ch as int == ch && cell_at(t, r, c) == (CellState {
                ch: cell_at(t, r, c).ch,
                attrs: g.pen.attrs,
                ..blank_of(g.pen.fg, g.pen.bg)
            })
            &&& !inside ==> cell_at(t, r, c) == cell_at(g, r, c)
        }),
{
    carried_edit(
        g,
        seq![seq![ch], seq![top], seq![left], seq![bottom], seq![right]],
        seq![0x24u8],
        0x78,
        Edit::FillRect(ch, top, left, bottom, right),
    );
    reveal(ScreenState::map_lines);
    reveal(ScreenState::filled);
}

/// DECERA makes the cells of a rectangle plain blanks, and DECSERA those that
/// are not protected; neither changes anything else.
pub proof fn rectangle_erasure_by_cell(
    g: GridState,
    top: u16,
    left: u16,
    bottom: u16,
    right: u16,
    selective: bool,
    r: int,
    c: int,
)
    requires
        g.wf(),
        on_screen(g, r, c),
        1 <= top <= bottom,
        1 <= left <= right,
        on_screen(g, top + first_row(g), left - 1),
    ensures
        ({
            let t = g.csi(
                seq![seq![top], seq![left], seq![bottom], seq![right]],
                seq![0x24u8],
                if selective {
                    0x7b
                } else {
                    0x7a
                },
            );
            let inside = top + first_row(g) <= r <= bottom + first_row(g) && left - 1 <= c < right;
            let spared = selective && cell_at(g, r, c).attrs@.protected;
            &&& only_cells_differ(g, t)
            &&& t.screen.images == g.screen.images
            &&& cell_at(t, r, c) == if inside && !spared {
                blank_of(Color::Default, Color::Default)
            } else {
                cell_at(g, r, c)
            }
        }),
{
    carried_edit(
        g,
        seq![seq![top], seq![left], seq![bottom], seq![right]],
        seq![0x24u8],
        if selective {
            0x7b
        } else {
            0x7a
        },
        Edit::EraseRect(top, left, bottom, right, selective),
    );
    reveal(ScreenState::map_lines);
    reveal(ScreenState::filled);
}

/// DECALN fills the screen with plain `E`s, homes the cursor and gives the
/// scroll region the whole screen.
pub proof fn alignment_by_cell(g: GridState, r: int, c: int)
    requires
        g.wf(),
        on_screen(g, r, c),
    ensures
        ({
            let t = g.esc(seq![0x23u8], 0x38);
            &&& cell_at(t, r, c).ch == 'E'
            &&& cell_at(t, r, c) == (CellState {
                ch: 'E',
                combining: cell_at(t, r, c).combining,
                ..blank_of(Color::Default, Color::Default)
            })
            &&& t.row == 0 && t.col == 0
            &&& t.margins.top == 0 && t.margins.bottom == g.screen.rows - 1
            &&& t.screen.scrollback == g.screen.scrollback && t.pen == g.pen
        }),
{
    reveal(GridState::esc);
    reveal(GridState::esc_hash);
    reveal(ScreenState::map_lines);
    reveal(ScreenState::filled);
}

// ---------------------------------------------------------------------------
// Lines
// ---------------------------------------------------------------------------

/// IL moves the lines from the cursor to the bottom margin down and puts blank
/// lines at the cursor; outside the scroll region it does nothing.
pub proof fn line_insertion_by_cell(g: GridState, params: Seq<Seq<u16>>, r: int, c: int)
    requires
        g.wf(),
        on_screen(g, r, c),
    ensures
        ({
            let t = g.csi(params, no_prefix(), 0x4c);
            let n = times(params);
            let inside = g.margins.top <= g.row <= g.margins.bottom;
            &&& only_lines_differ(g, t)
            &&& !inside ==> t == g
            &&& inside && g.row <= r <= g.margins.bottom ==> cell_at(t, r, c).dirtied() == if r - n
                >= g.row {
                cell_at(g, r - n, c).dirtied()
            } else {
                blank_of(Color::Default, Color::Default)
            }
            &&& !(g.row <= r <= g.margins.bottom) ==> cell_at(t, r, c) == cell_at(g, r, c)
        }),
{
    means_il(g, params);
    reveal(ScreenState::lines_down);
    reveal(ScreenState::dirtied);
    reveal(ScreenState::filled);
}

/// DL takes lines away at the cursor: those below, down to the bottom margin,
/// move up, and blank lines follow; outside the scroll region it does nothing.
/// What is deleted does not enter the history.
pub proof fn line_deletion_by_cell(g: GridState, params: Seq<Seq<u16>>, r: int, c: int)
    requires
        g.wf(),
        on_screen(g, r, c),
    ensures
        ({
            let t = g.csi(params, no_prefix(), 0x4d);
            let n = times(params);
            let inside = g.margins.top <= g.row <= g.margins.bottom;
            &&& only_lines_differ(g, t)
            &&& !inside ==> t == g
            &&& inside && g.row <= r <= g.margins.bottom ==> cell_at(t, r, c).dirtied() == if r + n
                <= g.margins.bottom {
                cell_at(g, r + n, c).dirtied()
            } else {
                blank_of(Color::Default, Color::Default)
            }
            &&& !(g.row <= r <= g.margins.bottom) ==> cell_at(t, r, c) == cell_at(g, r, c)
        }),
{
    means_dl(g, params);
    reveal(ScreenState::lines_up);
    reveal(ScreenState::dirtied);
    reveal(ScreenState::filled);
}

/// SD moves the lines of the scroll region down, with blank lines at its top.
pub proof fn scrolling_down_by_cell(g: GridState, params: Seq<Seq<u16>>, r: int, c: int)
    requires
        g.wf(),
        on_screen(g, r, c),
    ensures
        ({
            let t = g.csi(params, no_prefix(), 0x54);
            let n = times(params);
            &&& only_lines_differ(g, t)
            &&& g.margins.top <= r <= g.margins.bottom ==> cell_at(t, r, c).dirtied() == if r - n
                >= g.margins.top {
                cell_at(g, r - n, c).dirtied()
            } else {
                blank_of(Color::Default, Color::Default)
            }
            &&& !(g.margins.top <= r <= g.margins.bottom) ==> cell_at(t, r, c) == cell_at(g, r, c)
        }),
{
    means_sd(g, params);
    reveal(ScreenState::lines_down);
    reveal(ScreenState::dirtied);
    reveal(ScreenState::filled);
}

/// RI at the top margin scrolls the region down by a line, and elsewhere moves
/// the cursor up.
pub proof fn reverse_index_by_cell(g: GridState, r: int, c: int)
    requires
        g.wf(),
        on_screen(g, r, c),
    ensures
        ({
            let t = g.esc(no_prefix(), 0x4d);
            if g.row == g.margins.top {
                &&& only_lines_differ(g, t)
                &&& g.margins.top < r <= g.margins.bottom ==> cell_at(t, r, c).dirtied() == cell_at(
                    g,
                    r - 1,
                    c,
                ).dirtied()
                &&& r == g.margins.top ==> cell_at(t, r, c) == blank_of(
                    Color::Default,
                    Color::Default,
                )
                &&& !(g.margins.top <= r <= g.margins.bottom) ==> cell_at(t, r, c) == cell_at(
                    g,
                    r,
                    c,
                )
            } else {
                t == (GridState {
                    row: if g.row > 0 {
                        g.row - 1
                    } else {
                        0
                    },
                    ..g
                })
            }
        }),
{
    reveal(GridState::esc);
    reveal(GridState::esc_final);
    reveal(ScreenState::lines_down);
    reveal(ScreenState::dirtied);
    reveal(ScreenState::filled);
}

/// LF, VT and FF at the bottom margin scroll the region up by a line; on the
/// primary screen the line that leaves is the newest of the history, whose
/// oldest makes room for it. Elsewhere they move the cursor down, on the screen.
pub proof fn line_feed_by_cell(g: GridState, b: u8, r: int, c: int)
    requires
        g.wf(),
        on_screen(g, r, c),
        0x0a <= b <= 0x0c,
    ensures
        ({
            let t = g.executed(b);
            let h = g.screen.scrollback;
            let k = t.screen.scrollback;
            if g.row == g.margins.bottom {
                &&& t == (GridState { screen: t.screen, ..g })
                &&& g.margins.top <= r < g.margins.bottom ==> cell_at(t, r, c).dirtied() == cell_at(
                    g,
                    r + 1,
                    c,
                ).dirtied()
                &&& r == g.margins.bottom ==> cell_at(t, r, c) == blank_of(
                    Color::Default,
                    Color::Default,
                )
                &&& !(g.margins.top <= r <= g.margins.bottom) ==> cell_at(t, r, c) == cell_at(
                    g,
                    r,
                    c,
                )
                &&& g.screen.alt_active ==> k == h && t.screen.primary == g.screen.primary
                &&& !g.screen.alt_active ==> {
                    &&& g.screen.capacity == 0 ==> k.len() == 0
                    &&& h.len() < g.screen.capacity ==> k == h.push(g.screen.primary[g.margins.top])
                    &&& h.len() == g.screen.capacity && h.len() > 0 ==> k == h.skip(1).push(
                        g.screen.primary[g.margins.top],
                    )
                }
            } else {
                t == (GridState {
                    row: if g.row + 1 < g.screen.rows {
                        g.row + 1
                    } else {
                        g.row
                    },
                    ..g
                })
            }
        }),
{
    reveal(GridState::executed);
    reveal(ScreenState::lines_up);
    reveal(ScreenState::archived);
    reveal(ScreenState::dirtied);
    reveal(ScreenState::filled);
    let h = g.screen.scrollback;
    let top = g.margins.top;
    let line = g.screen.primary.subrange(top, top + 1);
    assert(line =~= seq![g.screen.primary[top]]);
    if !g.screen.alt_active && g.row == g.margins.bottom {
        let k = g.executed(b).screen.scrollback;
        if h.len() < g.screen.capacity {
            assert(k =~= h.push(g.screen.primary[top]));
        } else if h.len() > 0 {
            assert(k =~= h.skip(1).push(g.screen.primary[top]));
        }
    }
}

// ---------------------------------------------------------------------------
// The cursor
// ---------------------------------------------------------------------------

/// CUU, CUD, CUF and CUB move the cursor by as many rows or columns as they are
/// told, and not past a margin; nothing else changes.
pub proof fn relative_moves(g: GridState, params: Seq<Seq<u16>>)
    requires
        g.wf(),
        g.margins.horizontal ==> g.margins.right < g.screen.cols,
    ensures
        ({
            let n = times(params);
            let first = if g.margins.horizontal {
                g.margins.left
            } else {
                0
            };
            let last = if g.margins.horizontal {
                g.margins.right
            } else {
                g.screen.cols - 1
            };
            &&& g.csi(params, no_prefix(), 0x41) == (GridState {
                row: if g.row - n >= g.margins.top {
                    g.row - n
                } else {
                    g.margins.top
                },
                ..g
            })
            &&& g.csi(params, no_prefix(), 0x42) == (GridState {
                row: if g.row + n <= g.margins.bottom {
                    g.row + n
                } else {
                    g.margins.bottom
                },
                ..g
            })
            &&& g.csi(params, no_prefix(), 0x43) == (GridState {
                col: if g.col + n <= last {
                    g.col + n
                } else {
                    last
                },
                ..g
            })
            &&& g.csi(params, no_prefix(), 0x44) == (GridState {
                col: if g.col - n >= first {
                    g.col - n
                } else {
                    first
                },
                ..g
            })
        }),
{
    means_cuu(g, params);
    means_cud(g, params);
    means_cuf(g, params);
    means_cub(g, params);
}

/// CNL and CPL go to the start of a line below or above, on the screen.
pub proof fn line_moves(g: GridState, params: Seq<Seq<u16>>)
    requires
        g.wf(),
    ensures
        g.csi(params, no_prefix(), 0x45) == (GridState {
            row: within(g.row + times(params), 0, g.screen.rows - 1),
            col: 0,
            ..g
        }),
        g.csi(params, no_prefix(), 0x46) == (GridState {
            row: within(g.row - times(params), 0, g.screen.rows - 1),
            col: 0,
            ..g
        }),
{
    means_cnl(g, params);
    means_cpl(g, params);
}

/// CUP and HVP go to a row and a column, CHA to a column, and VPA to a row,
/// counted from 1 and kept on the screen. In origin mode CUP, HVP and CHA count
/// from the margins and stay within them.
pub proof fn absolute_moves(g: GridState, params: Seq<Seq<u16>>)
    requires
        g.wf(),
        g.margins.horizontal ==> g.margins.right < g.screen.cols,
    ensures
        ({
            let p = if first_param(params) == 0 {
                1
            } else {
                first_param(params)
            };
            let q = if second_param(params) == 0 {
                1
            } else {
                second_param(params)
            };
            let sides = g.modes.origin_mode && g.margins.horizontal;
            let left = if sides {
                g.margins.left
            } else {
                0
            };
            let right = if sides {
                g.margins.right
            } else {
                g.screen.cols - 1
            };
            let (top, bottom) = if g.modes.origin_mode {
                (g.margins.top, g.margins.bottom)
            } else {
                (0, g.screen.rows - 1)
            };
            let there = GridState {
                row: within(top + p - 1, top, bottom),
                col: within(left + q - 1, left, right),
                ..g
            };
            &&& g.csi(params, no_prefix(), 0x48) == there
            &&& g.csi(params, no_prefix(), 0x66) == there
            &&& g.csi(params, no_prefix(), 0x47) == (GridState {
                col: within(left + p - 1, left, right),
                ..g
            })
            &&& g.csi(params, no_prefix(), 0x64) == (GridState {
                row: within(p - 1, 0, g.screen.rows - 1),
                ..g
            })
        }),
{
    means_cup(g, params);
    means_hvp(g, params);
    means_cha(g, params);
    means_vpa(g, params);
}

/// CR goes to the first column and BS a column back, where there is one; BEL
/// rings; SO and SI choose the character set. None of them changes anything
/// else.
pub proof fn plain_controls(g: GridState)
    requires
        g.wf(),
    ensures
        g.executed(0x0d) == (GridState { col: 0, ..g }),
        g.executed(0x08) == (GridState {
            col: if g.col > 0 {
                g.col - 1
            } else {
                0
            },
            ..g
        }),
        g.executed(0x07).outbox.bell,
        g.executed(0x07) == (GridState { outbox: g.executed(0x07).outbox, ..g }),
        g.executed(0x07).outbox.responses == g.outbox.responses,
        g.executed(0x0e) == (GridState { charsets: g.executed(0x0e).charsets, ..g }),
        g.executed(0x0e).charsets.active == 1,
        g.executed(0x0f).charsets.active == 0,
        g.executed(0x0e).charsets.g0 == g.charsets.g0 && g.executed(0x0e).charsets.g1
            == g.charsets.g1,
        g.executed(0x0e).executed(0x0f).charsets.g0 == g.charsets.g0,
        forall|b: u8| b < 0x07 || 0x10 <= b < 0x20 ==> #[trigger] g.executed(b) == g,
{
    reveal(GridState::executed);
}

// ---------------------------------------------------------------------------
// Margins
// ---------------------------------------------------------------------------

/// DECSTBM makes the rows that it names the scroll region, all of them where it
/// names none, and homes the cursor. A region of fewer than two rows, or one
/// that passes the screen, is not taken.
pub proof fn scroll_region(g: GridState, params: Seq<Seq<u16>>)
    requires
        g.wf(),
    ensures
        ({
            let t = g.csi(params, no_prefix(), 0x72);
            let top = if first_param(params) == 0 {
                1
            } else {
                first_param(params)
            };
            let bottom = if second_param(params) == 0 {
                g.screen.rows
            } else {
                second_param(params)
            };
            &&& t == (GridState { margins: t.margins, row: 0, col: 0, ..g })
            &&& t.margins.left == 0 && t.margins.right == g.screen.cols - 1
            &&& t.margins.horizontal == g.margins.horizontal
            &&& top < bottom <= g.screen.rows ==> t.margins.top == top - 1 && t.margins.bottom
                == bottom - 1
            &&& !(top < bottom <= g.screen.rows) ==> t.margins.top == g.margins.top
                && t.margins.bottom == g.margins.bottom
        }),
{
    means_stbm(g, params);
}

/// DECSLRM sets the left and right margins, while DECLRMM is on, and puts the
/// cursor in their upper left corner; the scroll region is the whole height.
pub proof fn side_margins(g: GridState, left: u16, right: u16)
    requires
        g.wf(),
        1 <= left <= right <= g.screen.cols,
    ensures
        ({
            let t = g.csi(seq![seq![left], seq![right]], no_prefix(), 0x73);
            &&& t.margins.top == 0 && t.margins.bottom == g.screen.rows - 1
            &&& t.margins.horizontal == g.margins.horizontal
            &&& t == (GridState { margins: t.margins, row: 0, col: t.margins.left, ..g })
            &&& g.margins.horizontal ==> t.margins.left == left - 1 && t.margins.right == right - 1
            &&& !g.margins.horizontal ==> t.margins.left == 0 && t.margins.right == g.screen.cols
                - 1
        }),
{
    carried_setting(
        g,
        seq![seq![left], seq![right]],
        no_prefix(),
        0x73,
        Setting::Sides(left, right),
    );
}

/// DECSC and SCOSC keep the cursor and the pen, and DECRC and SCORC bring them
/// back, whatever was done to the cursor and the pen in between.
pub proof fn saving_and_restoring(g: GridState, row: int, col: int, pen: super::state::Pen)
    requires
        g.wf(),
    ensures
        ({
            let a = g.csi(Seq::empty(), no_prefix(), 0x73);
            let b = g.esc(no_prefix(), 0x37);
            let moved = GridState { row, col, pen, ..a };
            &&& a == b
            &&& moved.csi(Seq::empty(), no_prefix(), 0x75).row == g.row
            &&& moved.csi(Seq::empty(), no_prefix(), 0x75).col == g.col
            &&& moved.csi(Seq::empty(), no_prefix(), 0x75).pen == g.pen
            &&& moved.esc(no_prefix(), 0x38) == moved.csi(Seq::empty(), no_prefix(), 0x75)
            &&& a.screen == g.screen && a.row == g.row && a.col == g.col && a.pen == g.pen
        }),
{
    means_sc(g);
    means_rc(GridState { row, col, pen, ..g.cursor_saved() }, Seq::empty());
    reveal(GridState::esc);
    reveal(GridState::esc_cursor);
}

// ---------------------------------------------------------------------------
// Tab stops
// ---------------------------------------------------------------------------

proof fn first_stop(tabs: Seq<bool>, c: int, k: int)
    requires
        0 <= c <= k < super::cursor::stop_from(tabs, c),
    ensures
        k < tabs.len(),
        !tabs[k],
    decreases tabs.len() - c,
{
    if c < tabs.len() && !tabs[c] && c < k {
        first_stop(tabs, c + 1, k);
    }
}

proof fn first_stop_stops(tabs: Seq<bool>, c: int)
    requires
        c >= 0,
        tabs.len() > 0,
    ensures
        ({
            let s = super::cursor::stop_from(tabs, c);
            &&& s == tabs.len() - 1 || tabs[s]
            &&& c < tabs.len() ==> c <= s < tabs.len()
            &&& c >= tabs.len() ==> s == tabs.len() - 1
        }),
    decreases tabs.len() - c,
{
    if c < tabs.len() && !tabs[c] {
        first_stop_stops(tabs, c + 1);
    }
}

proof fn last_stop(tabs: Seq<bool>, c: int, k: int)
    requires
        super::cursor::stop_before(tabs, c) < k < c,
        0 <= k < tabs.len(),
    ensures
        !tabs[k],
    decreases c,
{
    if c > 0 && !(c - 1 < tabs.len() && tabs[c - 1]) && k < c - 1 {
        last_stop(tabs, c - 1, k);
    }
}

proof fn last_stop_stops(tabs: Seq<bool>, c: int)
    requires
        0 <= c,
    ensures
        ({
            let s = super::cursor::stop_before(tabs, c);
            &&& s == 0 || (s < tabs.len() && tabs[s])
            &&& c > 0 ==> 0 <= s < c
            &&& c == 0 ==> s == 0
        }),
    decreases c,
{
    if c > 0 && !(c - 1 < tabs.len() && tabs[c - 1]) {
        last_stop_stops(tabs, c - 1);
    }
}

/// HT goes to the next tab stop, or to the last column where there is none: no
/// stop lies between. CBT goes back to the one before, or to the first column.
pub proof fn tabs_go_to_stops(g: GridState, k: int)
    requires
        g.wf(),
        0 <= k < g.screen.cols,
    ensures
        ({
            let t = g.executed(0x09);
            let u = g.csi(Seq::empty(), no_prefix(), 0x5a);
            &&& t == (GridState { col: t.col, ..g })
            &&& t == g.csi(Seq::empty(), no_prefix(), 0x49)
            &&& g.col + 1 < g.screen.cols ==> g.col < t.col < g.screen.cols
            &&& g.col + 1 >= g.screen.cols ==> t.col == g.screen.cols - 1
            &&& g.col < k < t.col ==> !g.tabs[k]
            &&& t.col < g.screen.cols - 1 ==> g.tabs[t.col]
            &&& u == (GridState { col: u.col, ..g })
            &&& g.col > 0 ==> 0 <= u.col < g.col
            &&& g.col == 0 ==> u.col == 0
            &&& u.col < k < g.col ==> !g.tabs[k]
            &&& u.col > 0 ==> g.tabs[u.col]
        }),
{
    reveal(GridState::executed);
    means_cht(g, Seq::empty());
    means_cbt(g, Seq::empty());
    reveal_with_fuel(super::cursor::stops_forward, 2);
    reveal_with_fuel(super::cursor::stops_back, 2);
    first_stop_stops(g.tabs, g.col + 1);
    last_stop_stops(g.tabs, g.col);
    let t = g.executed(0x09);
    let u = g.csi(Seq::empty(), no_prefix(), 0x5a);
    if g.col < k < t.col {
        first_stop(g.tabs, g.col + 1, k);
    }
    if u.col < k < g.col {
        last_stop(g.tabs, g.col, k);
    }
}

proof fn forward_splits(tabs: Seq<bool>, col: int, n: nat)
    ensures
        super::cursor::stops_forward(tabs, col, n + 1) == super::cursor::stops_forward(
            tabs,
            super::cursor::stops_forward(tabs, col, n),
            1,
        ),
    decreases n,
{
    reveal_with_fuel(super::cursor::stops_forward, 2);
    if n > 0 {
        forward_splits(tabs, super::cursor::stop_from(tabs, col + 1), (n - 1) as nat);
    }
}

proof fn back_splits(tabs: Seq<bool>, col: int, n: nat)
    ensures
        super::cursor::stops_back(tabs, col, n + 1) == super::cursor::stops_back(
            tabs,
            super::cursor::stops_back(tabs, col, n),
            1,
        ),
    decreases n,
{
    reveal_with_fuel(super::cursor::stops_back, 2);
    if n > 0 {
        back_splits(tabs, super::cursor::stop_before(tabs, col), (n - 1) as nat);
    }
}

proof fn tab_moves(g: GridState, n: u16)
    requires
        n >= 1,
    ensures
        g.csi(seq![seq![n]], no_prefix(), 0x49) == g.tabbed_forward(n as nat),
        g.csi(seq![seq![n]], no_prefix(), 0x5a) == g.tabbed_back(n as nat),
{
    means_cht(g, seq![seq![n]]);
    means_cbt(g, seq![seq![n]]);
}

/// CHT and CBT by several stops are as many steps of one stop.
pub proof fn tabs_add_up(g: GridState, n: u16)
    requires
        1 <= n < 65535,
    ensures
        ({
            let more = seq![seq![(n + 1) as u16]];
            let one = seq![seq![1u16]];
            &&& g.csi(more, no_prefix(), 0x49) == g.csi(seq![seq![n]], no_prefix(), 0x49).csi(
                one,
                no_prefix(),
                0x49,
            )
            &&& g.csi(more, no_prefix(), 0x5a) == g.csi(seq![seq![n]], no_prefix(), 0x5a).csi(
                one,
                no_prefix(),
                0x5a,
            )
        }),
{
    tab_moves(g, n);
    tab_moves(g, (n + 1) as u16);
    tab_moves(g.tabbed_forward(n as nat), 1);
    tab_moves(g.tabbed_back(n as nat), 1);
    forward_splits(g.tabs, g.col, n as nat);
    back_splits(g.tabs, g.col, n as nat);
}

/// HTS sets the stop at the cursor, TBC clears it, and TBC 3 clears all; the
/// other stops stay.
pub proof fn stops_are_set_and_cleared(g: GridState, k: int)
    requires
        g.wf(),
        g.col < g.screen.cols,
        0 <= k < g.screen.cols,
    ensures
        ({
            let set = g.esc(no_prefix(), 0x48);
            let clear = g.csi(Seq::empty(), no_prefix(), 0x67);
            let none = g.csi(seq![seq![3u16]], no_prefix(), 0x67);
            &&& set == (GridState { tabs: set.tabs, ..g })
            &&& clear == (GridState { tabs: clear.tabs, ..g })
            &&& none == (GridState { tabs: none.tabs, ..g })
            &&& set.tabs.len() == g.tabs.len() && clear.tabs.len() == g.tabs.len()
            &&& set.tabs[k] == (g.tabs[k] || k == g.col)
            &&& clear.tabs[k] == (g.tabs[k] && k != g.col)
            &&& !none.tabs[k] && none.tabs.len() == g.tabs.len()
        }),
{
    means_tbc(g, Seq::empty());
    means_tbc(g, seq![seq![3u16]]);
    reveal(GridState::esc);
    reveal(GridState::esc_cursor);
}

// ---------------------------------------------------------------------------
// Printing
// ---------------------------------------------------------------------------

/// A character prints as itself in the colours, attributes and link in force,
/// at the cursor, which goes on by a column; no other cell changes. The DEC
/// graphics set is another matter.
pub proof fn printing_by_cell(g: GridState, ch: char, r: int, c: int)
    requires
        g.wf(),
        on_screen(g, r, c),
        super::print::char_width(ch) == 1,
        g.charsets.active != 1 ==> g.charsets.g0 != 0x30,
        g.charsets.active == 1 ==> g.charsets.g1 != 0x30,
        !g.modes.insert_mode,
        g.row <= g.margins.bottom,
        g.col < g.screen.cols,
        g.margins.horizontal ==> g.col <= g.margins.right,
    ensures
        ({
            let t = g.char_printed(ch);
            &&& t.row == g.row && t.col == g.col + 1
            &&& t.last_char == Some(ch)
            &&& only_cells_differ(
                g,
                GridState { row: g.row, col: g.col, last_char: g.last_char, ..t },
            )
            &&& cell_at(t, r, c) == if r == g.row && c == g.col {
                CellState {
                    ch,
                    fg: g.pen.fg,
                    bg: g.pen.bg,
                    attrs: g.pen.attrs,
                    dirty: true,
                    wide_filler: false,
                    hyperlink_id: g.links.active,
                    combining: None,
                }
            } else {
                cell_at(g, r, c)
            }
        }),
{
    reveal(GridState::char_printed);
    reveal(ScreenState::put_line);
    reveal(ScreenState::filled);
}

/// A character two columns wide takes two cells: its own, and a blank of its
/// colours that is marked as its right half.
pub proof fn wide_printing_by_cell(g: GridState, ch: char, r: int, c: int)
    requires
        g.wf(),
        on_screen(g, r, c),
        super::print::char_width(ch) == 2,
        g.charsets.active != 1 ==> g.charsets.g0 != 0x30,
        g.charsets.active == 1 ==> g.charsets.g1 != 0x30,
        !g.modes.insert_mode,
        g.row <= g.margins.bottom,
        g.col + 1 < g.screen.cols,
        g.margins.horizontal ==> g.col + 1 <= g.margins.right,
    ensures
        ({
            let t = g.char_printed(ch);
            let cell = cell_at(t, r, c);
            &&& t.row == g.row && t.col == g.col + 2
            &&& r == g.row && c == g.col ==> cell.ch == ch && !cell.wide_filler && cell.fg
                == g.pen.fg && cell.bg == g.pen.bg && cell.attrs == g.pen.attrs && cell.combining
                is None
            &&& r == g.row && c == g.col + 1 ==> cell.ch == ' ' && cell.wide_filler && cell.fg
                == g.pen.fg && cell.bg == g.pen.bg && cell.attrs == g.pen.attrs
            &&& !(r == g.row && g.col <= c <= g.col + 1) ==> cell == cell_at(g, r, c)
        }),
{
    reveal(GridState::char_printed);
    reveal(ScreenState::put_line);
    reveal(ScreenState::filled);
}

/// A combining character joins the character before the cursor, after those
/// that have joined it, and leaves the cursor alone.
pub proof fn combining_by_cell(g: GridState, ch: char, r: int, c: int)
    requires
        g.wf(),
        on_screen(g, r, c),
        super::print::char_width(ch) == 0,
        g.charsets.active != 1 ==> g.charsets.g0 != 0x30,
        g.charsets.active == 1 ==> g.charsets.g1 != 0x30,
    ensures
        ({
            let t = g.char_printed(ch);
            let cell = cell_at(t, r, c);
            let old = cell_at(g, r, c);
            let before = if g.col > 0 {
                r == g.row && c == g.col - 1
            } else {
                r == g.row - 1 && c == g.screen.cols - 1
            };
            &&& t.row == g.row && t.col == g.col
            &&& before ==> cell == (CellState {
                combining: cell.combining,
                dirty: true,
                ..old
            }) && cell.combining == Some(
                match old.combining {
                    Some(tail) => tail.push(ch),
                    None => seq![ch],
                },
            )
            &&& !before ==> cell == old
        }),
{
    reveal(GridState::char_printed);
    reveal(ScreenState::put_line);
    reveal(ScreenState::filled);
}

/// In insert mode the cells from the cursor on make room: each moves right by
/// the width of the character.
pub proof fn inserting_by_cell(g: GridState, ch: char, r: int, c: int)
    requires
        g.wf(),
        on_screen(g, r, c),
        super::print::char_width(ch) == 1,
        g.charsets.active != 1 ==> g.charsets.g0 != 0x30,
        g.charsets.active == 1 ==> g.charsets.g1 != 0x30,
        g.modes.insert_mode,
        g.row <= g.margins.bottom,
        g.col < g.screen.cols,
        g.margins.horizontal ==> g.col <= g.margins.right,
    ensures
        ({
            let t = g.char_printed(ch);
            &&& t.row == g.row && t.col == g.col + 1
            &&& r == g.row && c == g.col ==> cell_at(t, r, c).ch == ch
            &&& r == g.row && c > g.col ==> cell_at(t, r, c).dirtied() == cell_at(
                g,
                r,
                c - 1,
            ).dirtied()
            &&& r != g.row || c < g.col ==> cell_at(t, r, c) == cell_at(g, r, c)
        }),
{
    reveal(GridState::char_printed);
    reveal(ScreenState::put_line);
    reveal(ScreenState::filled);
}

/// Where the line is full, printing goes on at the start of the next: as after
/// CR and LF. Without autowrap the last character of the line is written over.
pub proof fn printing_wraps(g: GridState, ch: char)
    requires
        g.wf(),
        super::print::char_width(ch) == 1,
        g.charsets.active != 1 ==> g.charsets.g0 != 0x30,
        g.charsets.active == 1 ==> g.charsets.g1 != 0x30,
        g.row <= g.margins.bottom,
        !g.margins.horizontal,
        g.col == g.screen.cols,
    ensures
        g.modes.autowrap ==> g.char_printed(ch) == g.executed(0x0d).executed(0x0a).char_printed(ch),
        !g.modes.autowrap ==> g.char_printed(ch) == (GridState {
            col: g.screen.cols - 1,
            ..g
        }).char_printed(ch),
{
    reveal(GridState::char_printed);
    reveal(GridState::executed);
    reveal(ScreenState::lines_up);
    reveal(ScreenState::archived);
    reveal(ScreenState::dirtied);
}

proof fn performed_more(g: GridState, actions: Seq<ActionState>, a: ActionState)
    ensures
        g.all_performed(actions.push(a)) == g.all_performed(actions).performed(a),
    decreases actions.len(),
{
    if actions.len() > 0 {
        assert(actions.push(a).skip(1) =~= actions.skip(1).push(a));
        performed_more(g.performed(actions[0]), actions.skip(1), a);
    } else {
        assert(actions.push(a).skip(1) =~= Seq::<ActionState>::empty());
        reveal_with_fuel(GridState::all_performed, 2);
    }
}

proof fn repeated_is_printed(g: GridState, ch: char, n: nat)
    ensures
        g.repeated(ch, n) == g.all_performed(Seq::new(n, |i: int| ActionState::Print(ch))),
    decreases n,
{
    reveal(GridState::performed);
    let all = Seq::new(n, |i: int| ActionState::Print(ch));
    if n > 0 {
        repeated_is_printed(g, ch, (n - 1) as nat);
        let fewer = Seq::new((n - 1) as nat, |i: int| ActionState::Print(ch));
        assert(all =~= fewer.push(ActionState::Print(ch)));
        performed_more(g, fewer, ActionState::Print(ch));
    }
}

/// REP prints the last character as many times more, and nothing where there is
/// none.
pub proof fn repetition_prints_again(g: GridState, params: Seq<Seq<u16>>)
    ensures
        g.csi(params, no_prefix(), 0x62) == match g.last_char {
            Some(ch) => g.all_performed(
                Seq::new(times(params) as nat, |i: int| ActionState::Print(ch)),
            ),
            None => g,
        },
{
    carried_edit(g, params, no_prefix(), 0x62, Edit::Repeat(times(params) as u16));
    if let Some(ch) = g.last_char {
        repeated_is_printed(g, ch, times(params) as nat);
    }
}

/// A wide character that does not fit goes to the next line, as if CR and LF
/// came first; without autowrap it goes to the last two columns.
pub proof fn wide_printing_wraps(g: GridState, ch: char)
    requires
        g.wf(),
        super::print::char_width(ch) == 2,
        g.charsets.active != 1 ==> g.charsets.g0 != 0x30,
        g.charsets.active == 1 ==> g.charsets.g1 != 0x30,
        g.row <= g.margins.bottom,
        !g.margins.horizontal,
        g.screen.cols >= 2,
        g.col >= g.screen.cols - 1,
    ensures
        g.modes.autowrap ==> g.char_printed(ch) == g.executed(0x0d).executed(0x0a).char_printed(ch),
        !g.modes.autowrap ==> g.char_printed(ch) == (GridState {
            col: g.screen.cols - 2,
            ..g
        }).char_printed(ch),
{
    reveal(GridState::char_printed);
    reveal(GridState::executed);
    reveal(ScreenState::lines_up);
    reveal(ScreenState::archived);
    reveal(ScreenState::dirtied);
}

/// With side margins the next line begins at the left one, and without autowrap
/// the right one is overprinted.
pub proof fn printing_wraps_between_sides(g: GridState, ch: char)
    requires
        g.wf(),
        super::print::char_width(ch) == 1,
        g.charsets.active != 1 ==> g.charsets.g0 != 0x30,
        g.charsets.active == 1 ==> g.charsets.g1 != 0x30,
        g.row <= g.margins.bottom,
        g.margins.horizontal,
        g.margins.right < g.screen.cols,
        g.margins.right < g.col,
    ensures
        g.modes.autowrap ==> g.char_printed(ch) == (GridState {
            col: g.margins.left,
            ..g
        }).executed(0x0a).char_printed(ch),
        !g.modes.autowrap ==> g.char_printed(ch) == (GridState {
            col: g.margins.right,
            ..g
        }).char_printed(ch),
{
    reveal(GridState::char_printed);
    reveal(GridState::executed);
    reveal(ScreenState::lines_up);
    reveal(ScreenState::archived);
    reveal(ScreenState::dirtied);
}

/// Erasing in a way that is not known erases nothing.
pub proof fn unknown_erasures_do_nothing(g: GridState, n: u16)
    ensures
        n > 3 ==> g.csi(seq![seq![n]], no_prefix(), 0x4a) == g,
        n > 2 ==> g.csi(seq![seq![n]], no_prefix(), 0x4b) == g,
{
    let p = seq![seq![n]];
    assert(p[0] == seq![n]);
    means_ed(g, p);
    carried_edit(g, p, no_prefix(), 0x4b, Edit::EraseLine(n, false));
}

} // verus!
