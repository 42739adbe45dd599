//! Reading the grid: cells, the scrolled view, snapshots, prompts, text and
//! what is to be drawn.
use std::collections::VecDeque;
use std::sync::Arc;
use vstd::prelude::*;

use super::attrs::{ColorPalette, PaletteState};
use super::cell::{
    line_text, line_to_string_from_cells, line_view, lines_view, share, Cell, CellState, Cursor,
    MouseEncoding, MouseMode,
};
use super::screen::{put_line_wf, Screen};
use super::state::{min, GridState, ScreenState, Viewport};
use super::Grid;
use crate::sixel::{placements, PlacementState, SixelPlacement};
use crate::text::copy_bytes;

verus! {

// ---------------------------------------------------------------------------
// Model
// ---------------------------------------------------------------------------

/// The views of a list of strings.
pub open spec fn strings(v: Seq<String>) -> Seq<Seq<char>> {
    Seq::new(v.len(), |i: int| v[i]@)
}

/// True for the bits of a single-precision number above zero.
pub open spec fn positive_bits(bits: u32) -> bool {
    0 < bits <= 0x7f80_0000
}

/// The bits of a single-precision number brought between zero and one; what is
/// not a number, and a negative zero, stays.
pub open spec fn clamped_bits(bits: u32) -> u32 {
    if 0x8000_0000 < bits <= 0xff80_0000 {
        0
    } else if 0x3f80_0000 < bits <= 0x7f80_0000 {
        0x3f80_0000
    } else {
        bits
    }
}

/// The line with no cell to be drawn.
pub open spec fn cleaned_line(line: Seq<CellState>) -> Seq<CellState> {
    Seq::new(line.len(), |i: int| CellState { dirty: false, ..line[i] })
}

/// The cells from `from` up to `to` to be drawn again.
pub open spec fn range_dirtied(line: Seq<CellState>, from: int, to: int) -> Seq<CellState> {
    Seq::new(
        line.len(),
        |i: int|
            if from <= i < to {
                line[i].dirtied()
            } else {
                line[i]
            },
    )
}

impl ScreenState {
    /// The cell in column `c` of row `r` is to be drawn.
    pub open spec fn cell_dirty(self, r: int, c: int) -> bool {
        if self.is_blank[r] {
            self.blank_dirty[r]
        } else {
            self.active()[r][c].dirty
        }
    }

    /// Some cell is to be drawn.
    pub open spec fn any_dirty(self) -> bool {
        exists|r: int, c: int|
            0 <= r < self.rows && 0 <= c < self.cols && #[trigger] self.cell_dirty(r, c)
    }

    /// The cells to be drawn, row by row, before column `c` of row `r`.
    pub open spec fn dirty_before(self, r: int, c: int) -> Seq<(usize, usize)>
        decreases r, c,
    {
        if r < 0 || c < 0 {
            Seq::empty()
        } else if c > 0 {
            let before = self.dirty_before(r, c - 1);
            if self.cell_dirty(r, c - 1) {
                before.push((r as usize, (c - 1) as usize))
            } else {
                before
            }
        } else if r > 0 {
            self.dirty_before(r - 1, self.cols)
        } else {
            Seq::empty()
        }
    }

    /// Nothing of the first `n` rows to be drawn.
    #[verifier::opaque]
    pub open spec fn cleaned(self, n: int) -> ScreenState {
        ScreenState {
            blank_dirty: Seq::new(
                self.blank_dirty.len(),
                |r: int| self.blank_dirty[r] && !(r < n && self.is_blank[r]),
            ),
            ..self
        }.with_active(
            Seq::new(
                self.active().len(),
                |r: int|
                    if r < n && !self.is_blank[r] {
                        cleaned_line(self.active()[r])
                    } else {
                        self.active()[r]
                    },
            ),
        )
    }

    /// The cell in column `c` of row `r` to be drawn again; in a blank row, the
    /// whole row.
    pub open spec fn cell_dirtied(self, r: int, c: int) -> ScreenState {
        if self.is_blank[r] {
            ScreenState { blank_dirty: self.blank_dirty.update(r, true), ..self }
        } else {
            self.put_line(r, range_dirtied(self.active()[r], c, c + 1))
        }
    }

    /// The markers of the scrollback and then of the visible rows.
    pub open spec fn marker_stream(self) -> Seq<u8> {
        self.history_markers + self.markers
    }

    /// The text of every line of the screen.
    pub open spec fn texts(self) -> Seq<Seq<char>> {
        Seq::new(self.active().len(), |r: int| line_text(self.active()[r]))
    }

    /// The text of every line of the scrollback and then of the screen.
    pub open spec fn all_texts(self) -> Seq<Seq<char>> {
        Seq::new(self.scrollback.len(), |i: int| line_text(self.scrollback[i])) + self.texts()
    }
}

impl GridState {
    /// How many lines of scrollback the view shows.
    pub open spec fn shown_history(self) -> int {
        min(self.view.offset, self.screen.scrollback.len() as int)
    }

    /// The cell that the view shows in column `col` of row `row`.
    pub open spec fn cell_at_view(self, col: int, row: int) -> Option<CellState> {
        let k = self.shown_history();
        if row >= self.screen.rows || col >= self.screen.cols {
            None
        } else if row < k {
            let line = self.screen.scrollback[self.screen.scrollback.len() - k + row];
            if col < line.len() {
                Some(line[col])
            } else {
                None
            }
        } else {
            Some(self.screen.active()[row - k][col])
        }
    }
}

/// Cleaning one more row.
proof fn cleaned_step(s: ScreenState, n: int)
    requires
        s.wf(),
        0 <= n < s.rows,
    ensures
        s.cleaned(n).is_blank == s.is_blank,
        s.cleaned(n).active()[n] == s.active()[n],
        s.cleaned(n).blank_dirty[n] == s.blank_dirty[n],
        s.cleaned(n + 1) == if s.is_blank[n] {
            ScreenState {
                blank_dirty: s.cleaned(n).blank_dirty.update(n, false),
                ..s.cleaned(n)
            }
        } else {
            s.cleaned(n).put_line(n, cleaned_line(s.active()[n]))
        },
{
    reveal(ScreenState::cleaned);
    reveal(ScreenState::put_line);
    let a = s.cleaned(n + 1);
    let b = if s.is_blank[n] {
        ScreenState { blank_dirty: s.cleaned(n).blank_dirty.update(n, false), ..s.cleaned(n) }
    } else {
        s.cleaned(n).put_line(n, cleaned_line(s.active()[n]))
    };
    assert(a.is_blank =~= b.is_blank);
    assert(a.blank_dirty =~= b.blank_dirty);
    assert(a.active() =~= b.active());
    assert(a.primary =~= b.primary && a.alt =~= b.alt);
}

/// Cleaning keeps the screen well formed.
proof fn cleaned_wf(s: ScreenState, n: int)
    requires
        s.wf(),
    ensures
        s.cleaned(n).wf(),
        s.cleaned(n).same_shape(s),
{
    reveal(ScreenState::cleaned);
    reveal(ScreenState::filled);
    let t = s.cleaned(n);
    assert forall|r: int| 0 <= r < t.rows && #[trigger] t.is_blank[r] implies t.active()[r]
        == super::cell::blank_line(t.cols) by {
        assert(s.is_blank[r]);
    }
    assert forall|r: int| 0 <= r < t.rows implies (#[trigger] t.primary[r]).len() == t.cols by {
        assert(s.primary[r].len() == s.cols);
    }
    assert forall|r: int| 0 <= r < t.rows implies (#[trigger] t.alt[r]).len() == t.cols by {
        assert(s.alt[r].len() == s.cols);
    }
}

/// Once all that is to be drawn has been taken, nothing is to be drawn.
pub proof fn taking_leaves_nothing(s: ScreenState)
    requires
        s.wf(),
    ensures
        !s.cleaned(s.rows).any_dirty(),
        s.cleaned(s.rows).dirty_before(s.rows - 1, s.cols) == Seq::<(usize, usize)>::empty(),
{
    reveal(ScreenState::cleaned);
    reveal(ScreenState::filled);
    let t = s.cleaned(s.rows);
    assert forall|r: int, c: int| 0 <= r < t.rows && 0 <= c < t.cols implies !(
    #[trigger] t.cell_dirty(r, c)) by {
        if !s.is_blank[r] {
            assert(s.active()[r].len() == s.cols);
        }
    }
    nothing_dirty(t, t.rows - 1, t.cols);
}

proof fn nothing_dirty(t: ScreenState, r: int, c: int)
    requires
        0 <= r < t.rows,
        0 <= c <= t.cols,
        1 <= t.cols,
        forall|i: int, j: int|
            0 <= i < t.rows && 0 <= j < t.cols ==> !(#[trigger] t.cell_dirty(i, j)),
    ensures
        t.dirty_before(r, c) == Seq::<(usize, usize)>::empty(),
    decreases r, c,
{
    if c > 0 {
        nothing_dirty(t, r, c - 1);
        assert(!t.cell_dirty(r, c - 1));
    } else if r > 0 {
        nothing_dirty(t, r - 1, t.cols);
    }
}

// ---------------------------------------------------------------------------
// Snapshots
// ---------------------------------------------------------------------------

/// An immutable view of a grid at a point in time. Its lines are shared with
/// the grid, which copies a line before it writes to it.
pub struct GridSnapshot {
    pub cols: usize,
    pub rows: usize,
    /// Lines of the active screen.
    pub cells: Vec<Arc<Vec<Cell>>>,
    /// Scrollback lines, oldest first.
    pub scrollback: VecDeque<Arc<Vec<Cell>>>,
    pub line_modes: Vec<u8>,
    pub scrollback_offset: usize,
    /// IEEE 754 single-precision bits of the fractional scroll offset.
    pub scroll_fraction: u32,
    pub cursor: Cursor,
    pub cursor_visible: bool,
    pub cursor_shape: u8,
    pub screen_reverse: bool,
    pub synchronized_output: bool,
    pub palette: ColorPalette,
    pub sixel_images: Vec<SixelPlacement>,
    pub mouse_mode: MouseMode,
    pub mouse_encoding: MouseEncoding,
    pub bracketed_paste: bool,
    pub kitty_flags: u8,
    pub modify_other_keys: u8,
    pub application_cursor_keys: bool,
    pub keypad_app: bool,
    pub backarrow_del: bool,
    pub focus_reporting: bool,
    /// Grows with every snapshot that is published.
    pub generation: u64,
    /// What look-ups outside the grid return.
    pub blank_cell: Cell,
}

/// What a snapshot holds.
pub struct SnapshotState {
    pub cols: int,
    pub rows: int,
    pub cells: Seq<Seq<CellState>>,
    pub scrollback: Seq<Seq<CellState>>,
    pub line_modes: Seq<u8>,
    pub view: Viewport,
    pub cursor: Cursor,
    pub cursor_visible: bool,
    pub cursor_shape: u8,
    pub screen_reverse: bool,
    pub synchronized_output: bool,
    pub palette: PaletteState,
    pub images: Seq<PlacementState>,
    pub mouse_mode: MouseMode,
    pub mouse_encoding: MouseEncoding,
    pub bracketed_paste: bool,
    pub kitty_flags: u8,
    pub modify_other_keys: u8,
    pub application_cursor_keys: bool,
    pub keypad_app: bool,
    pub backarrow_del: bool,
    pub focus_reporting: bool,
    pub generation: u64,
    pub blank: CellState,
}

impl View for GridSnapshot {
    type V = SnapshotState;

    open spec fn view(&self) -> SnapshotState {
        SnapshotState {
            cols: self.cols as int,
            rows: self.rows as int,
            cells: lines_view(self.cells@),
            scrollback: lines_view(self.scrollback@),
            line_modes: self.line_modes@,
            view: Viewport {
                offset: self.scrollback_offset as int,
                fraction: self.scroll_fraction,
            },
            cursor: self.cursor,
            cursor_visible: self.cursor_visible,
            cursor_shape: self.cursor_shape,
            screen_reverse: self.screen_reverse,
            synchronized_output: self.synchronized_output,
            palette: self.palette@,
            images: placements(self.sixel_images@),
            mouse_mode: self.mouse_mode,
            mouse_encoding: self.mouse_encoding,
            bracketed_paste: self.bracketed_paste,
            kitty_flags: self.kitty_flags,
            modify_other_keys: self.modify_other_keys,
            application_cursor_keys: self.application_cursor_keys,
            keypad_app: self.keypad_app,
            backarrow_del: self.backarrow_del,
            focus_reporting: self.focus_reporting,
            generation: self.generation,
            blank: self.blank_cell@,
        }
    }
}

impl GridState {
    /// The snapshot of this state, not yet published.
    pub open spec fn snapshot(self) -> SnapshotState {
        SnapshotState {
            cols: self.screen.cols,
            rows: self.screen.rows,
            cells: self.screen.active(),
            scrollback: self.screen.scrollback,
            line_modes: self.line_modes,
            view: self.view,
            cursor: Cursor { col: self.col as usize, row: self.row as usize },
            cursor_visible: self.modes.cursor_visible,
            cursor_shape: self.modes.cursor_shape,
            screen_reverse: self.modes.screen_reverse,
            synchronized_output: self.modes.synchronized_output,
            palette: self.palette,
            images: self.screen.images,
            mouse_mode: self.modes.mouse_mode,
            mouse_encoding: self.modes.mouse_encoding,
            bracketed_paste: self.modes.bracketed_paste,
            kitty_flags: self.keyboard.flags,
            modify_other_keys: self.modes.modify_other_keys,
            application_cursor_keys: self.modes.application_cursor_keys,
            keypad_app: self.modes.keypad_app,
            backarrow_del: self.modes.backarrow_del,
            focus_reporting: self.modes.focus_reporting,
            generation: 0,
            blank: CellState::empty(),
        }
    }
}

impl GridSnapshot {
    /// True when the view is scrolled up.
    pub fn is_scrolled(&self) -> (r: bool)
        ensures
            r == (self@.view.offset > 0 || positive_bits(self@.view.fraction)),
    {
        self.scrollback_offset > 0 || (0 < self.scroll_fraction && self.scroll_fraction
            <= 0x7f80_0000)
    }

    /// DEC line presentation of a row.
    pub fn line_mode(&self, row: usize) -> (r: u8)
        ensures
            r == if row < self@.line_modes.len() {
                self@.line_modes[row as int]
            } else {
                0
            },
    {
        if row < self.line_modes.len() {
            self.line_modes[row]
        } else {
            0
        }
    }

    /// A cell of the screen; the blank cell outside it.
    pub fn cell(&self, col: usize, row: usize) -> (r: &Cell)
        ensures
            r@ == if row < self@.cells.len() && col < self@.cells[row as int].len() {
                self@.cells[row as int][col as int]
            } else {
                self@.blank
            },
    {
        if row < self.cells.len() && col < self.cells[row].len() {
            &self.cells[row][col]
        } else {
            &self.blank_cell
        }
    }

    /// Number of scrollback lines.
    pub fn scrollback_len(&self) -> (r: usize)
        ensures
            r == self@.scrollback.len(),
    {
        self.scrollback.len()
    }
}

fn share_lines(lines: &Vec<Arc<Vec<Cell>>>) -> (r: Vec<Arc<Vec<Cell>>>)
    ensures
        r@ == lines@,
{
    let mut r: Vec<Arc<Vec<Cell>>> = Vec::new();
    let mut i: usize = 0;
    while i < lines.len()
        invariant
            i <= lines@.len(),
            r@ == lines@.take(i as int),
        decreases lines@.len() - i,
    {
        r.push(share(&lines[i]));
        i += 1;
        proof {
            assert(r@ =~= lines@.take(i as int));
        }
    }
    proof {
        assert(lines@.take(lines@.len() as int) =~= lines@);
    }
    r
}

fn share_history(lines: &VecDeque<Arc<Vec<Cell>>>) -> (r: VecDeque<Arc<Vec<Cell>>>)
    ensures
        r@ == lines@,
{
    let mut r: VecDeque<Arc<Vec<Cell>>> = VecDeque::new();
    let mut i: usize = 0;
    while i < lines.len()
        invariant
            i <= lines@.len(),
            r@ == lines@.take(i as int),
        decreases lines@.len() - i,
    {
        r.push_back(share(&lines[i]));
        i += 1;
        proof {
            assert(r@ =~= lines@.take(i as int));
        }
    }
    proof {
        assert(lines@.take(lines@.len() as int) =~= lines@);
    }
    r
}

fn copy_images(v: &Vec<SixelPlacement>) -> (r: Vec<SixelPlacement>)
    ensures
        placements(r@) == placements(v@),
{
    let mut r: Vec<SixelPlacement> = Vec::new();
    let mut i: usize = 0;
    while i < v.len()
        invariant
            i <= v@.len(),
            placements(r@) == placements(v@).take(i as int),
        decreases v@.len() - i,
    {
        let ghost before = r@;
        r.push(v[i].clone());
        i += 1;
        proof {
            assert(placements(r@) =~= placements(before).push(placements(v@)[i - 1]));
            assert(placements(v@).take(i as int) =~= placements(v@).take(i - 1).push(
                placements(v@)[i - 1],
            ));
        }
    }
    proof {
        assert(placements(v@).take(v@.len() as int) =~= placements(v@));
    }
    r
}

// ---------------------------------------------------------------------------
// Dirty cells
// ---------------------------------------------------------------------------

/// Note the cells of a line that are to be drawn, and clear their flags.
fn take_line(line: &mut Vec<Cell>, row: usize, out: &mut Vec<(usize, usize)>, s: Ghost<ScreenState>)
    requires
        0 <= row < s@.rows,
        s@.wf(),
        !s@.is_blank[row as int],
        line_view(old(line)@) == s@.active()[row as int],
        old(out)@ == s@.dirty_before(row as int, 0),
        old(line)@.len() == s@.cols,
    ensures
        final(line)@.len() == old(line)@.len(),
        line_view(final(line)@) == cleaned_line(line_view(old(line)@)),
        final(out)@ == s@.dirty_before(row as int, s@.cols),
{
    let ghost before = line_view(line@);
    let mut c: usize = 0;
    while c < line.len()
        invariant
            c <= line@.len() == before.len() == s@.cols,
            row >= 0,
            !s@.is_blank[row as int],
            before == s@.active()[row as int],
            out@ == s@.dirty_before(row as int, c as int),
            forall|i: int|
                0 <= i < line@.len() ==> (#[trigger] line@[i])@ == if i < c {
                    CellState { dirty: false, ..before[i] }
                } else {
                    before[i]
                },
        decreases line@.len() - c,
    {
        let dirty = line[c].dirty;
        proof {
            assert(dirty == s@.cell_dirty(row as int, c as int));
        }
        if dirty {
            out.push((row, c));
            line[c].dirty = false;
        }
        c += 1;
    }
    proof {
        assert(line_view(line@) =~= cleaned_line(before));
    }
}

impl Screen {
    fn blank_row_drawn(&mut self, r: usize, dirty: bool)
        requires
            old(self).wf(),
            r < old(self).rows,
        ensures
            final(self).wf(),
            final(self)@ == (ScreenState {
                blank_dirty: old(self)@.blank_dirty.update(r as int, dirty),
                ..old(self)@
            }),
    {
        proof {
            reveal(ScreenState::filled);
        }
        self.row_blank_dirty[r] = dirty;
    }

    /// Mark the cells `from..to` of row `r` to be drawn again.
    fn dirty_range(&mut self, r: usize, from: usize, to: usize)
        requires
            old(self).wf(),
            r < old(self).rows,
            to <= old(self).cols,
        ensures
            final(self).wf(),
            final(self)@.same_shape(old(self)@),
            final(self)@ == old(self)@.put_line(
                r as int,
                range_dirtied(old(self)@.active()[r as int], from as int, to as int),
            ),
    {
        let line = self.row_mut(r);
        let ghost before = line_view(line@);
        let len: usize = line.len();
        let mut c: usize = from;
        while c < to
            invariant
                from <= c,
                from <= to ==> c <= to,
                from > to ==> c == from,
                to <= len,
                line@.len() == len == before.len(),
                forall|i: int|
                    0 <= i < line@.len() ==> (#[trigger] line@[i])@ == if from <= i < c {
                        before[i].dirtied()
                    } else {
                        before[i]
                    },
            decreases to - c,
        {
            line[c].dirty = true;
            c += 1;
        }
        proof {
            assert(line_view(line@) =~= range_dirtied(before, from as int, to as int));
        }
    }

    fn has_dirty(&self) -> (b: bool)
        requires
            self.wf(),
        ensures
            b == self@.any_dirty(),
    {
        proof {
            reveal(ScreenState::filled);
        }
        let mut r: usize = 0;
        while r < self.rows
            invariant
                self.wf(),
                r <= self.rows,
                forall|i: int, j: int|
                    0 <= i < r && 0 <= j < self.cols ==> !(#[trigger] self@.cell_dirty(i, j)),
            decreases self.rows - r,
        {
            if self.row_is_blank[r] {
                if self.row_blank_dirty[r] {
                    proof {
                        assert(self@.cell_dirty(r as int, 0));
                    }
                    return true;
                }
            } else {
                let line = self.line(r);
                let mut c: usize = 0;
                while c < line.len()
                    invariant
                        self.wf(),
                        r < self.rows,
                        c <= line@.len() == self.cols,
                        line_view(line@) == self@.active()[r as int],
                        !self@.is_blank[r as int],
                        forall|j: int|
                            0 <= j < c ==> !(#[trigger] self@.cell_dirty(r as int, j)),
                    decreases line@.len() - c,
                {
                    proof {
                        assert(self@.active()[r as int][c as int] == line@[c as int]@);
                    }
                    if line[c].dirty {
                        proof {
                            assert(self@.cell_dirty(r as int, c as int));
                        }
                        return true;
                    }
                    c += 1;
                }
            }
            r += 1;
        }
        false
    }

    fn take_dirty(&mut self) -> (out: Vec<(usize, usize)>)
        requires
            old(self).wf(),
        ensures
            final(self).wf(),
            final(self)@.same_shape(old(self)@),
            final(self)@ == old(self)@.cleaned(old(self)@.rows),
            out@ == old(self)@.dirty_before(old(self)@.rows - 1, old(self)@.cols),
    {
        let ghost s = self@;
        let rows: usize = self.rows;
        let cols: usize = self.cols;
        let mut out: Vec<(usize, usize)> = Vec::new();
        let mut r: usize = 0;
        proof {
            reveal(ScreenState::cleaned);
            let t = s.cleaned(0);
            assert(t.blank_dirty =~= s.blank_dirty);
            assert(t.active() =~= s.active());
            assert(t.primary =~= s.primary && t.alt =~= s.alt);
            assert(out@ =~= Seq::empty());
        }
        while r < rows
            invariant
                s.wf(),
                self.wf(),
                rows == s.rows,
                cols == s.cols,
                rows >= 1,
                r <= rows,
                self@ == s.cleaned(r as int),
                self@.same_shape(s),
                r < rows ==> out@ == s.dirty_before(r as int, 0),
                r == rows ==> out@ == s.dirty_before(r - 1, s.cols),
            decreases rows - r,
        {
            proof {
                cleaned_step(s, r as int);
            }
            if self.row_is_blank[r] {
                let dirty = self.row_blank_dirty[r];
                if dirty {
                    self.blank_row_drawn(r, false);
                    let mut c: usize = 0;
                    while c < cols
                        invariant
                            r < rows,
                            c <= cols,
                            cols == s.cols,
                            s.is_blank[r as int],
                            s.blank_dirty[r as int],
                            out@ == s.dirty_before(r as int, c as int),
                        decreases cols - c,
                    {
                        out.push((r, c));
                        c += 1;
                    }
                } else {
                    proof {
                        clean_row(s, r as int, cols as int);
                        assert(self@.blank_dirty.update(r as int, false) =~= self@.blank_dirty);
                    }
                }
            } else {
                let line = self.row_mut(r);
                take_line(line, r, &mut out, Ghost(s));
            }
            r += 1;
            proof {
                cleaned_wf(s, r as int);
            }
        }
        out
    }
}

/// A blank row that is not to be drawn adds nothing.
proof fn clean_row(s: ScreenState, r: int, c: int)
    requires
        r >= 0,
        c >= 0,
        s.is_blank[r],
        !s.blank_dirty[r],
    ensures
        s.dirty_before(r, c) == s.dirty_before(r, 0),
    decreases c,
{
    if c > 0 {
        clean_row(s, r, c - 1);
    }
}

// ---------------------------------------------------------------------------
// Grid
// ---------------------------------------------------------------------------

impl Grid {
    /// A cell of the active screen.
    pub fn cell(&self, col: usize, row: usize) -> (r: &Cell)
        requires
            self.wf(),
            row < self.screen.rows,
            col < self.screen.cols,
        ensures
            r@ == self@.screen.active()[row as int][col as int],
    {
        &self.screen.line(row)[col]
    }

    /// DEC line presentation of a visible row.
    pub fn line_mode(&self, row: usize) -> (r: u8)
        ensures
            r == if row < self@.line_modes.len() {
                self@.line_modes[row as int]
            } else {
                0
            },
    {
        if row < self.line_modes.len() {
            self.line_modes[row]
        } else {
            0
        }
    }

    /// Number of scrollback lines shown at the top of the view.
    pub fn view_scrollback_lines(&self) -> (r: usize)
        ensures
            r == self@.shown_history(),
    {
        let len: usize = self.screen.scrollback.len();
        if self.scrollback_offset < len {
            self.scrollback_offset
        } else {
            len
        }
    }

    /// True when the view is scrolled up at all.
    pub fn is_scrolled(&self) -> (r: bool)
        ensures
            r == (self@.view.offset > 0 || positive_bits(self@.view.fraction)),
    {
        self.scrollback_offset > 0 || (0 < self.scroll_fraction && self.scroll_fraction
            <= 0x7f80_0000)
    }

    /// The cell shown in a row and column of the scrolled view.
    pub fn cell_at_view(&self, col: usize, screen_row: usize) -> (r: Option<&Cell>)
        requires
            self.wf(),
        ensures
            match r {
                Some(c) => self@.cell_at_view(col as int, screen_row as int) == Some(c@),
                None => self@.cell_at_view(col as int, screen_row as int) is None,
            },
    {
        if screen_row >= self.screen.rows || col >= self.screen.cols {
            return None;
        }
        let k: usize = self.view_scrollback_lines();
        if screen_row < k {
            let i: usize = self.screen.scrollback.len() - k + screen_row;
            let line = &self.screen.scrollback[i];
            proof {
                assert(self@.screen.scrollback[i as int] == line_view(line@));
            }
            if col < line.len() {
                Some(&line[col])
            } else {
                None
            }
        } else {
            Some(self.cell(col, screen_row - k))
        }
    }

    /// A snapshot of the current state.
    pub fn snapshot(&self) -> (r: GridSnapshot)
        requires
            self.wf(),
        ensures
            r@ == self@.snapshot(),
    {
        GridSnapshot {
            cols: self.screen.cols,
            rows: self.screen.rows,
            cells: if self.screen.alt_active {
                share_lines(&self.screen.cells_alt)
            } else {
                share_lines(&self.screen.cells_primary)
            },
            scrollback: share_history(&self.screen.scrollback),
            line_modes: copy_bytes(self.line_modes.as_slice()),
            scrollback_offset: self.scrollback_offset,
            scroll_fraction: self.scroll_fraction,
            cursor: self.cursor,
            cursor_visible: self.modes.cursor_visible,
            cursor_shape: self.modes.cursor_shape,
            screen_reverse: self.modes.screen_reverse,
            synchronized_output: self.modes.synchronized_output,
            palette: self.palette.clone(),
            sixel_images: copy_images(&self.screen.sixel_images),
            mouse_mode: self.modes.mouse_mode,
            mouse_encoding: self.modes.mouse_encoding,
            bracketed_paste: self.modes.bracketed_paste,
            kitty_flags: self.keyboard.kitty_flags,
            modify_other_keys: self.modes.modify_other_keys,
            application_cursor_keys: self.modes.application_cursor_keys,
            keypad_app: self.modes.keypad_app,
            backarrow_del: self.modes.backarrow_del,
            focus_reporting: self.modes.focus_reporting,
            generation: 0,
            blank_cell: Cell::default(),
        }
    }

    /// The markers of the scrollback, oldest first, then of the visible rows.
    /// An index into this stream keeps naming a row after it has scrolled off
    /// the screen.
    pub fn marker_stream(&self) -> (r: Vec<u8>)
        ensures
            r@ == self@.screen.marker_stream(),
    {
        let mut r: Vec<u8> = Vec::new();
        let history = &self.screen.shell_scrollback_markers;
        let mut i: usize = 0;
        while i < history.len()
            invariant
                i <= history@.len(),
                r@ == history@.take(i as int),
            decreases history@.len() - i,
        {
            r.push(history[i]);
            i += 1;
            proof {
                assert(r@ =~= history@.take(i as int));
            }
        }
        proof {
            assert(history@.take(history@.len() as int) =~= history@);
        }
        crate::text::put_bytes(&mut r, self.screen.shell_markers.as_slice());
        r
    }

    /// Length of the marker stream: scrollback and visible rows.
    pub fn marker_stream_len(&self) -> (r: usize)
        requires
            self.wf(),
            self@.screen.scrollback.len() + self@.screen.rows <= usize::MAX,
        ensures
            r == self@.screen.marker_stream().len(),
            r == self@.screen.scrollback.len() + self@.screen.rows,
    {
        self.screen.scrollback.len() + self.screen.rows
    }

    /// The last prompt strictly before index `from` of the marker stream. An
    /// index beyond the stream has none before it.
    pub fn prev_prompt(&self, from: usize) -> (r: Option<usize>)
        ensures
            match r {
                Some(i) => {
                    &&& i < from <= self@.screen.marker_stream().len()
                    &&& self@.screen.marker_stream()[i as int] == 1
                    &&& forall|j: int| i < j < from ==> self@.screen.marker_stream()[j] != 1
                },
                None => from <= self@.screen.marker_stream().len() ==> forall|j: int|
                    0 <= j < from ==> self@.screen.marker_stream()[j] != 1,
            },
    {
        let stream = self.marker_stream();
        if from > stream.len() {
            return None;
        }
        let mut i: usize = from;
        while i > 0
            invariant
                i <= from <= stream@.len(),
                stream@ == self@.screen.marker_stream(),
                forall|j: int| i <= j < from ==> stream@[j] != 1,
            decreases i,
        {
            i -= 1;
            if stream[i] == 1 {
                return Some(i);
            }
        }
        None
    }

    /// The first prompt strictly after index `from` of the marker stream.
    pub fn next_prompt(&self, from: usize) -> (r: Option<usize>)
        ensures
            match r {
                Some(i) => {
                    &&& from < i < self@.screen.marker_stream().len()
                    &&& self@.screen.marker_stream()[i as int] == 1
                    &&& forall|j: int| from < j < i ==> self@.screen.marker_stream()[j] != 1
                },
                None => forall|j: int|
                    from < j < self@.screen.marker_stream().len()
                        ==> self@.screen.marker_stream()[j] != 1,
            },
    {
        let stream = self.marker_stream();
        if from >= stream.len() {
            return None;
        }
        let mut i: usize = from + 1;
        while i < stream.len()
            invariant
                from < i <= stream@.len(),
                stream@ == self@.screen.marker_stream(),
                forall|j: int| from < j < i ==> stream@[j] != 1,
            decreases stream@.len() - i,
        {
            if stream[i] == 1 {
                return Some(i);
            }
            i += 1;
        }
        None
    }

    /// The text of a row; empty outside the screen.
    pub fn line_to_string(&self, row: usize) -> (r: String)
        requires
            self.wf(),
        ensures
            r@ == if row < self@.screen.rows {
                line_text(self@.screen.active()[row as int])
            } else {
                Seq::empty()
            },
    {
        if row >= self.screen.rows {
            let s = String::new();
            proof {
                assert(s@ =~= Seq::empty());
            }
            return s;
        }
        line_to_string_from_cells(self.screen.line(row).as_slice())
    }

    /// The text of all visible lines.
    pub fn all_lines(&self) -> (r: Vec<String>)
        requires
            self.wf(),
        ensures
            strings(r@) == self@.screen.texts(),
    {
        let mut lines: Vec<String> = Vec::new();
        self.append_lines(&mut lines);
        proof {
            assert(strings(lines@) =~= self@.screen.texts());
        }
        lines
    }

    fn append_lines(&self, lines: &mut Vec<String>)
        requires
            self.wf(),
        ensures
            strings(final(lines)@) == strings(old(lines)@) + self@.screen.texts(),
    {
        let ghost before = strings(lines@);
        let ghost texts = self@.screen.texts();
        let mut r: usize = 0;
        proof {
            assert(before + texts.take(0) =~= before);
        }
        while r < self.screen.rows
            invariant
                self.wf(),
                r <= self.screen.rows == texts.len(),
                texts == self@.screen.texts(),
                strings(lines@) == before + texts.take(r as int),
            decreases self.screen.rows - r,
        {
            let ghost cur = lines@;
            let s = self.line_to_string(r);
            lines.push(s);
            r += 1;
            proof {
                assert(strings(lines@) =~= strings(cur).push(s@));
                assert(before + texts.take(r as int) =~= (before + texts.take(r - 1)).push(
                    texts[r - 1],
                ));
            }
        }
        proof {
            assert(texts.take(texts.len() as int) =~= texts);
        }
    }

    /// The text of the scrollback and then of the visible lines.
    pub fn all_lines_with_scrollback(&self) -> (r: Vec<String>)
        requires
            self.wf(),
        ensures
            strings(r@) == self@.screen.all_texts(),
    {
        let mut lines: Vec<String> = Vec::new();
        let ghost sb = self@.screen.scrollback;
        let ghost history = Seq::new(sb.len(), |i: int| line_text(sb[i]));
        let mut i: usize = 0;
        proof {
            assert(strings(lines@) =~= history.take(0));
        }
        while i < self.screen.scrollback.len()
            invariant
                i <= self.screen.scrollback@.len(),
                sb == self@.screen.scrollback,
                history == Seq::new(sb.len(), |i: int| line_text(sb[i])),
                strings(lines@) == history.take(i as int),
            decreases self.screen.scrollback@.len() - i,
        {
            let ghost cur = lines@;
            let s = line_to_string_from_cells(self.screen.scrollback[i].as_slice());
            lines.push(s);
            proof {
                assert(s@ == history[i as int]);
            }
            i += 1;
            proof {
                assert(strings(lines@) =~= strings(cur).push(s@));
                assert(history.take(i as int) =~= history.take(i - 1).push(history[i - 1]));
            }
        }
        proof {
            assert(history.take(history.len() as int) =~= history);
        }
        self.append_lines(&mut lines);
        lines
    }

    /// Set the scrollback offset.
    pub fn set_scroll_offset(&mut self, offset: usize)
        requires
            old(self).wf(),
        ensures
            final(self).wf(),
            final(self)@ == (GridState {
                view: Viewport { offset: offset as int, ..old(self)@.view },
                ..old(self)@
            }),
    {
        self.scrollback_offset = offset;
    }

    /// Set the fractional scroll offset, given by its bits, between zero and
    /// one.
    pub fn set_scroll_fraction(&mut self, fraction: u32)
        requires
            old(self).wf(),
        ensures
            final(self).wf(),
            final(self)@ == (GridState {
                view: Viewport { fraction: clamped_bits(fraction), ..old(self)@.view },
                ..old(self)@
            }),
    {
        self.scroll_fraction = if 0x8000_0000 < fraction && fraction <= 0xff80_0000 {
            0
        } else if 0x3f80_0000 < fraction && fraction <= 0x7f80_0000 {
            0x3f80_0000
        } else {
            fraction
        };
    }

    /// Return the view to the bottom.
    pub fn reset_scroll(&mut self)
        requires
            old(self).wf(),
        ensures
            final(self).wf(),
            final(self)@ == (GridState {
                view: Viewport { offset: 0, fraction: 0 },
                ..old(self)@
            }),
    {
        self.scrollback_offset = 0;
        self.scroll_fraction = 0;
    }

    /// Mark the cells of a match to be drawn again.
    pub fn mark_match_dirty(&mut self, row: usize, start_col: usize, end_col: usize)
        requires
            old(self).wf(),
        ensures
            final(self).wf(),
            final(self)@ == {
                let s = old(self)@.screen;
                let end = min(end_col as int, s.cols);
                if row < s.rows && start_col < end {
                    old(self)@.with_screen(
                        s.put_line(
                            row as int,
                            range_dirtied(s.active()[row as int], start_col as int, end),
                        ),
                    )
                } else {
                    old(self)@
                }
            },
    {
        if row >= self.screen.rows {
            return;
        }
        let end: usize = if end_col < self.screen.cols {
            end_col
        } else {
            self.screen.cols
        };
        if start_col < end {
            self.screen.dirty_range(row, start_col, end);
        }
    }

    /// True when some cell is to be drawn.
    pub fn has_dirty_cells(&self) -> (r: bool)
        requires
            self.wf(),
        ensures
            r == self@.screen.any_dirty(),
    {
        self.screen.has_dirty()
    }

    /// Take the positions, row and column, of all cells that are to be drawn.
    pub fn take_dirty_cells(&mut self) -> (r: Vec<(usize, usize)>)
        requires
            old(self).wf(),
        ensures
            final(self).wf(),
            final(self)@ == old(self)@.with_screen(
                old(self)@.screen.cleaned(old(self)@.screen.rows),
            ),
            r@ == old(self)@.screen.dirty_before(
                old(self)@.screen.rows - 1,
                old(self)@.screen.cols,
            ),
    {
        self.screen.take_dirty()
    }

    /// Mark a cell to be drawn again; in a blank row, the whole row.
    pub fn mark_dirty(&mut self, col: usize, row: usize)
        requires
            old(self).wf(),
        ensures
            final(self).wf(),
            final(self)@ == if col < old(self)@.screen.cols && row < old(self)@.screen.rows {
                old(self)@.with_screen(old(self)@.screen.cell_dirtied(row as int, col as int))
            } else {
                old(self)@
            },
    {
        if col < self.screen.cols && row < self.screen.rows {
            if self.screen.row_is_blank[row] {
                self.screen.blank_row_drawn(row, true);
            } else {
                self.screen.dirty_range(row, col, col + 1);
            }
        }
    }
}

/// A view that is not scrolled shows the screen itself.
pub proof fn live_view_is_the_screen(s: GridState, col: int, row: int)
    requires
        s.view.offset == 0,
        0 <= row < s.screen.rows,
        0 <= col < s.screen.cols,
    ensures
        s.cell_at_view(col, row) == Some(s.screen.active()[row][col]),
{
}

/// Scrolling the view up by a line moves everything that it shows down by one.
pub proof fn scrolling_moves_the_view(s: GridState, t: GridState, col: int, row: int)
    requires
        s.wf(),
        t.view.offset == s.view.offset + 1,
        t.screen == s.screen,
        0 <= s.view.offset < s.screen.scrollback.len(),
        0 <= row,
        row + 1 < s.screen.rows,
        0 <= col < s.screen.cols,
    ensures
        t.cell_at_view(col, row + 1) == s.cell_at_view(col, row),
{
}

/// The line that the view begins with is the one that lies as many lines back
/// in the history as the view is scrolled up.
pub proof fn view_begins_in_the_history(s: GridState, col: int)
    requires
        s.wf(),
        0 < s.view.offset <= s.screen.scrollback.len(),
        0 <= col < s.screen.cols,
        col < s.screen.scrollback[s.screen.scrollback.len() - s.view.offset].len(),
    ensures
        s.cell_at_view(col, 0) == Some(
            s.screen.scrollback[s.screen.scrollback.len() - s.view.offset][col],
        ),
{
}

/// Drawing takes every cell that is to be drawn, once, in reading order, and
/// no other.
pub proof fn dirty_cells_are_listed(s: ScreenState, r: int, c: int, i: int, j: int)
    requires
        0 <= r < s.rows <= usize::MAX,
        0 <= c <= s.cols <= usize::MAX,
        0 <= i < s.rows,
        0 <= j < s.cols,
    ensures
        s.dirty_before(r, c).contains((i as usize, j as usize)) <==> (i < r || (i == r && j < c))
            && s.cell_dirty(i, j),
    decreases r, c,
{
    let l = s.dirty_before(r, c);
    let x = (i as usize, j as usize);
    if c > 0 {
        dirty_cells_are_listed(s, r, c - 1, i, j);
        let before = s.dirty_before(r, c - 1);
        let y = (r as usize, (c - 1) as usize);
        if s.cell_dirty(r, c - 1) {
            assert(l == before.push(y));
            assert(l[before.len() as int] == y);
            if before.contains(x) {
                let k = choose|k: int| 0 <= k < before.len() && before[k] == x;
                assert(l[k] == x);
            }
            if l.contains(x) && x != y {
                let k = choose|k: int| 0 <= k < l.len() && l[k] == x;
                assert(before[k] == x);
            }
        }
    } else if r > 0 {
        dirty_cells_are_listed(s, r - 1, s.cols, i, j);
    }
}

} // verus!
