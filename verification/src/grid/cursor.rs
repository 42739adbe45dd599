//! Moving the cursor, tab stops, and saving and restoring the cursor.
use vstd::prelude::*;

use super::cell::Cursor;
use super::erase::{at_least, at_most, below};
use super::state::{max, min, monus, GridState, Saved};
use super::{Grid, SavedCursor};

verus! {

// ---------------------------------------------------------------------------
// Tab stops
// ---------------------------------------------------------------------------

/// The first tab stop at column `c` or later; the last column where there is
/// none.
pub open spec fn stop_from(tabs: Seq<bool>, c: int) -> int
    decreases tabs.len() - c,
{
    if c < 0 || c >= tabs.len() {
        tabs.len() - 1
    } else if tabs[c] {
        c
    } else {
        stop_from(tabs, c + 1)
    }
}

/// The last tab stop before column `c`; column 0 where there is none.
pub open spec fn stop_before(tabs: Seq<bool>, c: int) -> int
    decreases c,
{
    if c <= 0 {
        0
    } else if c - 1 < tabs.len() && tabs[c - 1] {
        c - 1
    } else {
        stop_before(tabs, c - 1)
    }
}

/// `n` tab stops forward from `col`.
pub open spec fn stops_forward(tabs: Seq<bool>, col: int, n: nat) -> int
    decreases n,
{
    if n == 0 {
        col
    } else {
        stops_forward(tabs, stop_from(tabs, col + 1), (n - 1) as nat)
    }
}

/// `n` tab stops back from `col`.
pub open spec fn stops_back(tabs: Seq<bool>, col: int, n: nat) -> int
    decreases n,
{
    if n == 0 {
        col
    } else {
        stops_back(tabs, stop_before(tabs, col), (n - 1) as nat)
    }
}

pub proof fn stop_from_bounds(tabs: Seq<bool>, c: int)
    requires
        tabs.len() > 0,
        c >= 0,
    ensures
        0 <= stop_from(tabs, c) < tabs.len(),
    decreases tabs.len() - c,
{
    if c < tabs.len() && !tabs[c] {
        stop_from_bounds(tabs, c + 1);
    }
}

/// Past the last tab stop the cursor stays at the last column.
proof fn forward_ends(tabs: Seq<bool>, n: nat)
    requires
        tabs.len() > 0,
    ensures
        stops_forward(tabs, tabs.len() - 1, n) == tabs.len() - 1,
    decreases n,
{
    if n > 0 {
        forward_ends(tabs, (n - 1) as nat);
    }
}

/// Before the first tab stop the cursor stays at the first column.
proof fn back_ends(tabs: Seq<bool>, n: nat)
    ensures
        stops_back(tabs, 0, n) == 0,
    decreases n,
{
    if n > 0 {
        back_ends(tabs, (n - 1) as nat);
    }
}

fn next_stop(tabs: &Vec<bool>, from: usize) -> (r: usize)
    requires
        tabs@.len() > 0,
        from <= usize::MAX - 1,
    ensures
        r == stop_from(tabs@, from as int),
        r < tabs@.len(),
{
    let mut c: usize = from;
    while c < tabs.len() && !tabs[c]
        invariant
            from <= c,
            c <= tabs@.len() || c == from,
            stop_from(tabs@, from as int) == stop_from(tabs@, c as int),
        decreases tabs@.len() - c,
    {
        c += 1;
    }
    if c < tabs.len() {
        c
    } else {
        tabs.len() - 1
    }
}

fn prev_stop(tabs: &Vec<bool>, col: usize) -> (r: usize)
    ensures
        r == stop_before(tabs@, col as int),
        r <= col,
{
    let mut c: usize = col;
    while c > 0
        invariant
            c <= col,
            stop_before(tabs@, col as int) == stop_before(tabs@, c as int),
        decreases c,
    {
        c -= 1;
        if c < tabs.len() && tabs[c] {
            return c;
        }
    }
    0
}

impl GridState {
    pub open spec fn cursor_up(self, n: int) -> GridState {
        self.at(max(monus(self.row, n), self.margins.top), self.col)
    }

    pub open spec fn cursor_down(self, n: int) -> GridState {
        self.at(min(self.row + n, self.margins.bottom), self.col)
    }

    pub open spec fn cursor_forward(self, n: int) -> GridState {
        self.at(self.row, min(self.col + n, self.right_margin()))
    }

    pub open spec fn cursor_back(self, n: int) -> GridState {
        self.at(self.row, max(monus(self.col, n), self.left_margin()))
    }

    pub open spec fn next_line(self, n: int) -> GridState {
        self.at(min(self.row + n, self.screen.rows - 1), 0)
    }

    pub open spec fn prev_line(self, n: int) -> GridState {
        self.at(monus(self.row, n), 0)
    }

    /// The column that a 1-based parameter names; in origin mode it counts
    /// from the left margin.
    pub open spec fn target_col(self, p: int) -> int {
        if self.modes.origin_mode {
            min(monus(p, 1) + self.left_margin(), self.right_margin())
        } else {
            min(monus(p, 1), self.screen.cols - 1)
        }
    }

    /// The row that a 1-based parameter names; in origin mode it counts from
    /// the top margin.
    pub open spec fn target_row(self, p: int) -> int {
        if self.modes.origin_mode {
            min(monus(p, 1) + self.margins.top, self.margins.bottom)
        } else {
            min(monus(p, 1), self.screen.rows - 1)
        }
    }

    pub open spec fn tabbed_forward(self, n: nat) -> GridState {
        self.at(self.row, stops_forward(self.tabs, self.col, n))
    }

    pub open spec fn tabbed_back(self, n: nat) -> GridState {
        self.at(self.row, stops_back(self.tabs, self.col, n))
    }

    /// A tab stop set at the cursor (HTS).
    pub open spec fn stop_set(self) -> GridState {
        if self.col < self.tabs.len() {
            GridState { tabs: self.tabs.update(self.col, true), ..self }
        } else {
            self
        }
    }

    /// The tab stop at the cursor (0) or all of them (3) cleared (TBC).
    pub open spec fn stops_cleared(self, mode: int) -> GridState {
        if mode == 0 {
            if self.col < self.tabs.len() {
                GridState { tabs: self.tabs.update(self.col, false), ..self }
            } else {
                self
            }
        } else if mode == 3 {
            GridState { tabs: Seq::new(self.tabs.len(), |c: int| false), ..self }
        } else {
            self
        }
    }

    /// DECSC: the cursor and the pen kept for the shown screen.
    pub open spec fn cursor_saved(self) -> GridState {
        let s = Saved { row: self.row, col: self.col, pen: self.pen };
        if self.screen.alt_active {
            GridState { saved_alt: s, ..self }
        } else {
            GridState { saved: s, ..self }
        }
    }

    /// DECRC: the kept cursor, as far as the screen reaches, and the kept pen.
    pub open spec fn cursor_restored(self) -> GridState {
        let s = if self.screen.alt_active {
            self.saved_alt
        } else {
            self.saved
        };
        self.with_pen(s.pen).at(
            min(s.row, self.screen.rows - 1),
            min(s.col, self.screen.cols),
        )
    }

    /// LF: down one line, scrolling at the bottom margin; below the margins
    /// the last row is the end.
    pub open spec fn line_fed(self) -> GridState {
        if self.row == self.margins.bottom {
            self.scrolled_up(self.margins.top, 1)
        } else {
            self.at(min(self.row + 1, self.screen.rows - 1), self.col)
        }
    }

    /// RI: up one line, scrolling at the top margin.
    pub open spec fn reverse_indexed(self) -> GridState {
        if self.row == self.margins.top {
            self.scrolled_down(self.margins.top, 1)
        } else {
            self.at(monus(self.row, 1), self.col)
        }
    }

    /// IL: blank lines inserted at the cursor, within the scroll region.
    pub open spec fn lines_inserted(self, n: int) -> GridState {
        if self.margins.top <= self.row <= self.margins.bottom {
            self.scrolled_down(self.row, n)
        } else {
            self
        }
    }

    /// DL: lines deleted at the cursor, within the scroll region. They are
    /// lost, never kept in the scrollback.
    pub open spec fn lines_deleted(self, n: int) -> GridState {
        if self.margins.top <= self.row <= self.margins.bottom {
            self.with_screen(
                self.screen.scrolled_up(
                    self.row,
                    self.margins.bottom,
                    n,
                    false,
                    self.modes.bulk_output,
                ),
            )
        } else {
            self
        }
    }
}

/// What DECSC keeps, DECRC brings back, whatever has happened to the cursor and
/// the pen in between, as long as the same screen of the same size is shown.
pub proof fn restore_undoes_save(s: GridState, t: GridState)
    requires
        s.wf(),
        t.saved == s.cursor_saved().saved,
        t.saved_alt == s.cursor_saved().saved_alt,
        t.screen.same_shape(s.screen),
    ensures
        t.cursor_restored().row == s.row,
        t.cursor_restored().col == s.col,
        t.cursor_restored().pen == s.pen,
{
}

/// Inserting and deleting lines leaves the scrollback as it is.
pub proof fn line_edits_keep_history(s: GridState, n: int)
    ensures
        s.lines_inserted(n).screen.scrollback == s.screen.scrollback,
        s.lines_deleted(n).screen.scrollback == s.screen.scrollback,
{
    reveal(super::state::ScreenState::lines_up);
    reveal(super::state::ScreenState::lines_down);
    reveal(super::state::ScreenState::dirtied);
}

impl Grid {
    fn move_to(&mut self, row: usize, col: usize)
        requires
            old(self).wf(),
            row < old(self).screen.rows,
            col <= old(self).screen.cols,
        ensures
            final(self).wf(),
            final(self)@ == old(self)@.at(row as int, col as int),
    {
        self.cursor = Cursor { row, col };
    }

    /// CUU.
    pub fn cursor_up(&mut self, n: usize)
        requires
            old(self).wf(),
        ensures
            final(self).wf(),
            final(self)@ == old(self)@.cursor_up(n as int),
    {
        let row: usize = at_least(self.cursor.row.saturating_sub(n), self.margins.top);
        self.move_to(row, self.cursor.col);
    }

    /// CUD.
    pub fn cursor_down(&mut self, n: usize)
        requires
            old(self).wf(),
            n <= 65535,
        ensures
            final(self).wf(),
            final(self)@ == old(self)@.cursor_down(n as int),
    {
        let row: usize = at_most(self.cursor.row + n, self.margins.bottom);
        self.move_to(row, self.cursor.col);
    }

    /// CUF.
    pub fn cursor_forward(&mut self, n: usize)
        requires
            old(self).wf(),
            n <= 65535,
        ensures
            final(self).wf(),
            final(self)@ == old(self)@.cursor_forward(n as int),
    {
        let col: usize = at_most(self.cursor.col + n, self.right_margin());
        self.move_to(self.cursor.row, col);
    }

    /// CUB.
    pub fn cursor_back(&mut self, n: usize)
        requires
            old(self).wf(),
        ensures
            final(self).wf(),
            final(self)@ == old(self)@.cursor_back(n as int),
    {
        let col: usize = at_least(self.cursor.col.saturating_sub(n), self.left_margin());
        self.move_to(self.cursor.row, col);
    }

    /// CNL.
    pub fn cursor_next_line(&mut self, n: usize)
        requires
            old(self).wf(),
            n <= 65535,
        ensures
            final(self).wf(),
            final(self)@ == old(self)@.next_line(n as int),
    {
        let row: usize = at_most(self.cursor.row + n, self.screen.rows - 1);
        self.move_to(row, 0);
    }

    /// CPL.
    pub fn cursor_prev_line(&mut self, n: usize)
        requires
            old(self).wf(),
        ensures
            final(self).wf(),
            final(self)@ == old(self)@.prev_line(n as int),
    {
        let row: usize = self.cursor.row.saturating_sub(n);
        self.move_to(row, 0);
    }

    fn target_col(&self, p: usize) -> (r: usize)
        requires
            self.wf(),
            p <= 65535,
        ensures
            r == self@.target_col(p as int),
            r < self.screen.cols,
    {
        if self.modes.origin_mode {
            at_most(below(p) + self.left_margin(), self.right_margin())
        } else {
            at_most(below(p), self.screen.cols - 1)
        }
    }

    /// CHA.
    pub fn cursor_column(&mut self, p: usize)
        requires
            old(self).wf(),
            p <= 65535,
        ensures
            final(self).wf(),
            final(self)@ == old(self)@.at(old(self)@.row, old(self)@.target_col(p as int)),
    {
        let col: usize = self.target_col(p);
        self.move_to(self.cursor.row, col);
    }

    /// CUP and HVP.
    pub fn cursor_position(&mut self, p0: usize, p1: usize)
        requires
            old(self).wf(),
            p0 <= 65535,
            p1 <= 65535,
        ensures
            final(self).wf(),
            final(self)@ == old(self)@.at(
                old(self)@.target_row(p0 as int),
                old(self)@.target_col(p1 as int),
            ),
    {
        let row: usize = if self.modes.origin_mode {
            at_most(below(p0) + self.margins.top, self.margins.bottom)
        } else {
            at_most(below(p0), self.screen.rows - 1)
        };
        let col: usize = self.target_col(p1);
        self.move_to(row, col);
    }

    /// VPA.
    pub fn cursor_row(&mut self, p: usize)
        requires
            old(self).wf(),
        ensures
            final(self).wf(),
            final(self)@ == old(self)@.at(
                min(monus(p as int, 1), old(self)@.screen.rows - 1),
                old(self)@.col,
            ),
    {
        let row: usize = at_most(below(p), self.screen.rows - 1);
        self.move_to(row, self.cursor.col);
    }

    /// HT and CHT: forward `n` tab stops.
    pub fn tab_forward(&mut self, n: usize)
        requires
            old(self).wf(),
        ensures
            final(self).wf(),
            final(self)@ == old(self)@.tabbed_forward(n as nat),
    {
        let mut col: usize = self.cursor.col;
        let mut i: usize = 0;
        let last: usize = self.screen.cols - 1;
        while i < n
            invariant
                i <= n,
                *self == *old(self),
                self.wf(),
                last == self.screen.cols - 1,
                col <= self.screen.cols,
                stops_forward(self@.tabs, col as int, (n - i) as nat) == stops_forward(
                    self@.tabs,
                    self@.col,
                    n as nat,
                ),
            decreases n - i,
        {
            if col == last {
                proof {
                    forward_ends(self@.tabs, (n - i) as nat);
                }
                self.move_to(self.cursor.row, col);
                return ;
            }
            col = next_stop(&self.tab_stops, col + 1);
            i += 1;
        }
        self.move_to(self.cursor.row, col);
    }

    /// CBT: back `n` tab stops.
    pub fn tab_back(&mut self, n: usize)
        requires
            old(self).wf(),
        ensures
            final(self).wf(),
            final(self)@ == old(self)@.tabbed_back(n as nat),
    {
        let mut col: usize = self.cursor.col;
        let mut i: usize = 0;
        while i < n
            invariant
                i <= n,
                *self == *old(self),
                self.wf(),
                col <= self.screen.cols,
                stops_back(self@.tabs, col as int, (n - i) as nat) == stops_back(
                    self@.tabs,
                    self@.col,
                    n as nat,
                ),
            decreases n - i,
        {
            if col == 0 {
                proof {
                    back_ends(self@.tabs, (n - i) as nat);
                }
                self.move_to(self.cursor.row, col);
                return ;
            }
            col = prev_stop(&self.tab_stops, col);
            i += 1;
        }
        self.move_to(self.cursor.row, col);
    }

    /// HTS: set a tab stop at the cursor.
    pub fn set_tab_stop(&mut self)
        requires
            old(self).wf(),
        ensures
            final(self).wf(),
            final(self)@ == old(self)@.stop_set(),
    {
        let col: usize = self.cursor.col;
        if col < self.tab_stops.len() {
            self.tab_stops[col] = true;
        }
    }

    /// TBC: clear the tab stop at the cursor, or all of them.
    pub fn clear_tab_stops(&mut self, mode: usize)
        requires
            old(self).wf(),
        ensures
            final(self).wf(),
            final(self)@ == old(self)@.stops_cleared(mode as int),
    {
        let col: usize = self.cursor.col;
        if mode == 0 {
            if col < self.tab_stops.len() {
                self.tab_stops[col] = false;
            }
        } else if mode == 3 {
            let n: usize = self.tab_stops.len();
            self.tab_stops = super::setup::flags(n, false);
        }
    }

    /// DECSC.
    pub fn save_cursor(&mut self)
        requires
            old(self).wf(),
        ensures
            final(self).wf(),
            final(self)@ == old(self)@.cursor_saved(),
    {
        let kept = SavedCursor { cursor: self.cursor, pen: self.pen };
        if self.screen.alt_active {
            self.saved_cursor_alt = kept;
        } else {
            self.saved_cursor = kept;
        }
    }

    /// DECRC.
    pub fn restore_cursor(&mut self)
        requires
            old(self).wf(),
        ensures
            final(self).wf(),
            final(self)@ == old(self)@.cursor_restored(),
    {
        let kept = if self.screen.alt_active {
            self.saved_cursor_alt
        } else {
            self.saved_cursor
        };
        self.pen = kept.pen;
        self.cursor = Cursor {
            row: at_most(kept.cursor.row, self.screen.rows - 1),
            col: at_most(kept.cursor.col, self.screen.cols),
        };
    }

    /// LF, VT and FF.
    pub fn line_feed(&mut self)
        requires
            old(self).wf(),
        ensures
            final(self).wf(),
            final(self)@ == old(self)@.line_fed(),
    {
        if self.cursor.row == self.margins.bottom {
            self.scroll_up(1);
        } else {
            let row: usize = at_most(self.cursor.row + 1, self.screen.rows - 1);
            self.move_to(row, self.cursor.col);
        }
    }

    /// RI.
    pub fn reverse_index(&mut self)
        requires
            old(self).wf(),
        ensures
            final(self).wf(),
            final(self)@ == old(self)@.reverse_indexed(),
    {
        if self.cursor.row == self.margins.top {
            self.scroll_down(1);
        } else {
            let row: usize = below(self.cursor.row);
            self.move_to(row, self.cursor.col);
        }
    }

    /// BS.
    pub fn backspace(&mut self)
        requires
            old(self).wf(),
        ensures
            final(self).wf(),
            final(self)@ == old(self)@.at(old(self)@.row, monus(old(self)@.col, 1)),
    {
        let col: usize = below(self.cursor.col);
        self.move_to(self.cursor.row, col);
    }

    /// CR.
    pub fn carriage_return(&mut self)
        requires
            old(self).wf(),
        ensures
            final(self).wf(),
            final(self)@ == old(self)@.at(old(self)@.row, 0),
    {
        self.move_to(self.cursor.row, 0);
    }

    /// IL.
    pub fn insert_lines(&mut self, n: usize)
        requires
            old(self).wf(),
        ensures
            final(self).wf(),
            final(self)@ == old(self)@.lines_inserted(n as int),
    {
        let row: usize = self.cursor.row;
        if row >= self.margins.top && row <= self.margins.bottom {
            self.scroll_down_from(row, n);
        }
    }

    /// DL.
    pub fn delete_lines(&mut self, n: usize)
        requires
            old(self).wf(),
        ensures
            final(self).wf(),
            final(self)@ == old(self)@.lines_deleted(n as int),
    {
        let row: usize = self.cursor.row;
        let bot: usize = self.margins.bottom;
        if row >= self.margins.top && row <= bot {
            self.screen.move_lines_up(row, bot, at_most(n, bot - row + 1));
            if !self.modes.bulk_output {
                self.screen.dirty_rows(row, bot);
            }
        }
    }
}

} // verus!
