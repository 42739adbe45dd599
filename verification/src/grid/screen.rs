//! The two screens and the history: access to lines and edits of them.
use std::collections::VecDeque;
use std::sync::Arc;
use vstd::prelude::*;

use super::cell::{
    self, blank_line, deleted, dirtied_line, erased, inserted, line_mut, line_view, lines_view,
    opened, Cell, CellState,
};
use super::shift::{
    append_lines, append_marks, dirty_blanks, dirty_lines, keep_last, remove_images,
    scroll_images, shift_down, shift_lines_down, shift_lines_up, shift_up,
};
use super::state::{images_outside, images_scrolled, last_of, ScreenState};
use crate::sixel::{placements, PlacementState, SixelPlacement};

verus! {

/// The two screens with their history and what moves along with the lines.
pub struct Screen {
    pub cols: usize,
    pub rows: usize,
    /// Lines of the primary screen, top to bottom.
    pub cells_primary: Vec<Arc<Vec<Cell>>>,
    /// Lines of the alternate screen, top to bottom.
    pub cells_alt: Vec<Arc<Vec<Cell>>>,
    pub alt_active: bool,
    /// Lines that left the primary screen, oldest first.
    pub scrollback: VecDeque<Arc<Vec<Cell>>>,
    /// The most lines that the scrollback keeps.
    pub scrollback_capacity: usize,
    /// OSC 133 marker of each visible row: 0 none, 1 prompt start, 2 command
    /// start, 3 command output.
    pub shell_markers: Vec<u8>,
    /// OSC 133 marker of each scrollback line.
    pub shell_scrollback_markers: VecDeque<u8>,
    /// The line that every blank row shares.
    pub blank_row: Arc<Vec<Cell>>,
    /// Rows of the active screen that are known to be blank.
    pub row_is_blank: Vec<bool>,
    /// Blank rows that are to be drawn again.
    pub row_blank_dirty: Vec<bool>,
    /// Images on the screen, oldest first.
    pub sixel_images: Vec<SixelPlacement>,
}

impl View for Screen {
    type V = ScreenState;

    open spec fn view(&self) -> ScreenState {
        ScreenState {
            cols: self.cols as int,
            rows: self.rows as int,
            primary: lines_view(self.cells_primary@),
            alt: lines_view(self.cells_alt@),
            alt_active: self.alt_active,
            scrollback: lines_view(self.scrollback@),
            capacity: self.scrollback_capacity as int,
            markers: self.shell_markers@,
            history_markers: self.shell_scrollback_markers@,
            is_blank: self.row_is_blank@,
            blank_dirty: self.row_blank_dirty@,
            images: placements(self.sixel_images@),
        }
    }
}

/// A well-formed screen stays well formed when a line of the right width takes
/// the place of another.
pub proof fn put_line_wf(s: ScreenState, r: int, line: Seq<CellState>)
    requires
        s.wf(),
        0 <= r < s.rows,
        line.len() == s.cols,
    ensures
        s.put_line(r, line).wf(),
        s.put_line(r, line).same_shape(s),
{
    reveal(ScreenState::put_line);
    reveal(ScreenState::filled);
    let t = s.put_line(r, line);
    assert forall|i: int| 0 <= i < t.rows && #[trigger] t.is_blank[i] implies t.active()[i]
        == blank_line(t.cols) by {
        assert(s.is_blank[i]);
    }
}

/// Replacing lines by lines of the same width keeps the screen well formed.
pub proof fn map_lines_wf(
    s: ScreenState,
    r0: int,
    r1: int,
    f: spec_fn(int, Seq<CellState>) -> Seq<CellState>,
)
    requires
        s.wf(),
        forall|r: int, l: Seq<CellState>| l.len() == s.cols ==> (#[trigger] f(r, l)).len() == s.cols,
    ensures
        s.map_lines(r0, r1, f).wf(),
        s.map_lines(r0, r1, f).same_shape(s),
{
    reveal(ScreenState::map_lines);
    reveal(ScreenState::filled);
    let t = s.map_lines(r0, r1, f);
    assert forall|i: int| 0 <= i < t.rows && #[trigger] t.is_blank[i] implies t.active()[i]
        == blank_line(t.cols) by {
        assert(s.is_blank[i]);
    }
    assert forall|i: int| 0 <= i < t.rows implies (#[trigger] t.primary[i]).len() == t.cols by {
        assert(s.primary[i].len() == s.cols);
    }
    assert forall|i: int| 0 <= i < t.rows implies (#[trigger] t.alt[i]).len() == t.cols by {
        assert(s.alt[i].len() == s.cols);
    }
}

/// The lines of a list that is cut to its last elements are those of its view.
proof fn last_lines(lines: Seq<Arc<Vec<Cell>>>, max: int)
    requires
        max >= 0,
    ensures
        lines_view(last_of(lines, max)) == last_of(lines_view(lines), max),
{
    assert(lines_view(last_of(lines, max)) =~= last_of(lines_view(lines), max));
}

/// Moving lines keeps the screen well formed.
pub proof fn lines_up_wf(s: ScreenState, top: int, bot: int, n: int)
    requires
        s.wf(),
        0 <= top <= bot < s.rows,
        0 <= n <= bot - top + 1,
    ensures
        s.lines_up(top, bot, n).wf(),
        s.lines_up(top, bot, n).same_shape(s),
{
    reveal(ScreenState::lines_up);
    reveal(ScreenState::filled);
    let t = s.lines_up(top, bot, n);
    images_scrolled_len(s.images, top, bot, n, true);
    assert forall|r: int| 0 <= r < t.rows && #[trigger] t.is_blank[r] implies t.active()[r]
        == blank_line(t.cols) by {
        if top <= r <= bot {
            if r + n <= bot {
                assert(s.is_blank[r + n]);
            }
        } else {
            assert(s.is_blank[r]);
        }
    }
    assert forall|r: int| 0 <= r < t.rows implies (#[trigger] t.primary[r]).len() == t.cols by {
        if !t.alt_active && top <= r <= bot && r + n <= bot {
            assert(s.primary[r + n].len() == s.cols);
        }
    }
    assert forall|r: int| 0 <= r < t.rows implies (#[trigger] t.alt[r]).len() == t.cols by {
        if t.alt_active && top <= r <= bot && r + n <= bot {
            assert(s.alt[r + n].len() == s.cols);
        }
    }
}

pub proof fn lines_down_wf(s: ScreenState, top: int, bot: int, n: int)
    requires
        s.wf(),
        0 <= top <= bot < s.rows,
        0 <= n <= bot - top + 1,
    ensures
        s.lines_down(top, bot, n).wf(),
        s.lines_down(top, bot, n).same_shape(s),
{
    reveal(ScreenState::lines_down);
    reveal(ScreenState::filled);
    let t = s.lines_down(top, bot, n);
    images_scrolled_len(s.images, top, bot, n, false);
    assert forall|r: int| 0 <= r < t.rows && #[trigger] t.is_blank[r] implies t.active()[r]
        == blank_line(t.cols) by {
        if top <= r <= bot {
            if r - n >= top {
                assert(s.is_blank[r - n]);
            }
        } else {
            assert(s.is_blank[r]);
        }
    }
    assert forall|r: int| 0 <= r < t.rows implies (#[trigger] t.primary[r]).len() == t.cols by {
        if !t.alt_active && top <= r <= bot && r - n >= top {
            assert(s.primary[r - n].len() == s.cols);
        }
    }
    assert forall|r: int| 0 <= r < t.rows implies (#[trigger] t.alt[r]).len() == t.cols by {
        if t.alt_active && top <= r <= bot && r - n >= top {
            assert(s.alt[r - n].len() == s.cols);
        }
    }
}

/// Marking rows dirty keeps the screen well formed.
pub proof fn dirtied_wf(s: ScreenState, top: int, bot: int)
    requires
        s.wf(),
    ensures
        s.dirtied(top, bot).wf(),
        s.dirtied(top, bot).same_shape(s),
{
    reveal(ScreenState::dirtied);
    reveal(ScreenState::filled);
    let t = s.dirtied(top, bot);
    assert forall|r: int| 0 <= r < t.rows && #[trigger] t.is_blank[r] implies t.active()[r]
        == blank_line(t.cols) by {
        assert(s.is_blank[r]);
    }
    assert forall|r: int| 0 <= r < t.rows implies (#[trigger] t.primary[r]).len() == t.cols by {
        assert(s.primary[r].len() == s.cols);
    }
    assert forall|r: int| 0 <= r < t.rows implies (#[trigger] t.alt[r]).len() == t.cols by {
        assert(s.alt[r].len() == s.cols);
    }
}

/// Scrolling adds no image.
pub proof fn images_scrolled_len(
    images: Seq<PlacementState>,
    top: int,
    bot: int,
    n: int,
    up: bool,
)
    ensures
        images_scrolled(images, top, bot, n, up).len() <= images.len(),
    decreases images.len(),
{
    if images.len() > 0 {
        images_scrolled_len(images.drop_last(), top, bot, n, up);
    }
}

/// Archiving keeps the screen well formed.
pub proof fn archived_wf(s: ScreenState, top: int, n: int)
    requires
        s.wf(),
        0 <= top,
        0 <= n,
        top + n <= s.rows,
    ensures
        s.archived(top, n).wf(),
        s.archived(top, n).same_shape(s),
{
    reveal(ScreenState::archived);
    reveal(ScreenState::filled);
    let t = s.archived(top, n);
    assert forall|i: int| 0 <= i < t.rows && #[trigger] t.is_blank[i] implies t.active()[i]
        == blank_line(t.cols) by {
        assert(s.is_blank[i]);
    }
}

/// Removing images adds none.
pub proof fn images_outside_len(
    images: Seq<PlacementState>,
    r0: int,
    r1: int,
    c0: int,
    c1: int,
)
    ensures
        images_outside(images, r0, r1, c0, c1).len() <= images.len(),
    decreases images.len(),
{
    if images.len() > 0 {
        images_outside_len(images.drop_last(), r0, r1, c0, c1);
    }
}

impl Screen {
    /// The screen's invariant: its state is well formed and the shared blank
    /// line is blank and as wide as the screen.
    pub open spec fn wf(&self) -> bool {
        &&& self@.wf()
        &&& line_view(self.blank_row@) == blank_line(self.cols as int)
    }

    /// Exclusive access to line `r` of the active screen, which counts as
    /// written.
    pub(crate) fn row_mut(&mut self, r: usize) -> (line: &mut Vec<Cell>)
        requires
            old(self).wf(),
            r < old(self).rows,
        ensures
            line_view(line@) == old(self)@.active()[r as int],
            line@.len() == old(self).cols,
            final(self)@ == old(self)@.put_line(r as int, line_view(final(line)@)),
            final(line)@.len() == old(self).cols ==> final(self).wf() && final(self)@.same_shape(
                old(self)@,
            ),
    {
        broadcast use cell::lines_view_update;

        proof {
            reveal(ScreenState::put_line);
            reveal(ScreenState::filled);
            let s = old(self)@;
            assert(s.active()[r as int].len() == s.cols);
            assert forall|l: Seq<CellState>| l.len() == s.cols implies (#[trigger] s.put_line(
                r as int,
                l,
            )).wf() && s.put_line(r as int, l).same_shape(s) by {
                put_line_wf(s, r as int, l);
            }
        }
        self.row_is_blank[r] = false;
        if self.alt_active {
            line_mut(&mut self.cells_alt[r])
        } else {
            line_mut(&mut self.cells_primary[r])
        }
    }

    /// Line `r` of the active screen.
    pub fn line(&self, r: usize) -> (line: &Vec<Cell>)
        requires
            self.wf(),
            r < self.rows,
        ensures
            line_view(line@) == self@.active()[r as int],
            line@.len() == self.cols,
    {
        proof {
            reveal(ScreenState::filled);
            assert(self@.active()[r as int].len() == self.cols);
        }
        if self.alt_active {
            &self.cells_alt[r]
        } else {
            &self.cells_primary[r]
        }
    }

    /// Erase the cells `from..to` of row `r`.
    pub fn erase_in_row(
        &mut self,
        r: usize,
        from: usize,
        to: usize,
        fill: &Cell,
        selective: bool,
    )
        requires
            old(self).wf(),
            r < old(self).rows,
            from <= to ==> to <= old(self).cols,
        ensures
            final(self).wf(),
            final(self)@.same_shape(old(self)@),
            final(self)@ == old(self)@.put_line(
                r as int,
                erased(
                    old(self)@.active()[r as int],
                    from as int,
                    to as int,
                    fill@,
                    selective,
                ),
            ),
    {
        let line = self.row_mut(r);
        cell::erase_cells(line, from, to, fill, selective);
    }

    /// Insert `n` copies of `fill` at `col` of row `r`.
    pub fn insert_in_row(&mut self, r: usize, col: usize, n: usize, bound: usize, fill: &Cell)
        requires
            old(self).wf(),
            r < old(self).rows,
            bound <= old(self).cols,
            col + n <= usize::MAX,
        ensures
            final(self).wf(),
            final(self)@.same_shape(old(self)@),
            final(self)@ == old(self)@.put_line(
                r as int,
                inserted(
                    old(self)@.active()[r as int],
                    col as int,
                    n as int,
                    bound as int,
                    fill@,
                ),
            ),
    {
        let line = self.row_mut(r);
        cell::insert_cells(line, col, n, bound, fill);
    }

    /// Delete `n` cells at `col` of row `r`.
    pub fn delete_in_row(&mut self, r: usize, col: usize, n: usize, bound: usize, fill: &Cell)
        requires
            old(self).wf(),
            r < old(self).rows,
            bound <= old(self).cols,
            n <= 65535,
        ensures
            final(self).wf(),
            final(self)@.same_shape(old(self)@),
            final(self)@ == old(self)@.put_line(
                r as int,
                deleted(
                    old(self)@.active()[r as int],
                    col as int,
                    n as int,
                    bound as int,
                    fill@,
                ),
            ),
    {
        let line = self.row_mut(r);
        cell::delete_cells(line, col, n, bound, fill);
    }

    /// Make room for a character of `width` columns at `col` of row `r`.
    pub fn open_in_row(&mut self, r: usize, col: usize, width: usize)
        requires
            old(self).wf(),
            r < old(self).rows,
            col <= 65535,
            width <= 65535,
        ensures
            final(self).wf(),
            final(self)@.same_shape(old(self)@),
            final(self)@ == old(self)@.put_line(
                r as int,
                opened(old(self)@.active()[r as int], col as int, width as int),
            ),
    {
        let line = self.row_mut(r);
        cell::open_gap(line, col, width);
    }

    /// Append the lines `top..top + n` of the primary screen to the history.
    pub fn archive(&mut self, top: usize, n: usize)
        requires
            old(self).wf(),
            top + n <= old(self).rows,
        ensures
            final(self).wf(),
            final(self)@.same_shape(old(self)@),
            final(self)@ == old(self)@.archived(top as int, n as int),
    {
        proof {
            archived_wf(self@, top as int, n as int);
            reveal(ScreenState::archived);
        }
        append_lines(&mut self.scrollback, &self.cells_primary, top, n);
        append_marks(&mut self.shell_scrollback_markers, &self.shell_markers, top, n);
        let max: usize = self.scrollback_capacity;
        proof {
            last_lines(self.scrollback@, max as int);
        }
        keep_last(&mut self.scrollback, max);
        keep_last(&mut self.shell_scrollback_markers, max);
    }

    /// Move the lines of `[top, bot]` up by `n`, with all that belongs to them.
    pub fn move_lines_up(&mut self, top: usize, bot: usize, n: usize)
        requires
            old(self).wf(),
            top <= bot < old(self).rows,
            n <= bot - top + 1,
        ensures
            final(self).wf(),
            final(self)@.same_shape(old(self)@),
            final(self)@ == old(self)@.lines_up(top as int, bot as int, n as int),
    {
        proof {
            lines_up_wf(self@, top as int, bot as int, n as int);
            reveal(ScreenState::lines_up);
        }
        if self.alt_active {
            shift_lines_up(&mut self.cells_alt, top, bot, n, &self.blank_row);
        } else {
            shift_lines_up(&mut self.cells_primary, top, bot, n, &self.blank_row);
        }
        shift_up(&mut self.shell_markers, top, bot, n, 0u8);
        shift_up(&mut self.row_is_blank, top, bot, n, true);
        shift_up(&mut self.row_blank_dirty, top, bot, n, true);
        scroll_images(&mut self.sixel_images, top, bot, n, true);
    }

    /// Move the lines of `[top, bot]` down by `n`, with all that belongs to
    /// them.
    pub fn move_lines_down(&mut self, top: usize, bot: usize, n: usize)
        requires
            old(self).wf(),
            top <= bot < old(self).rows,
            n <= bot - top + 1,
        ensures
            final(self).wf(),
            final(self)@.same_shape(old(self)@),
            final(self)@ == old(self)@.lines_down(top as int, bot as int, n as int),
    {
        proof {
            lines_down_wf(self@, top as int, bot as int, n as int);
            reveal(ScreenState::lines_down);
        }
        if self.alt_active {
            shift_lines_down(&mut self.cells_alt, top, bot, n, &self.blank_row);
        } else {
            shift_lines_down(&mut self.cells_primary, top, bot, n, &self.blank_row);
        }
        shift_down(&mut self.shell_markers, top, bot, n, 0u8);
        shift_down(&mut self.row_is_blank, top, bot, n, true);
        shift_down(&mut self.row_blank_dirty, top, bot, n, true);
        scroll_images(&mut self.sixel_images, top, bot, n, false);
    }

    /// Mark the rows `top..=bot` to be drawn again.
    pub fn dirty_rows(&mut self, top: usize, bot: usize)
        requires
            old(self).wf(),
            bot < old(self).rows,
        ensures
            final(self).wf(),
            final(self)@.same_shape(old(self)@),
            final(self)@ == old(self)@.dirtied(top as int, bot as int),
    {
        proof {
            dirtied_wf(self@, top as int, bot as int);
            reveal(ScreenState::dirtied);
        }
        if self.alt_active {
            dirty_lines(&mut self.cells_alt, &self.row_is_blank, top, bot);
        } else {
            dirty_lines(&mut self.cells_primary, &self.row_is_blank, top, bot);
        }
        dirty_blanks(&mut self.row_blank_dirty, &self.row_is_blank, top, bot);
    }

    /// Remove the images anchored in rows `r0..=r1` and columns `c0..c1`.
    pub fn remove_images_in(&mut self, r0: usize, r1: usize, c0: usize, c1: usize)
        requires
            old(self).wf(),
        ensures
            final(self).wf(),
            final(self)@ == (ScreenState {
                images: images_outside(
                    old(self)@.images,
                    r0 as int,
                    r1 as int,
                    c0 as int,
                    c1 as int,
                ),
                ..old(self)@
            }),
    {
        proof {
            reveal(ScreenState::filled);
        }
        remove_images(&mut self.sixel_images, r0, r1, c0, c1);
    }
}

} // verus!
