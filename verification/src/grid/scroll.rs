//! Scrolling within the scroll region.
use vstd::prelude::*;

use super::state::{min, GridState, ScreenState};
use super::Grid;

verus! {

impl ScreenState {
    /// The lines of `[top, bot]` moved up by `n`, at most the whole band; with
    /// `keep`, what leaves the band enters the history.
    pub open spec fn scrolled_up(
        self,
        top: int,
        bot: int,
        n: int,
        keep: bool,
        bulk: bool,
    ) -> ScreenState {
        let k = min(n, bot - top + 1);
        let kept = if keep {
            self.archived(top, k)
        } else {
            self
        };
        let moved = kept.lines_up(top, bot, k);
        if bulk {
            moved
        } else {
            moved.dirtied(top, bot)
        }
    }

    /// The lines of `[top, bot]` moved down by `n`, at most the whole band.
    pub open spec fn scrolled_down(self, top: int, bot: int, n: int, bulk: bool) -> ScreenState {
        let moved = self.lines_down(top, bot, min(n, bot - top + 1));
        if bulk {
            moved
        } else {
            moved.dirtied(top, bot)
        }
    }
}

impl GridState {
    /// The lines from `top` to the bottom margin moved up by `n`. Lines that
    /// leave the top of the scroll region of the primary screen enter the
    /// scrollback; others are lost.
    pub open spec fn scrolled_up(self, top: int, n: int) -> GridState {
        if top > self.margins.bottom {
            self
        } else {
            self.with_screen(
                self.screen.scrolled_up(
                    top,
                    self.margins.bottom,
                    n,
                    !self.screen.alt_active && top == self.margins.top,
                    self.modes.bulk_output,
                ),
            )
        }
    }

    /// The lines from `top` to the bottom margin moved down by `n`. Lines that
    /// pass the bottom are lost.
    pub open spec fn scrolled_down(self, top: int, n: int) -> GridState {
        if top > self.margins.bottom {
            self
        } else {
            self.with_screen(
                self.screen.scrolled_down(top, self.margins.bottom, n, self.modes.bulk_output),
            )
        }
    }
}

impl Grid {
    /// Scroll the lines from `top` to the bottom margin up by `n`.
    pub fn scroll_up_from(&mut self, top: usize, n: usize)
        requires
            old(self).wf(),
        ensures
            final(self).wf(),
            final(self)@.screen.same_shape(old(self)@.screen),
            final(self)@ == old(self)@.scrolled_up(top as int, n as int),
    {
        let bot: usize = self.margins.bottom;
        if top > bot {
            return ;
        }
        let n: usize = if n < bot - top + 1 {
            n
        } else {
            bot - top + 1
        };
        if !self.screen.alt_active && top == self.margins.top {
            self.screen.archive(top, n);
        }
        self.screen.move_lines_up(top, bot, n);
        if !self.modes.bulk_output {
            self.screen.dirty_rows(top, bot);
        }
    }

    /// Scroll the lines from `top` to the bottom margin down by `n`.
    pub fn scroll_down_from(&mut self, top: usize, n: usize)
        requires
            old(self).wf(),
        ensures
            final(self).wf(),
            final(self)@.screen.same_shape(old(self)@.screen),
            final(self)@ == old(self)@.scrolled_down(top as int, n as int),
    {
        let bot: usize = self.margins.bottom;
        if top > bot {
            return ;
        }
        let n: usize = if n < bot - top + 1 {
            n
        } else {
            bot - top + 1
        };
        self.screen.move_lines_down(top, bot, n);
        if !self.modes.bulk_output {
            self.screen.dirty_rows(top, bot);
        }
    }

    /// Scroll the scroll region up by `n`.
    pub fn scroll_up(&mut self, n: usize)
        requires
            old(self).wf(),
        ensures
            final(self).wf(),
            final(self)@.screen.same_shape(old(self)@.screen),
            final(self)@ == old(self)@.scrolled_up(old(self)@.margins.top, n as int),
    {
        self.scroll_up_from(self.margins.top, n);
    }

    /// Scroll the scroll region down by `n`.
    pub fn scroll_down(&mut self, n: usize)
        requires
            old(self).wf(),
        ensures
            final(self).wf(),
            final(self)@.screen.same_shape(old(self)@.screen),
            final(self)@ == old(self)@.scrolled_down(old(self)@.margins.top, n as int),
    {
        self.scroll_down_from(self.margins.top, n);
    }

    /// Mark every cell to be drawn again.
    pub fn mark_all_dirty(&mut self)
        requires
            old(self).wf(),
        ensures
            final(self).wf(),
            final(self)@.screen.same_shape(old(self)@.screen),
            final(self)@ == old(self)@.all_dirty(),
    {
        self.screen.dirty_rows(0, self.screen.rows - 1);
    }
}

} // verus!
