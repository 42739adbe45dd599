//! Erasing, filling, and inserting and deleting characters and columns.
use std::collections::VecDeque;
use vstd::prelude::*;

use super::attrs::{Attrs, Color};
use super::cell::{self, blank_line, erased, line_view, lines_view, Cell, CellState, Cursor};
use super::screen::{images_outside_len, map_lines_wf, Screen};
use super::state::{
    aligned_line, aligning, deleting, erasing, images_outside, inserting, map_lines_none,
    map_lines_step, max, min, monus, GridState, Margins, Modes, ScreenState, Viewport,
};
use super::{Grid, ScrollMargins};
use crate::sixel::placements;
use crate::text::{char_of_code, coded_char};

verus! {

/// A rectangle of cells: rows `r0..=r1`, from column `c0` of the first to
/// column `c1` (not included) of the last.
pub struct Range {
    pub r0: int,
    pub c0: int,
    pub r1: int,
    pub c1: int,
}

impl ScreenState {
    /// The screen without history.
    pub open spec fn without_history(self) -> ScreenState {
        ScreenState { scrollback: Seq::empty(), history_markers: Seq::empty(), ..self }
    }
}

impl GridState {
    /// What ED erases: 0 from the cursor, 1 up to the cursor, 2 and 3 all.
    pub open spec fn display_range(self, mode: int) -> Option<Range> {
        let left = self.left_margin();
        let bound = self.right_margin() + 1;
        if mode == 0 {
            Some(
                Range {
                    r0: self.row,
                    c0: min(self.col, bound),
                    r1: self.screen.rows - 1,
                    c1: bound,
                },
            )
        } else if mode == 1 {
            Some(
                Range {
                    r0: 0,
                    c0: left,
                    r1: self.row,
                    c1: min(max(self.col + 1, left), bound),
                },
            )
        } else if mode == 2 || mode == 3 {
            Some(Range { r0: 0, c0: left, r1: self.screen.rows - 1, c1: bound })
        } else {
            None
        }
    }

    /// ED, and DECSED where `selective`. Mode 3 also clears the scrollback.
    /// Images anchored in the rectangle between the first erased cell and the
    /// last go with it.
    pub open spec fn display_erased(self, mode: int, selective: bool) -> GridState {
        match self.display_range(mode) {
            None => self,
            Some(g) => {
                let base = if mode == 3 {
                    self.screen.without_history()
                } else {
                    self.screen
                };
                let wiped = base.map_lines(
                    g.r0,
                    g.r1,
                    erasing(
                        g.r0,
                        g.c0,
                        g.r1,
                        g.c1,
                        self.left_margin(),
                        self.right_margin() + 1,
                        self.erased_cell(),
                        selective,
                    ),
                );
                GridState {
                    screen: ScreenState {
                        images: if mode == 2 || mode == 3 {
                            Seq::empty()
                        } else {
                            images_outside(
                                self.screen.images,
                                g.r0,
                                g.r1,
                                g.c0,
                                g.c1,
                            )
                        },
                        ..wiped
                    },
                    view: if mode == 3 {
                        Viewport { offset: 0, ..self.view }
                    } else {
                        self.view
                    },
                    ..self
                }
            },
        }
    }

    /// The columns that EL erases.
    pub open spec fn line_range(self, mode: int) -> Option<(int, int)> {
        let left = self.left_margin();
        let bound = self.right_margin() + 1;
        if mode == 0 {
            Some((min(self.col, bound), bound))
        } else if mode == 1 {
            Some((left, min(max(self.col + 1, left), bound)))
        } else if mode == 2 {
            Some((left, bound))
        } else {
            None
        }
    }

    /// EL, and DECSEL where `selective`.
    pub open spec fn line_erased(self, mode: int, selective: bool) -> GridState {
        match self.line_range(mode) {
            None => self,
            Some((c0, c1)) => {
                let wiped = self.screen.put_line(
                    self.row,
                    erased(
                        self.screen.active()[self.row],
                        c0,
                        c1,
                        self.erased_cell(),
                        selective,
                    ),
                );
                self.with_screen(
                    ScreenState {
                        images: images_outside(
                            self.screen.images,
                            self.row,
                            self.row,
                            c0,
                            c1,
                        ),
                        ..wiped
                    },
                )
            },
        }
    }

    /// A rectangle filled with a character in the colours of the pen. Rows and
    /// columns count from 1; in origin mode rows count from the top margin.
    pub open spec fn rect_filled(
        self,
        top: int,
        left: int,
        bottom: int,
        right: int,
        ch: char,
        selective: bool,
    ) -> GridState {
        let origin = if self.modes.origin_mode {
            self.margins.top
        } else {
            0
        };
        let r0 = min(monus(top, 1) + origin, self.screen.rows - 1);
        let r1 = min(monus(bottom, 1) + origin, self.screen.rows - 1);
        let c0 = min(monus(left, 1), self.screen.cols - 1);
        let c1 = min(monus(right, 1), self.screen.cols - 1);
        if r0 > r1 || c0 > c1 {
            self
        } else {
            let fill = CellState {
                ch,
                ..CellState::blank(self.pen.fg, self.pen.bg, self.pen.attrs)
            };
            self.with_screen(
                self.screen.map_lines(
                    r0,
                    r1,
                    erasing(r0, c0, r1, c1 + 1, c0, c1 + 1, fill, selective),
                ),
            )
        }
    }

    /// DECIC: blank columns inserted at the cursor.
    pub open spec fn columns_inserted(self, n: int) -> GridState {
        let bound = self.right_margin() + 1;
        if self.col >= bound {
            self
        } else {
            self.with_screen(
                self.screen.map_lines(
                    0,
                    self.screen.rows - 1,
                    inserting(
                        self.col,
                        min(n, bound - self.col),
                        bound,
                        CellState::blank(self.pen.fg, self.pen.bg, self.pen.attrs),
                    ),
                ),
            )
        }
    }

    /// DECDC: columns deleted at the cursor.
    pub open spec fn columns_deleted(self, n: int) -> GridState {
        let bound = self.right_margin() + 1;
        if self.col >= bound {
            self
        } else {
            self.with_screen(
                self.screen.map_lines(
                    0,
                    self.screen.rows - 1,
                    deleting(
                        self.col,
                        min(n, bound - self.col),
                        bound,
                        CellState::blank(self.pen.fg, self.pen.bg, self.pen.attrs),
                    ),
                ),
            )
        }
    }

    /// ICH: blanks inserted at the cursor.
    pub open spec fn chars_inserted(self, n: int) -> GridState {
        self.with_screen(
            self.screen.put_line(
                self.row,
                cell::inserted(
                    self.screen.active()[self.row],
                    self.col,
                    n,
                    self.right_margin() + 1,
                    CellState::empty(),
                ),
            ),
        )
    }

    /// DCH: characters deleted at the cursor.
    pub open spec fn chars_deleted(self, n: int) -> GridState {
        self.with_screen(
            self.screen.put_line(
                self.row,
                cell::deleted(
                    self.screen.active()[self.row],
                    self.col,
                    n,
                    self.right_margin() + 1,
                    CellState::empty(),
                ),
            ),
        )
    }

    /// ECH: characters erased from the cursor on.
    pub open spec fn chars_erased(self, n: int) -> GridState {
        self.with_screen(
            self.screen.put_line(
                self.row,
                erased(
                    self.screen.active()[self.row],
                    self.col,
                    min(self.col + n, self.screen.cols),
                    self.erased_cell(),
                    false,
                ),
            ),
        )
    }

    /// DECALN: the screen full of `E`, home cursor, full scroll region.
    pub open spec fn screen_aligned(self) -> GridState {
        GridState {
            screen: self.screen.map_lines(0, self.screen.rows - 1, aligning()),
            row: 0,
            col: 0,
            margins: Margins {
                top: 0,
                bottom: self.screen.rows - 1,
                ..self.margins
            },
            modes: Modes { origin_mode: false, ..self.modes },
            ..self
        }
    }
}

fn align_cells(line: &mut Vec<Cell>)
    ensures
        final(line)@.len() == old(line)@.len(),
        line_view(final(line)@) == aligned_line(line_view(old(line)@)),
{
    let ghost before = line_view(line@);
    let mut c: usize = 0;
    while c < line.len()
        invariant
            c <= line@.len(),
            line@.len() == before.len(),
            forall|i: int|
                0 <= i < line@.len() ==> (#[trigger] line@[i])@ == if i < c {
                    super::state::aligned_cell(before[i])
                } else {
                    before[i]
                },
        decreases line@.len() - c,
    {
        line[c].ch = 'E';
        line[c].fg = Color::Default;
        line[c].bg = Color::Default;
        line[c].attrs = Attrs::default();
        line[c].dirty = true;
        line[c].wide_filler = false;
        line[c].hyperlink_id = 0;
        c += 1;
    }
    proof {
        assert(line_view(line@) =~= aligned_line(before));
    }
}

impl Screen {
    /// Erase from row `r0`, column `c0` to row `r1`, column `c1` (not
    /// included); lines between from `left` to `bound`.
    pub fn erase_rows(
        &mut self,
        r0: usize,
        c0: usize,
        r1: usize,
        c1: usize,
        left: usize,
        bound: usize,
        fill: &Cell,
        selective: bool,
    )
        requires
            old(self).wf(),
            r1 < old(self).rows,
            c1 <= old(self).cols,
            bound <= old(self).cols,
        ensures
            final(self).wf(),
            final(self)@.same_shape(old(self)@),
            final(self)@ == old(self)@.map_lines(
                r0 as int,
                r1 as int,
                erasing(
                    r0 as int,
                    c0 as int,
                    r1 as int,
                    c1 as int,
                    left as int,
                    bound as int,
                    fill@,
                    selective,
                ),
            ),
    {
        let ghost s = self@;
        let ghost f = erasing(
            r0 as int,
            c0 as int,
            r1 as int,
            c1 as int,
            left as int,
            bound as int,
            fill@,
            selective,
        );
        let mut r: usize = r0;
        proof {
            map_lines_none(s, r0 as int, f);
            map_lines_wf(s, r0 as int, r1 as int, f);
            if r0 > r1 {
                reveal(ScreenState::map_lines);
                let t = s.map_lines(r0 as int, r1 as int, f);
                assert(t.is_blank =~= s.is_blank && t.primary =~= s.primary && t.alt =~= s.alt);
            }
        }
        while r <= r1
            invariant
                self.wf(),
                s.wf(),
                self@.same_shape(s),
                r1 < s.rows,
                c1 <= s.cols,
                bound <= s.cols,
                r0 <= r,
                r0 <= r1 ==> r <= r1 + 1,
                r0 > r1 ==> r == r0,
                f == erasing(
                    r0 as int,
                    c0 as int,
                    r1 as int,
                    c1 as int,
                    left as int,
                    bound as int,
                    fill@,
                    selective,
                ),
                self@ == s.map_lines(r0 as int, r - 1, f),
            decreases r1 + 1 - r,
        {
            let from: usize = if r == r0 {
                c0
            } else {
                left
            };
            let to: usize = if r == r1 {
                c1
            } else {
                bound
            };
            proof {
                map_lines_step(s, r0 as int, r as int, f);
            }
            self.erase_in_row(r, from, to, fill, selective);
            r += 1;
        }
    }

    /// Insert `n` copies of `fill` at `col` of every row.
    pub fn insert_columns(&mut self, col: usize, n: usize, bound: usize, fill: &Cell)
        requires
            old(self).wf(),
            bound <= old(self).cols,
            col <= 65535,
            n <= 65535,
        ensures
            final(self).wf(),
            final(self)@.same_shape(old(self)@),
            final(self)@ == old(self)@.map_lines(
                0,
                old(self)@.rows - 1,
                inserting(col as int, n as int, bound as int, fill@),
            ),
    {
        let ghost s = self@;
        let ghost f = inserting(col as int, n as int, bound as int, fill@);
        let mut r: usize = 0;
        proof {
            map_lines_none(s, 0, f);
        }
        while r < self.rows
            invariant
                self.wf(),
                s.wf(),
                self@.same_shape(s),
                bound <= s.cols,
                col <= 65535,
                n <= 65535,
                r <= s.rows,
                f == inserting(col as int, n as int, bound as int, fill@),
                self@ == s.map_lines(0, r - 1, f),
            decreases s.rows - r,
        {
            proof {
                map_lines_step(s, 0, r as int, f);
            }
            self.insert_in_row(r, col, n, bound, fill);
            r += 1;
        }
    }

    /// Delete `n` cells at `col` of every row.
    pub fn delete_columns(&mut self, col: usize, n: usize, bound: usize, fill: &Cell)
        requires
            old(self).wf(),
            bound <= old(self).cols,
            n <= 65535,
        ensures
            final(self).wf(),
            final(self)@.same_shape(old(self)@),
            final(self)@ == old(self)@.map_lines(
                0,
                old(self)@.rows - 1,
                deleting(col as int, n as int, bound as int, fill@),
            ),
    {
        let ghost s = self@;
        let ghost f = deleting(col as int, n as int, bound as int, fill@);
        let mut r: usize = 0;
        proof {
            map_lines_none(s, 0, f);
        }
        while r < self.rows
            invariant
                self.wf(),
                s.wf(),
                self@.same_shape(s),
                bound <= s.cols,
                n <= 65535,
                r <= s.rows,
                f == deleting(col as int, n as int, bound as int, fill@),
                self@ == s.map_lines(0, r - 1, f),
            decreases s.rows - r,
        {
            proof {
                map_lines_step(s, 0, r as int, f);
            }
            self.delete_in_row(r, col, n, bound, fill);
            r += 1;
        }
    }

    fn align_row(&mut self, r: usize)
        requires
            old(self).wf(),
            r < old(self).rows,
        ensures
            final(self).wf(),
            final(self)@.same_shape(old(self)@),
            final(self)@ == old(self)@.put_line(
                r as int,
                aligned_line(old(self)@.active()[r as int]),
            ),
    {
        let line = self.row_mut(r);
        align_cells(line);
    }

    /// Fill the screen with the alignment pattern.
    pub fn align(&mut self)
        requires
            old(self).wf(),
        ensures
            final(self).wf(),
            final(self)@.same_shape(old(self)@),
            final(self)@ == old(self)@.map_lines(0, old(self)@.rows - 1, aligning()),
    {
        let ghost s = self@;
        let mut r: usize = 0;
        proof {
            map_lines_none(s, 0, aligning());
        }
        while r < self.rows
            invariant
                self.wf(),
                s.wf(),
                self@.same_shape(s),
                r <= s.rows,
                self@ == s.map_lines(0, r - 1, aligning()),
            decreases s.rows - r,
        {
            proof {
                map_lines_step(s, 0, r as int, aligning());
            }
            self.align_row(r);
            r += 1;
        }
    }

    /// Forget the scrollback and its markers.
    pub fn clear_history(&mut self)
        requires
            old(self).wf(),
        ensures
            final(self).wf(),
            final(self)@.same_shape(old(self)@),
            final(self)@ == old(self)@.without_history(),
    {
        proof {
            reveal(ScreenState::filled);
        }
        self.scrollback = VecDeque::new();
        self.shell_scrollback_markers = VecDeque::new();
        proof {
            assert(self@.scrollback =~= Seq::empty());
        }
    }

    /// Remove all images.
    pub fn clear_images(&mut self)
        requires
            old(self).wf(),
        ensures
            final(self).wf(),
            final(self)@ == (ScreenState { images: Seq::empty(), ..old(self)@ }),
    {
        proof {
            reveal(ScreenState::filled);
        }
        self.sixel_images = Vec::new();
        proof {
            assert(self@.images =~= Seq::empty());
        }
    }
}

impl Grid {
    /// The last column that text may occupy.
    pub fn right_margin(&self) -> (r: usize)
        requires
            self.wf(),
        ensures
            r == self@.right_margin(),
            r < self.screen.cols,
    {
        if self.margins.horizontal && self.margins.right < self.screen.cols - 1 {
            self.margins.right
        } else {
            self.screen.cols - 1
        }
    }

    /// The first column that text may occupy.
    pub fn left_margin(&self) -> (r: usize)
        requires
            self.wf(),
        ensures
            r == self@.left_margin(),
            r <= self@.right_margin(),
            r < self.screen.cols,
    {
        if self.margins.horizontal {
            if self.margins.left < self.screen.cols - 1 {
                self.margins.left
            } else {
                self.screen.cols - 1
            }
        } else {
            0
        }
    }

    /// ED and DECSED.
    pub fn erase_display_impl(&mut self, mode: u16, selective: bool)
        requires
            old(self).wf(),
        ensures
            final(self).wf(),
            final(self)@.screen.same_shape(old(self)@.screen),
            final(self)@ == old(self)@.display_erased(mode as int, selective),
    {
        let left: usize = self.left_margin();
        let bound: usize = self.right_margin() + 1;
        let row: usize = self.cursor.row;
        let col: usize = self.cursor.col;
        let last: usize = self.screen.rows - 1;
        let (r0, c0, r1, c1): (usize, usize, usize, usize) = if mode == 0 {
            (
                row,
                if col < bound {
                    col
                } else {
                    bound
                },
                last,
                bound,
            )
        } else if mode == 1 {
            let end: usize = if col + 1 < left {
                left
            } else if col + 1 < bound {
                col + 1
            } else {
                bound
            };
            (0, left, row, end)
        } else if mode == 2 || mode == 3 {
            (0, left, last, bound)
        } else {
            return ;
        };
        if mode == 3 {
            self.screen.clear_history();
            self.scrollback_offset = 0;
        }
        let fill = Cell::blank(self.pen.fg, self.pen.bg, Attrs::default());
        let ghost imgs = self@.screen.images;
        let ghost base = self@.screen;
        self.screen.erase_rows(r0, c0, r1, c1, left, bound, &fill, selective);
        proof {
            reveal(ScreenState::map_lines);
            assert(self@.screen.images == imgs);
        }
        if mode == 2 || mode == 3 {
            self.screen.clear_images();
        } else {
            self.screen.remove_images_in(r0, r1, c0, c1);
        }
    }

    /// EL and DECSEL.
    pub fn erase_line_impl(&mut self, mode: u16, selective: bool)
        requires
            old(self).wf(),
        ensures
            final(self).wf(),
            final(self)@.screen.same_shape(old(self)@.screen),
            final(self)@ == old(self)@.line_erased(mode as int, selective),
    {
        let left: usize = self.left_margin();
        let bound: usize = self.right_margin() + 1;
        let row: usize = self.cursor.row;
        let col: usize = self.cursor.col;
        let (c0, c1): (usize, usize) = if mode == 0 {
            (
                if col < bound {
                    col
                } else {
                    bound
                },
                bound,
            )
        } else if mode == 1 {
            let end: usize = if col + 1 < left {
                left
            } else if col + 1 < bound {
                col + 1
            } else {
                bound
            };
            (left, end)
        } else if mode == 2 {
            (left, bound)
        } else {
            return ;
        };
        let fill = Cell::blank(self.pen.fg, self.pen.bg, Attrs::default());
        self.screen.erase_in_row(row, c0, c1, &fill, selective);
        proof {
            reveal(ScreenState::put_line);
        }
        self.screen.remove_images_in(row, row, c0, c1);
    }

    /// Fill a rectangle (DECFRA, DECERA, DECSERA): rows `top..=bottom` and
    /// columns `left..=right`, counted from 1.
    pub fn fill_rect(
        &mut self,
        top: usize,
        left: usize,
        bottom: usize,
        right: usize,
        fill: u16,
        selective: bool,
    )
        requires
            old(self).wf(),
            top <= 65535,
            left <= 65535,
            bottom <= 65535,
            right <= 65535,
        ensures
            final(self).wf(),
            final(self)@.screen.same_shape(old(self)@.screen),
            final(self)@ == old(self)@.rect_filled(
                top as int,
                left as int,
                bottom as int,
                right as int,
                coded_char(fill),
                selective,
            ),
    {
        let origin: usize = if self.modes.origin_mode {
            self.margins.top
        } else {
            0
        };
        let last_row: usize = self.screen.rows - 1;
        let last_col: usize = self.screen.cols - 1;
        let r0: usize = at_most(below(top) + origin, last_row);
        let r1: usize = at_most(below(bottom) + origin, last_row);
        let c0: usize = at_most(below(left), last_col);
        let c1: usize = at_most(below(right), last_col);
        if r0 > r1 || c0 > c1 {
            return ;
        }
        let mut cell = Cell::blank(self.pen.fg, self.pen.bg, self.pen.attrs);
        cell.ch = char_of_code(fill);
        self.screen.erase_rows(r0, c0, r1, c1 + 1, c0, c1 + 1, &cell, selective);
    }

    /// Insert `n` blank columns at the cursor (DECIC).
    pub fn insert_columns(&mut self, n: usize)
        requires
            old(self).wf(),
            n <= 65535,
        ensures
            final(self).wf(),
            final(self)@.screen.same_shape(old(self)@.screen),
            final(self)@ == old(self)@.columns_inserted(n as int),
    {
        let bound: usize = self.right_margin() + 1;
        let col: usize = self.cursor.col;
        if col >= bound {
            return ;
        }
        let n: usize = at_most(n, bound - col);
        let fill = Cell::blank(self.pen.fg, self.pen.bg, self.pen.attrs);
        self.screen.insert_columns(col, n, bound, &fill);
    }

    /// Delete `n` columns at the cursor (DECDC).
    pub fn delete_columns(&mut self, n: usize)
        requires
            old(self).wf(),
            n <= 65535,
        ensures
            final(self).wf(),
            final(self)@.screen.same_shape(old(self)@.screen),
            final(self)@ == old(self)@.columns_deleted(n as int),
    {
        let bound: usize = self.right_margin() + 1;
        let col: usize = self.cursor.col;
        if col >= bound {
            return ;
        }
        let n: usize = at_most(n, bound - col);
        let fill = Cell::blank(self.pen.fg, self.pen.bg, self.pen.attrs);
        self.screen.delete_columns(col, n, bound, &fill);
    }

    /// Insert `n` blanks at the cursor (ICH).
    pub fn insert_chars(&mut self, n: usize)
        requires
            old(self).wf(),
            n <= 65535,
        ensures
            final(self).wf(),
            final(self)@.screen.same_shape(old(self)@.screen),
            final(self)@ == old(self)@.chars_inserted(n as int),
    {
        let bound: usize = self.right_margin() + 1;
        let fill = Cell::default();
        self.screen.insert_in_row(self.cursor.row, self.cursor.col, n, bound, &fill);
    }

    /// Delete `n` characters at the cursor (DCH).
    pub fn delete_chars(&mut self, n: usize)
        requires
            old(self).wf(),
            n <= 65535,
        ensures
            final(self).wf(),
            final(self)@.screen.same_shape(old(self)@.screen),
            final(self)@ == old(self)@.chars_deleted(n as int),
    {
        let bound: usize = self.right_margin() + 1;
        let fill = Cell::default();
        self.screen.delete_in_row(self.cursor.row, self.cursor.col, n, bound, &fill);
    }

    /// Erase `n` characters from the cursor on (ECH).
    pub fn erase_chars(&mut self, n: usize)
        requires
            old(self).wf(),
            n <= 65535,
        ensures
            final(self).wf(),
            final(self)@.screen.same_shape(old(self)@.screen),
            final(self)@ == old(self)@.chars_erased(n as int),
    {
        let col: usize = self.cursor.col;
        let end: usize = at_most(col + n, self.screen.cols);
        let fill = Cell::blank(self.pen.fg, self.pen.bg, Attrs::default());
        self.screen.erase_in_row(self.cursor.row, col, end, &fill, false);
    }

    /// Show the screen alignment pattern (DECALN).
    pub fn align_screen(&mut self)
        requires
            old(self).wf(),
        ensures
            final(self).wf(),
            final(self)@.screen.same_shape(old(self)@.screen),
            final(self)@ == old(self)@.screen_aligned(),
    {
        let bottom: usize = self.screen.rows - 1;
        self.screen.align();
        self.cursor = Cursor { row: 0, col: 0 };
        self.margins = ScrollMargins { top: 0, bottom, ..self.margins };
        self.modes = Modes { origin_mode: false, ..self.modes };
    }
}

/// The smaller of two numbers.
pub fn at_most(a: usize, b: usize) -> (r: usize)
    ensures
        r == min(a as int, b as int),
{
    if a <= b {
        a
    } else {
        b
    }
}

/// The larger of two numbers.
pub fn at_least(a: usize, b: usize) -> (r: usize)
    ensures
        r == max(a as int, b as int),
{
    if a >= b {
        a
    } else {
        b
    }
}

/// One less, but not below 0.
pub fn below(a: usize) -> (r: usize)
    ensures
        r == monus(a as int, 1),
{
    if a > 0 {
        a - 1
    } else {
        0
    }
}

// ---------------------------------------------------------------------------
// Laws
// ---------------------------------------------------------------------------

/// Selective erasure in the display spares protected cells.
pub proof fn display_erasure_spares_protected(g: GridState, mode: int, r: int, c: int)
    requires
        g.wf(),
        0 <= r < g.screen.rows,
        0 <= c < g.screen.cols,
        g.screen.active()[r][c].attrs@.protected,
    ensures
        g.display_erased(mode, true).screen.active()[r][c] == g.screen.active()[r][c],
{
    reveal(ScreenState::map_lines);
    reveal(ScreenState::filled);
    assert(g.screen.active()[r].len() == g.screen.cols);
}

/// Selective erasure in the line spares protected cells, and no erasure in the
/// line touches another line.
pub proof fn line_erasure_spares_protected(g: GridState, mode: int, selective: bool, r: int, c: int)
    requires
        g.wf(),
        0 <= r < g.screen.rows,
        0 <= c < g.screen.cols,
        r != g.row || (selective && g.screen.active()[r][c].attrs@.protected),
    ensures
        g.line_erased(mode, selective).screen.active()[r][c] == g.screen.active()[r][c],
{
    reveal(ScreenState::put_line);
    reveal(ScreenState::filled);
    assert(g.screen.active()[r].len() == g.screen.cols);
}

/// Selective erasure of a rectangle spares protected cells.
pub proof fn rect_erasure_spares_protected(
    g: GridState,
    top: int,
    left: int,
    bottom: int,
    right: int,
    ch: char,
    r: int,
    c: int,
)
    requires
        g.wf(),
        0 <= r < g.screen.rows,
        0 <= c < g.screen.cols,
        g.screen.active()[r][c].attrs@.protected,
    ensures
        g.rect_filled(top, left, bottom, right, ch, true).screen.active()[r][c]
            == g.screen.active()[r][c],
{
    reveal(ScreenState::map_lines);
    reveal(ScreenState::filled);
    assert(g.screen.active()[r].len() == g.screen.cols);
}

} // verus!
