//! Changing the size of the grid.
use std::collections::VecDeque;
use std::sync::Arc;
use vstd::prelude::*;

use super::cell::{
    blank_line, line_view, lines_view, new_blank_line, share, Cell, CellState, Cursor, WinSize,
};
use super::erase::{at_most, below};
use super::screen::Screen;
use super::setup::{default_tab_stops, flags, repeat_line, zeros};
use super::state::{
    default_stops, min, monus, GridState, Margins, Modes, OutboxState, Pen, ScreenState,
};
use super::{Grid, ScrollMargins};
use crate::sixel::placements;

verus! {

// ---------------------------------------------------------------------------
// Reflow
// ---------------------------------------------------------------------------

/// The number of lines of `cols` columns that a line of `len` cells fills; an
/// empty line fills one.
pub open spec fn pieces(len: int, cols: int) -> int {
    if len == 0 {
        1
    } else {
        (len - 1) / cols + 1
    }
}

/// Piece `k` of `line` cut into lines of `cols` columns, padded with empty
/// cells.
pub open spec fn piece(line: Seq<CellState>, cols: int, k: int) -> Seq<CellState> {
    Seq::new(
        cols as nat,
        |i: int|
            if k * cols + i < line.len() {
                line[k * cols + i]
            } else {
                CellState::empty()
            },
    )
}

/// `line` cut into lines of `cols` columns.
pub open spec fn cut(line: Seq<CellState>, cols: int) -> Seq<Seq<CellState>> {
    Seq::new(pieces(line.len() as int, cols) as nat, |k: int| piece(line, cols, k))
}

/// All lines cut into lines of `cols` columns.
pub open spec fn reflowed(lines: Seq<Seq<CellState>>, cols: int) -> Seq<Seq<CellState>>
    decreases lines.len(),
{
    if lines.len() == 0 {
        Seq::empty()
    } else {
        reflowed(lines.drop_last(), cols) + cut(lines.last(), cols)
    }
}

impl ScreenState {
    /// The whole text of the primary screen, history first, cut to `cols`
    /// columns.
    pub open spec fn reflow(self, cols: int) -> Seq<Seq<CellState>> {
        reflowed(self.scrollback + self.primary, cols)
    }

    /// Where row `row`, column `col` of the primary screen goes in the reflowed
    /// text.
    pub open spec fn reflow_line(self, row: int, col: int, cols: int) -> int {
        reflowed(self.scrollback + self.primary.take(row), cols).len() + min(
            col / cols,
            pieces(self.primary[row].len() as int, cols) - 1,
        )
    }

    /// The first line of the reflowed text that is shown: the last `rows`
    /// lines, or earlier ones so that the cursor's line is shown.
    pub open spec fn reflow_start(self, row: int, col: int, cols: int, rows: int) -> int {
        min(
            monus(self.reflow_line(row, col, cols), rows - 1),
            monus(self.reflow(cols).len() as int, rows),
        )
    }

    /// The screens at a new size. The primary screen shows the reflowed text
    /// from `start` on; what precedes, as far as the capacity goes, is the
    /// scrollback. The alternate screen keeps its top left part. Markers and
    /// images are dropped.
    pub open spec fn resized(self, start: int, cols: int, rows: int) -> ScreenState {
        let all = self.reflow(cols);
        let shown = min(all.len() - start, rows);
        let first = monus(start, self.capacity);
        let kept = min(self.rows, rows);
        ScreenState {
            cols,
            rows,
            primary: Seq::new(
                rows as nat,
                |r: int|
                    if r < shown {
                        all[start + r]
                    } else {
                        blank_line(cols)
                    },
            ),
            alt: Seq::new(
                rows as nat,
                |r: int|
                    if r < kept {
                        piece(self.alt[r].take(min(self.cols, cols)), cols, 0)
                    } else {
                        blank_line(cols)
                    },
            ),
            alt_active: self.alt_active,
            scrollback: all.subrange(first, start),
            capacity: self.capacity,
            markers: Seq::new(rows as nat, |r: int| 0u8),
            history_markers: Seq::new((start - first) as nat, |r: int| 0u8),
            is_blank: Seq::new(
                rows as nat,
                |r: int|
                    if self.alt_active {
                        r >= kept
                    } else {
                        r >= shown
                    },
            ),
            blank_dirty: Seq::new(rows as nat, |r: int| false),
            images: Seq::empty(),
        }
    }
}

impl GridState {
    /// The grid at a new size.
    #[verifier::opaque]
    pub open spec fn resized(self, cols: int, rows: int) -> GridState {
        let start = self.screen.reflow_start(self.row, self.col, cols, rows);
        let line = self.screen.reflow_line(self.row, self.col, cols);
        GridState {
            screen: self.screen.resized(start, cols, rows),
            row: min(line - start, rows - 1),
            col: self.col % cols,
            alt_row: min(self.alt_row, rows - 1),
            alt_col: min(self.alt_col, cols - 1),
            margins: Margins { top: 0, bottom: rows - 1, ..self.margins },
            line_modes: Seq::new(
                rows as nat,
                |r: int|
                    if r < self.line_modes.len() {
                        self.line_modes[r]
                    } else {
                        0
                    },
            ),
            tabs: default_stops(cols),
            ..self
        }.all_dirty().links_pruned()
    }
}

proof fn pieces_bounds(len: int, cols: int)
    requires
        len >= 0,
        cols >= 1,
    ensures
        pieces(len, cols) >= 1,
        pieces(len, cols) * cols >= len,
        len > 0 ==> (pieces(len, cols) - 1) * cols < len,
{
    if len > 0 {
        let q = (len - 1) / cols;
        assert(q >= 0 && q * cols <= len - 1 && (q + 1) * cols >= len) by (nonlinear_arith)
            requires
                q == (len - 1) / cols,
                len > 0,
                cols >= 1,
        ;
    }
}

proof fn piece_next(k: int, cols: int)
    ensures
        (k + 1) * cols == k * cols + cols,
{
    assert((k + 1) * cols == k * cols + cols) by (nonlinear_arith);
}

/// One line of `cols` columns with the cells of `line` from `from` on.
fn cut_piece(line: &Vec<Cell>, from: usize, cols: usize) -> (r: Vec<Cell>)
    requires
        from <= line@.len(),
    ensures
        r@.len() == cols,
        forall|i: int|
            0 <= i < cols ==> (#[trigger] r@[i])@ == if from + i < line@.len() {
                line@[from + i]@
            } else {
                CellState::empty()
            },
{
    let mut r: Vec<Cell> = Vec::new();
    let mut i: usize = 0;
    let len: usize = line.len();
    while i < cols
        invariant
            i <= cols,
            from <= line@.len(),
            len == line@.len(),
            r@.len() == i,
            forall|k: int|
                0 <= k < i ==> (#[trigger] r@[k])@ == if from + k < line@.len() {
                    line@[from + k]@
                } else {
                    CellState::empty()
                },
        decreases cols - i,
    {
        if i < len - from {
            r.push(line[from + i].clone());
        } else {
            r.push(Cell::default());
        }
        i += 1;
    }
    r
}

/// Append `line` cut into lines of `cols` columns.
fn append_cut(out: &mut Vec<Arc<Vec<Cell>>>, line: &Vec<Cell>, cols: usize) -> (n: usize)
    requires
        1 <= cols <= 65535,
    ensures
        lines_view(final(out)@) == lines_view(old(out)@) + cut(line_view(line@), cols as int),
        n == pieces(line@.len() as int, cols as int),
{
    let ghost before = lines_view(out@);
    let ghost lv = line_view(line@);
    let ghost total = pieces(lv.len() as int, cols as int);
    let mut from: usize = 0;
    let mut n: usize = 0;
    let len: usize = line.len();
    proof {
        pieces_bounds(lv.len() as int, cols as int);
        assert(before + cut(lv, cols as int).take(0) =~= before);
    }
    loop
        invariant
            1 <= cols <= 65535,
            lv == line_view(line@),
            before == lines_view(old(out)@),
            len == line@.len(),
            total == pieces(lv.len() as int, cols as int),
            total >= 1,
            total * cols >= len,
            len > 0 ==> (total - 1) * cols < len,
            0 <= n < total,
            n <= from <= len,
            from == n * cols,
            lines_view(out@) == before + cut(lv, cols as int).take(n as int),
        decreases total - n,
    {
        let row = cut_piece(line, from, cols);
        let ghost prev = out@;
        proof {
            assert(line_view(row@) =~= piece(lv, cols as int, n as int));
        }
        out.push(Arc::new(row));
        proof {
            assert(lines_view(out@) =~= lines_view(prev).push(piece(lv, cols as int, n as int)));
            assert(cut(lv, cols as int).take(n + 1) =~= cut(lv, cols as int).take(n as int).push(
                piece(lv, cols as int, n as int),
            ));
            assert(lines_view(out@) =~= before + cut(lv, cols as int).take(n + 1));
            piece_next(n as int, cols as int);
            assert(n + 1 < total ==> (n + 1) * cols <= (total - 1) * cols) by (nonlinear_arith)
                requires
                    cols >= 1,
            ;
            assert(n + 1 >= total ==> (n + 1) * cols >= total * cols) by (nonlinear_arith)
                requires
                    cols >= 1,
            ;
        }
        n += 1;
        if len - from <= cols {
            proof {
                assert(n == total);
                assert(cut(lv, cols as int).take(total) =~= cut(lv, cols as int));
            }
            return n;
        }
        from += cols;
    }
}

proof fn reflow_push(lines: Seq<Seq<CellState>>, i: int, cols: int)
    requires
        0 <= i < lines.len(),
    ensures
        reflowed(lines.take(i + 1), cols) == reflowed(lines.take(i), cols) + cut(lines[i], cols),
{
    assert(lines.take(i + 1).drop_last() =~= lines.take(i));
}

proof fn reflow_widths(lines: Seq<Seq<CellState>>, cols: int)
    requires
        cols >= 1,
    ensures
        forall|i: int|
            0 <= i < reflowed(lines, cols).len() ==> (#[trigger] reflowed(lines, cols)[i]).len()
                == cols,
        reflowed(lines, cols).len() >= lines.len(),
    decreases lines.len(),
{
    if lines.len() > 0 {
        reflow_widths(lines.drop_last(), cols);
        pieces_bounds(lines.last().len() as int, cols);
    }
}

/// Handles to the lines `from..to`.
fn share_lines(lines: &Vec<Arc<Vec<Cell>>>, from: usize, to: usize) -> (r: Vec<Arc<Vec<Cell>>>)
    requires
        from <= to <= lines@.len(),
    ensures
        lines_view(r@) == lines_view(lines@).subrange(from as int, to as int),
{
    let mut r: Vec<Arc<Vec<Cell>>> = Vec::new();
    let mut i: usize = from;
    while i < to
        invariant
            from <= i <= to <= lines@.len(),
            r@ == lines@.subrange(from as int, i as int),
        decreases to - i,
    {
        r.push(share(&lines[i]));
        i += 1;
        proof {
            assert(r@ =~= lines@.subrange(from as int, i as int));
        }
    }
    proof {
        assert(lines_view(r@) =~= lines_view(lines@).subrange(from as int, to as int));
    }
    r
}

impl Screen {
    /// The reflowed text, and the line in it of row `row`, column `col`.
    fn reflow_all(&self, row: usize, col: usize, cols: usize) -> (r: (Vec<Arc<Vec<Cell>>>, usize))
        requires
            self.wf(),
            1 <= cols <= 65535,
            row < self.rows,
        ensures
            lines_view(r.0@) == self@.reflow(cols as int),
            r.1 == self@.reflow_line(row as int, col as int, cols as int),
            r.1 < r.0@.len(),
    {
        let mut all: Vec<Arc<Vec<Cell>>> = Vec::new();
        let mut at: usize = 0;
        let ghost sb = self@.scrollback;
        let ghost pr = self@.primary;
        let mut i: usize = 0;
        proof {
            assert(sb.take(0) =~= Seq::empty());
            assert(lines_view(all@) =~= reflowed(sb.take(0), cols as int));
        }
        while i < self.scrollback.len()
            invariant
                i <= self.scrollback@.len(),
                1 <= cols <= 65535,
                sb == self@.scrollback,
                lines_view(all@) == reflowed(sb.take(i as int), cols as int),
            decreases self.scrollback@.len() - i,
        {
            proof {
                reflow_push(sb, i as int, cols as int);
            }
            let _ = append_cut(&mut all, &self.scrollback[i], cols);
            i += 1;
        }
        let mut r: usize = 0;
        proof {
            assert(sb.take(sb.len() as int) =~= sb);
            assert(sb + pr.take(0) =~= sb);
        }
        while r < self.rows
            invariant
                self.wf(),
                r <= self.rows,
                row < self.rows,
                1 <= cols <= 65535,
                sb == self@.scrollback,
                pr == self@.primary,
                lines_view(all@) == reflowed(sb + pr.take(r as int), cols as int),
                r > row ==> at == self@.reflow_line(row as int, col as int, cols as int),
                r > row ==> at < all@.len(),
            decreases self.rows - r,
        {
            let ghost before = all@.len();
            proof {
                let t = sb + pr;
                reflow_push(t, sb.len() + r, cols as int);
                assert(t.take(sb.len() + r) =~= sb + pr.take(r as int));
                assert(t.take(sb.len() + r + 1) =~= sb + pr.take(r + 1));
                pieces_bounds(pr[r as int].len() as int, cols as int);
                assert(lines_view(all@).len() == before);
            }
            let n: usize = append_cut(&mut all, &self.cells_primary[r], cols);
            proof {
                assert(lines_view(all@).len() == all@.len());
            }
            if r == row {
                let down: usize = at_most(col / cols, n - 1);
                at = all.len() - n + down;
            }
            r += 1;
        }
        proof {
            assert(pr.take(pr.len() as int) =~= pr);
        }
        (all, at)
    }
}

/// The lines `from..to` as a history.
fn history_of(lines: &Vec<Arc<Vec<Cell>>>, from: usize, to: usize) -> (r: VecDeque<Arc<Vec<Cell>>>)
    requires
        from <= to <= lines@.len(),
    ensures
        lines_view(r@) == lines_view(lines@).subrange(from as int, to as int),
{
    let mut r: VecDeque<Arc<Vec<Cell>>> = VecDeque::new();
    let mut i: usize = from;
    proof {
        assert(r@ =~= lines@.subrange(from as int, from as int));
    }
    while i < to
        invariant
            from <= i <= to <= lines@.len(),
            r@ == lines@.subrange(from as int, i as int),
        decreases to - i,
    {
        r.push_back(share(&lines[i]));
        i += 1;
        proof {
            assert(r@ =~= lines@.subrange(from as int, i as int));
        }
    }
    proof {
        assert(lines_view(r@) =~= lines_view(lines@).subrange(from as int, to as int));
    }
    r
}

fn zero_marks(n: usize) -> (r: VecDeque<u8>)
    ensures
        r@ == Seq::new(n as nat, |i: int| 0u8),
{
    let mut r: VecDeque<u8> = VecDeque::new();
    let mut i: usize = 0;
    proof {
        assert(r@ =~= Seq::new(0, |i: int| 0u8));
    }
    while i < n
        invariant
            i <= n,
            r@ == Seq::new(i as nat, |i: int| 0u8),
        decreases n - i,
    {
        r.push_back(0u8);
        i += 1;
        proof {
            assert(r@ =~= Seq::new(i as nat, |i: int| 0u8));
        }
    }
    r
}

/// `true` from index `from` on.
fn flags_from(n: usize, from: usize) -> (r: Vec<bool>)
    ensures
        r@ == Seq::new(n as nat, |i: int| i >= from),
{
    let mut r: Vec<bool> = Vec::new();
    let mut i: usize = 0;
    while i < n
        invariant
            i <= n,
            r@ == Seq::new(i as nat, |k: int| k >= from),
        decreases n - i,
    {
        r.push(i >= from);
        i += 1;
        proof {
            assert(r@ =~= Seq::new(i as nat, |k: int| k >= from));
        }
    }
    proof {
        assert(r@ =~= Seq::new(n as nat, |i: int| i >= from));
    }
    r
}

impl Screen {
    /// The alternate screen at a new size.
    fn resized_alt(&self, blank: &Arc<Vec<Cell>>, cols: usize, rows: usize) -> (r: Vec<
        Arc<Vec<Cell>>,
    >)
        requires
            self.wf(),
            1 <= cols <= 65535,
            1 <= rows <= 65535,
            line_view(blank@) == blank_line(cols as int),
        ensures
            lines_view(r@) == Seq::new(
                rows as nat,
                |k: int|
                    if k < min(self@.rows, rows as int) {
                        piece(self@.alt[k].take(min(self@.cols, cols as int)), cols as int, 0)
                    } else {
                        blank_line(cols as int)
                    },
            ),
    {
        let mut r: Vec<Arc<Vec<Cell>>> = Vec::new();
        let mut i: usize = 0;
        while i < rows
            invariant
                self.wf(),
                i <= rows,
                r@.len() == i,
                line_view(blank@) == blank_line(cols as int),
                forall|k: int|
                    0 <= k < i ==> line_view((#[trigger] r@[k])@) == if k < min(
                        self@.rows,
                        rows as int,
                    ) {
                        piece(self@.alt[k].take(min(self@.cols, cols as int)), cols as int, 0)
                    } else {
                        blank_line(cols as int)
                    },
            decreases rows - i,
        {
            if i < self.rows {
                let line = cut_piece(&self.cells_alt[i], 0, cols);
                proof {
                    reveal(ScreenState::filled);
                    assert(self@.alt[i as int].len() == self@.cols);
                    let t = self@.alt[i as int].take(min(self@.cols, cols as int));
                    assert(line_view(line@) =~= piece(t, cols as int, 0));
                }
                r.push(Arc::new(line));
            } else {
                r.push(share(blank));
            }
            i += 1;
        }
        proof {
            assert(lines_view(r@) =~= Seq::new(
                rows as nat,
                |k: int|
                    if k < min(self@.rows, rows as int) {
                        piece(self@.alt[k].take(min(self@.cols, cols as int)), cols as int, 0)
                    } else {
                        blank_line(cols as int)
                    },
            ));
        }
        r
    }

    /// The screens at a new size, showing the reflowed text `all` from `start`
    /// on.
    fn resized(&self, all: &Vec<Arc<Vec<Cell>>>, start: usize, cols: usize, rows: usize) -> (r:
        Screen)
        requires
            self.wf(),
            1 <= cols <= 65535,
            1 <= rows <= 65535,
            lines_view(all@) == self@.reflow(cols as int),
            start <= all@.len(),
        ensures
            r.wf(),
            r@ == self@.resized(start as int, cols as int, rows as int),
    {
        let blank = Arc::new(new_blank_line(cols));
        let total: usize = all.len();
        let shown: usize = at_most(total - start, rows);
        let first: usize = if start > self.scrollback_capacity {
            start - self.scrollback_capacity
        } else {
            0
        };
        let ghost av = self@.reflow(cols as int);
        proof {
            assert(lines_view(all@).len() == all@.len());
            reflow_widths(self@.scrollback + self@.primary, cols as int);
        }
        let mut primary = share_lines(all, start, start + shown);
        let mut padding = repeat_line(&blank, rows - shown);
        let ghost shown_lines = lines_view(primary@);
        let ghost padding_lines = lines_view(padding@);
        let ghost p0 = primary@;
        let ghost q0 = padding@;
        primary.append(&mut padding);
        let kept: usize = at_most(self.rows, rows);
        let r = Screen {
            cols,
            rows,
            cells_primary: primary,
            cells_alt: self.resized_alt(&blank, cols, rows),
            alt_active: self.alt_active,
            scrollback: history_of(all, first, start),
            scrollback_capacity: self.scrollback_capacity,
            shell_markers: zeros(rows),
            shell_scrollback_markers: zero_marks(start - first),
            blank_row: blank,
            row_is_blank: flags_from(
                rows,
                if self.alt_active {
                    kept
                } else {
                    shown
                },
            ),
            row_blank_dirty: flags(rows, false),
            sixel_images: Vec::new(),
        };
        proof {
            let goal = self@.resized(start as int, cols as int, rows as int);
            assert(lines_view(r.cells_primary@) =~= lines_view(p0) + lines_view(q0));
            assert(r@.primary =~= goal.primary);
            assert(r@.is_blank =~= goal.is_blank);
            assert(r@.images =~= goal.images);
            assert(r@.alt =~= goal.alt);
            assert(r@ == goal);
            reveal(ScreenState::filled);
            assert forall|k: int| 0 <= k < rows && #[trigger] r@.is_blank[k] implies r@.active()[k]
                == blank_line(cols as int) by {}
            assert forall|k: int| 0 <= k < rows implies (#[trigger] r@.primary[k]).len() == cols by {
                if k < shown {
                    assert(av[start + k].len() == cols);
                }
            }
            assert(r@.filled());
        }
        r
    }
}

fn resized_modes(modes: &Vec<u8>, rows: usize) -> (r: Vec<u8>)
    ensures
        r@ == Seq::new(
            rows as nat,
            |r: int|
                if r < modes@.len() {
                    modes@[r]
                } else {
                    0
                },
        ),
{
    let mut r: Vec<u8> = Vec::new();
    let mut i: usize = 0;
    while i < rows
        invariant
            i <= rows,
            r@ == Seq::new(
                i as nat,
                |r: int|
                    if r < modes@.len() {
                        modes@[r]
                    } else {
                        0
                    },
            ),
        decreases rows - i,
    {
        if i < modes.len() {
            r.push(modes[i]);
        } else {
            r.push(0);
        }
        i += 1;
        proof {
            assert(r@ =~= Seq::new(
                i as nat,
                |r: int|
                    if r < modes@.len() {
                        modes@[r]
                    } else {
                        0
                    },
            ));
        }
    }
    r
}

impl GridState {
    /// The screen cleared in the default colours, the margins reset, the cursor
    /// homed.
    pub open spec fn emptied(self) -> GridState {
        self.with_pen(Pen::plain()).with_margins(
            Margins {
                top: 0,
                bottom: self.screen.rows - 1,
                left: 0,
                right: self.screen.cols - 1,
                horizontal: false,
            },
        ).display_erased(2, false).at(0, 0)
    }

    /// DECCOLM and DECSCPP: 80 or 132 columns (2 to 512 are honoured), on an
    /// empty screen; a change of width is passed on to the window.
    #[verifier::opaque]
    pub open spec fn columns_set(self, cols: int) -> GridState {
        if cols == self.screen.cols {
            self.emptied()
        } else {
            let c = if cols < 2 {
                2
            } else if cols > 512 {
                512
            } else {
                cols
            };
            let s = self.resized(c, self.screen.rows).emptied();
            s.with_outbox(
                OutboxState {
                    resize_request: Some(WinSize { cols: c as u16, rows: self.screen.rows as u16 }),
                    ..s.outbox
                },
            )
        }
    }

    /// DECSTR: modes, pen, tab stops and margins as at power-up, the screen
    /// cleared, the cursor homed; the scrollback stays.
    #[verifier::opaque]
    pub open spec fn soft_reset(self) -> GridState {
        let s = GridState {
            pen: Pen::plain(),
            modes: Modes {
                bulk_output: self.modes.bulk_output,
                modify_other_keys: self.modes.modify_other_keys,
                ..Modes::initial()
            },
            tabs: default_stops(self.screen.cols),
            margins: Margins {
                top: 0,
                bottom: self.screen.rows - 1,
                left: 0,
                right: self.screen.cols - 1,
                horizontal: false,
            },
            ..self
        };
        s.display_erased(2, false).at(0, 0).all_dirty()
    }
}

impl Grid {
    /// Resize the grid, reflowing the primary screen and its history.
    pub fn resize(&mut self, size: WinSize)
        requires
            old(self).wf(),
        ensures
            final(self).wf(),
            final(self)@ == old(self)@.resized(
                if size.cols == 0 {
                    1
                } else {
                    size.cols as int
                },
                if size.rows == 0 {
                    1
                } else {
                    size.rows as int
                },
            ),
            final(self)@.screen.cols == if size.cols == 0 {
                1
            } else {
                size.cols as int
            },
            final(self)@.screen.rows == if size.rows == 0 {
                1
            } else {
                size.rows as int
            },
    {
        proof {
            reveal(GridState::resized);
        }
        let cols: usize = if size.cols == 0 {
            1
        } else {
            size.cols as usize
        };
        let rows: usize = if size.rows == 0 {
            1
        } else {
            size.rows as usize
        };
        let row: usize = self.cursor.row;
        let col: usize = self.cursor.col;
        let (all, line): (Vec<std::sync::Arc<Vec<Cell>>>, usize) = self.screen.reflow_all(
            row,
            col,
            cols,
        );
        proof {
            assert(lines_view(all@).len() == all@.len());
        }
        let start: usize = at_most(
            if line > rows - 1 {
                line - (rows - 1)
            } else {
                0
            },
            if all.len() > rows {
                all.len() - rows
            } else {
                0
            },
        );
        let new_screen = self.screen.resized(&all, start, cols, rows);
        self.screen = new_screen;
        self.cursor = Cursor { row: at_most(line - start, rows - 1), col: col % cols };
        self.alt_saved_cursor = Cursor {
            row: at_most(self.alt_saved_cursor.row, rows - 1),
            col: at_most(self.alt_saved_cursor.col, cols - 1),
        };
        self.margins = ScrollMargins { top: 0, bottom: rows - 1, ..self.margins };
        self.line_modes = resized_modes(&self.line_modes, rows);
        self.tab_stops = default_tab_stops(cols);
        self.mark_all_dirty();
        self.prune_hyperlinks();
    }

    fn empty(&mut self)
        requires
            old(self).wf(),
        ensures
            final(self).wf(),
            final(self)@ == old(self)@.emptied(),
            final(self).screen.rows == old(self).screen.rows,
    {
        self.pen = Pen {
            fg: super::Color::Default,
            bg: super::Color::Default,
            attrs: super::Attrs::default(),
        };
        self.margins = ScrollMargins {
            top: 0,
            bottom: self.screen.rows - 1,
            left: 0,
            right: self.screen.cols - 1,
            horizontal: false,
        };
        self.erase_display_impl(2, false);
        self.cursor = Cursor { row: 0, col: 0 };
    }

    /// Switch between 80 and 132 columns (DECCOLM, DECSCPP).
    pub fn set_columns(&mut self, new_cols: usize)
        requires
            old(self).wf(),
        ensures
            final(self).wf(),
            final(self)@ == old(self)@.columns_set(new_cols as int),
    {
        proof {
            reveal(GridState::columns_set);
        }
        if new_cols == self.screen.cols {
            self.empty();
            return ;
        }
        let cols: usize = if new_cols < 2 {
            2
        } else if new_cols > 512 {
            512
        } else {
            new_cols
        };
        let rows: usize = self.screen.rows;
        let size = WinSize { cols: cols as u16, rows: rows as u16 };
        self.resize(size);
        self.empty();
        self.outbox.window_resize_request = Some(size);
    }

    /// Soft terminal reset (DECSTR).
    pub fn soft_reset(&mut self)
        requires
            old(self).wf(),
        ensures
            final(self).wf(),
            final(self)@ == old(self)@.soft_reset(),
    {
        proof {
            reveal(GridState::soft_reset);
        }
        self.pen = Pen { fg: super::Color::Default, bg: super::Color::Default, attrs: super::Attrs::default() };
        self.modes = Modes {
            cursor_visible: true,
            origin_mode: false,
            autowrap: true,
            screen_reverse: false,
            insert_mode: false,
            cursor_shape: 0,
            application_cursor_keys: false,
            keypad_app: false,
            backarrow_del: false,
            bracketed_paste: false,
            focus_reporting: false,
            synchronized_output: false,
            in_band_resize: false,
            bulk_output: self.modes.bulk_output,
            mouse_mode: super::MouseMode::Off,
            mouse_encoding: super::MouseEncoding::X10,
            modify_other_keys: self.modes.modify_other_keys,
        };
        self.tab_stops = default_tab_stops(self.screen.cols);
        self.margins = ScrollMargins {
            top: 0,
            bottom: self.screen.rows - 1,
            left: 0,
            right: self.screen.cols - 1,
            horizontal: false,
        };
        self.erase_display_impl(2, false);
        self.cursor = Cursor { row: 0, col: 0 };
        self.mark_all_dirty();
    }
}

// ---------------------------------------------------------------------------
// Laws
// ---------------------------------------------------------------------------

/// Reflowing loses no cell and keeps their order: cell `i` of line `l` stands
/// as far into the reflowed text as the lines before it fill, `i` cells on.
pub proof fn reflow_keeps_cells(lines: Seq<Seq<CellState>>, cols: int, l: int, i: int)
    requires
        cols >= 1,
        0 <= l < lines.len(),
        0 <= i < lines[l].len(),
    ensures
        ({
            let at = reflowed(lines.take(l), cols).len() + i / cols;
            &&& at < reflowed(lines, cols).len()
            &&& reflowed(lines, cols)[at][i % cols] == lines[l][i]
        }),
    decreases lines.len(),
{
    let init = lines.drop_last();
    if l < lines.len() - 1 {
        reflow_keeps_cells(init, cols, l, i);
        assert(init.take(l) =~= lines.take(l));
    } else {
        let line = lines.last();
        assert(lines.take(l) =~= init);
        let q = i / cols;
        let n = line.len() as int;
        assert(0 <= q <= (n - 1) / cols && 0 <= i % cols < cols && q * cols + i % cols == i) by (
        nonlinear_arith)
            requires
                q == i / cols,
                0 <= i < n,
                cols >= 1,
        ;
        assert(cut(line, cols)[q] == piece(line, cols, q));
    }
}

/// Where the scrollback has room and the screen shows the end of the text,
/// resizing keeps all of it: the scrollback and then the screen hold the
/// reflowed text.
pub proof fn resizing_keeps_text(s: ScreenState, start: int, cols: int, rows: int)
    requires
        cols >= 1,
        rows >= 1,
        0 <= start <= s.capacity,
        start <= s.reflow(cols).len() <= start + rows,
    ensures
        ({
            let t = s.resized(start, cols, rows);
            t.scrollback + t.primary.take(s.reflow(cols).len() - start) == s.reflow(cols)
        }),
{
    let t = s.resized(start, cols, rows);
    assert(t.scrollback + t.primary.take(s.reflow(cols).len() - start) =~= s.reflow(cols));
}

/// Lines of one width fill the same number of lines each.
proof fn even_reflow(lines: Seq<Seq<CellState>>, cols: int, width: int, a: int, b: int)
    requires
        0 <= a <= b <= lines.len(),
        cols >= 1,
        width >= 1,
        forall|j: int| a <= j < b ==> (#[trigger] lines[j]).len() == width,
    ensures
        reflowed(lines.take(b), cols).len() == reflowed(lines.take(a), cols).len() + (b - a)
            * pieces(width, cols),
    decreases b - a,
{
    let p = pieces(width, cols);
    if a < b {
        even_reflow(lines, cols, width, a, b - 1);
        reflow_push(lines, b - 1, cols);
        assert(cut(lines[b - 1], cols).len() == p) by {
            pieces_bounds(width, cols);
        }
        assert((b - a) * p == (b - 1 - a) * p + p) by (nonlinear_arith);
    } else {
        assert((b - a) * p == 0) by (nonlinear_arith)
            requires
                a == b,
        ;
    }
}

/// The cursor's line is on the resized screen, as low as what precedes it
/// allows.
proof fn resized_cursor(g: GridState, cols: int, rows: int)
    requires
        g.wf(),
        cols >= 1,
        rows >= 1,
    ensures
        ({
            let line = g.screen.reflow_line(g.row, g.col, cols);
            let start = g.screen.reflow_start(g.row, g.col, cols, rows);
            &&& 0 <= line < g.screen.reflow(cols).len()
            &&& start == monus(line, rows - 1)
            &&& g.resized(cols, rows).row == line - start
        }),
{
    reveal(GridState::resized);
    reveal(ScreenState::filled);
    let s = g.screen;
    let all = s.scrollback + s.primary;
    let at = s.scrollback.len() + g.row;
    assert(all.take(at) =~= s.scrollback + s.primary.take(g.row));
    assert(all[at] == s.primary[g.row]);
    reflow_push(all, at, cols);
    pieces_bounds(s.primary[g.row].len() as int, cols);
    assert(g.col / cols >= 0) by (nonlinear_arith)
        requires
            g.col >= 0,
            cols >= 1,
    ;
    let line = s.reflow_line(g.row, g.col, cols);
    assert(line < reflowed(all.take(at + 1), cols).len());
    reflow_grows(all, cols, at + 1);
}

proof fn reflow_grows(lines: Seq<Seq<CellState>>, cols: int, i: int)
    requires
        cols >= 1,
        0 <= i <= lines.len(),
    ensures
        reflowed(lines.take(i), cols).len() <= reflowed(lines, cols).len(),
    decreases lines.len() - i,
{
    if i < lines.len() {
        reflow_push(lines, i, cols);
        reflow_grows(lines, cols, i + 1);
    } else {
        assert(lines.take(i) =~= lines);
    }
}

/// Resizing keeps the cursor on its text: the cell under the cursor stays under
/// it.
pub proof fn resizing_keeps_the_cursor_on_its_cell(g: GridState, cols: int, rows: int)
    requires
        g.wf(),
        cols >= 1,
        rows >= 1,
        g.col < g.screen.cols,
    ensures
        ({
            let t = g.resized(cols, rows);
            &&& 0 <= t.row < rows
            &&& 0 <= t.col < cols
            &&& t.screen.primary[t.row][t.col].dirtied()
                == g.screen.primary[g.row][g.col].dirtied()
        }),
{
    resizing_keeps_places(g, cols, rows, g.screen.scrollback.len() + g.row, g.col);
    resized_cursor(g, cols, rows);
    reveal(GridState::resized);
    let w = g.screen.cols;
    assert(0 <= g.col / cols <= (w + cols - 1) / cols - 1 && 0 <= g.col % cols < cols) by (
    nonlinear_arith)
        requires
            0 <= g.col < w,
            cols >= 1,
    ;
    assert((g.screen.scrollback.len() + g.row - (g.screen.scrollback.len() + g.row)) * ((w + cols
        - 1) / cols) == 0) by (nonlinear_arith);
}

/// Resizing keeps the distances of the text: from the cursor to the cell `i` of
/// line `l` of the history and the screen, where the lines from `l` on are as
/// wide as the screen, there are as many lines as the rows between fill at the
/// new width. What stands above the screen is in the history, unless that is
/// full; nothing is above a screen whose cursor is not on the last row.
pub proof fn resizing_keeps_places(g: GridState, cols: int, rows: int, l: int, i: int)
    requires
        g.wf(),
        cols >= 1,
        rows >= 1,
        0 <= l < g.screen.scrollback.len() + g.screen.rows,
        0 <= i < g.screen.cols,
        forall|j: int|
            l <= j < g.screen.scrollback.len() ==> (#[trigger] g.screen.scrollback[j]).len()
                == g.screen.cols,
    ensures
        ({
            let t = g.resized(cols, rows);
            let history = t.screen.scrollback;
            let before = g.screen.scrollback.len() as int;
            let cell = if l < before {
                g.screen.scrollback[l][i]
            } else {
                g.screen.primary[l - before][i]
            };
            let fills = (g.screen.cols + cols - 1) / cols;
            let at = t.row + (l - (before + g.row)) * fills + i / cols - min(
                g.col / cols,
                fills - 1,
            );
            &&& 0 <= at < rows ==> t.screen.primary[at][i % cols].dirtied() == cell.dirtied()
            &&& at < 0 ==> t.row == rows - 1
            &&& at < 0 && history.len() + at >= 0 ==> history[history.len() + at][i % cols] == cell
            &&& history.len() + at < 0 ==> history.len() == g.screen.capacity
            &&& before == 0 && l == 0 && i == 0 ==> at <= 0
            &&& history.len() > 0 ==> t.row == rows - 1
        }),
{
    resized_cursor(g, cols, rows);
    reveal(GridState::resized);
    reveal(ScreenState::filled);
    reveal(ScreenState::dirtied);
    let s = g.screen;
    let w = s.cols;
    let before = s.scrollback.len() as int;
    let all = s.scrollback + s.primary;
    let c = before + g.row;
    let fills = (w + cols - 1) / cols;
    assert(fills == pieces(w, cols) && fills >= 1) by (nonlinear_arith)
        requires
            w >= 1,
            cols >= 1,
            fills == (w + cols - 1) / cols,
            pieces(w, cols) == (w - 1) / cols + 1,
    ;
    assert(0 <= i / cols < fills && 0 <= i % cols < cols && g.col / cols >= 0) by (nonlinear_arith)
        requires
            0 <= i < w,
            g.col >= 0,
            cols >= 1,
            fills == (w + cols - 1) / cols,
    ;
    assert forall|j: int| l <= j < all.len() implies (#[trigger] all[j]).len() == w by {
        if j >= before {
            assert(all[j] == s.primary[j - before]);
        }
    }
    assert(all.take(c) =~= s.scrollback + s.primary.take(g.row));
    let line = s.reflow_line(g.row, g.col, cols);
    let start = s.reflow_start(g.row, g.col, cols, rows);
    let here = reflowed(all.take(l), cols).len() + i / cols;
    if l <= c {
        even_reflow(all, cols, w, l, c);
        assert((l - c) * fills == -((c - l) * fills)) by (nonlinear_arith);
    } else {
        even_reflow(all, cols, w, c, l);
    }
    assert(s.primary[g.row].len() == w);
    assert(line == reflowed(all.take(c), cols).len() + min(g.col / cols, fills - 1));
    let t = g.resized(cols, rows);
    let at = t.row + (l - c) * fills + i / cols - min(g.col / cols, fills - 1);
    assert(at == here - start);
    reflow_keeps_cells(all, cols, l, i);
    if l == 0 {
        assert(all.take(0) =~= Seq::<Seq<CellState>>::empty());
    }
    assert(s.reflow(cols)[here][i % cols] == all[l][i]);
    let whole = s.reflow(cols);
    let first = monus(start, s.capacity);
    assert(t.screen.scrollback == whole.subrange(first, start));
    if at < 0 && t.screen.scrollback.len() + at >= 0 {
        assert(t.screen.scrollback[t.screen.scrollback.len() + at] == whole[here]);
    }
    if 0 <= at < rows {
        let r = s.resized(start, cols, rows);
        assert(r.primary[at] == whole[start + at]);
        reflow_widths(all, cols);
        assert(whole[here].len() == cols);
    }
}

/// Resizing leaves all but the screens, the cursor and what belongs to rows and
/// columns as it was: the alternate screen keeps its upper left part, the
/// scroll region is the whole screen, and there are tab stops every eight
/// columns.
pub proof fn resizing_keeps_the_rest(g: GridState, cols: int, rows: int, r: int, c: int)
    requires
        g.wf(),
        cols >= 1,
        rows >= 1,
        0 <= r < rows,
        0 <= c < cols,
    ensures
        ({
            let t = g.resized(cols, rows);
            &&& t.screen.cols == cols && t.screen.rows == rows
            &&& t.screen.alt_active == g.screen.alt_active
            &&& t.screen.capacity == g.screen.capacity
            &&& t.screen.alt[r][c].dirtied() == if r < g.screen.rows && c < g.screen.cols {
                g.screen.alt[r][c].dirtied()
            } else {
                CellState::empty()
            }
            &&& t.pen == g.pen && t.modes == g.modes && t.saved == g.saved
            &&& t.keyboard == g.keyboard && t.palette == g.palette && t.charsets == g.charsets
            &&& t.outbox == g.outbox && t.graphics == g.graphics && t.view == g.view
            &&& t.margins.top == 0 && t.margins.bottom == rows - 1
            &&& t.tabs.len() == cols && (t.tabs[c] <==> c % 8 == 0 && c > 0)
            &&& t.line_modes.len() == rows && t.line_modes[r] == if r < g.screen.rows {
                g.line_modes[r]
            } else {
                0
            }
            &&& t.alt_row < rows && t.alt_col < cols
            &&& g.alt_row < rows ==> t.alt_row == g.alt_row
            &&& g.alt_col < cols ==> t.alt_col == g.alt_col
        }),
{
    reveal(GridState::resized);
    reveal(ScreenState::filled);
    reveal(ScreenState::dirtied);
    assert(0 * cols == 0) by (nonlinear_arith);
}

/// DECSTR keeps the scrollback, with its markers.
pub proof fn soft_reset_keeps_history(s: GridState)
    ensures
        s.soft_reset().screen.scrollback == s.screen.scrollback,
        s.soft_reset().screen.history_markers == s.screen.history_markers,
{
    reveal(GridState::soft_reset);
    reveal(ScreenState::map_lines);
    reveal(ScreenState::dirtied);
}

} // verus!
