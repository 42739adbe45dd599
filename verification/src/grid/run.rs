//! Batches of ASCII text.
use vstd::prelude::*;

use super::cell::{self, line_view, Cell, CellState};
use super::cursor::{stop_from, stops_forward};
use super::print::{char_width, line_written, put_line_twice};
use super::screen::{put_line_wf, Screen};
use super::state::{min, GridState, ScreenState};
use super::Grid;

verus! {

/// A byte that stands for itself on the screen.
pub open spec fn is_printable(b: u8) -> bool {
    0x20 <= b <= 0x7e
}

/// The end of the run of printable bytes that starts at `i`.
pub open spec fn printable_end(bytes: Seq<u8>, i: int) -> int
    decreases bytes.len() - i,
{
    if 0 <= i < bytes.len() && is_printable(bytes[i]) {
        printable_end(bytes, i + 1)
    } else {
        i
    }
}

/// The end of the run of line feeds that starts at `i`.
pub open spec fn feeds_end(bytes: Seq<u8>, i: int) -> int
    decreases bytes.len() - i,
{
    if 0 <= i < bytes.len() && bytes[i] == 0x0a {
        feeds_end(bytes, i + 1)
    } else {
        i
    }
}

pub proof fn printable_end_bounds(bytes: Seq<u8>, i: int)
    requires
        0 <= i <= bytes.len(),
    ensures
        i <= printable_end(bytes, i) <= bytes.len(),
        forall|k: int| i <= k < printable_end(bytes, i) ==> is_printable(bytes[k]),
    decreases bytes.len() - i,
{
    if i < bytes.len() && is_printable(bytes[i]) {
        printable_end_bounds(bytes, i + 1);
    }
}

pub proof fn feeds_end_bounds(bytes: Seq<u8>, i: int)
    requires
        0 <= i <= bytes.len(),
    ensures
        i <= feeds_end(bytes, i) <= bytes.len(),
    decreases bytes.len() - i,
{
    if i < bytes.len() && bytes[i] == 0x0a {
        feeds_end_bounds(bytes, i + 1);
    }
}

impl GridState {
    /// The batch path applies: ASCII prints as itself, nothing is shifted, and
    /// the margins are the edges of the screen.
    pub open spec fn batchable(self) -> bool {
        &&& !self.charsets.special()
        &&& !self.modes.insert_mode
        &&& self.margins.left == 0
        &&& self.margins.right == self.screen.cols - 1
    }

    /// The cursor moved to where the next ASCII character goes.
    pub open spec fn ascii_wrapped(self) -> GridState {
        let (row, col) = if self.col >= self.screen.cols {
            if self.modes.autowrap {
                (self.row + 1, 0)
            } else {
                (self.row, self.screen.cols - 1)
            }
        } else {
            (self.row, self.col)
        };
        if row > self.margins.bottom {
            self.scrolled_up(self.margins.top, 1).at(self.margins.bottom, col)
        } else {
            self.at(row, col)
        }
    }

    /// One printable ASCII byte printed.
    pub open spec fn ascii_printed(self, b: u8) -> GridState {
        let s = self.ascii_wrapped();
        GridState {
            screen: s.screen.put_line(
                s.row,
                s.screen.active()[s.row].update(
                    s.col,
                    s.printed_cell(b as char, !s.modes.bulk_output),
                ),
            ),
            col: s.col + 1,
            last_char: Some(b as char),
            ..s
        }
    }

    /// Printable ASCII bytes printed one after the other.
    pub open spec fn run_printed(self, bytes: Seq<u8>) -> GridState
        decreases bytes.len(),
    {
        if bytes.len() == 0 {
            self
        } else {
            self.run_printed(bytes.drop_last()).ascii_printed(bytes.last())
        }
    }

    /// `n` line feeds at once: the lines past the bottom margin scroll in one
    /// step, and below the scroll region the cursor moves down.
    pub open spec fn lines_fed(self, n: int) -> GridState {
        let row = self.row + n;
        let s = if self.row > self.margins.bottom {
            self.at(min(row, self.screen.rows - 1), self.col)
        } else if row > self.margins.bottom {
            self.scrolled_up(self.margins.top, row - self.margins.bottom).at(
                self.margins.bottom,
                self.col,
            )
        } else {
            self.at(row, self.col)
        };
        GridState { last_char: None, ..s }
    }

    /// CR, BS and HT within a batch.
    pub open spec fn batch_control(self, b: u8) -> GridState {
        let col = if b == 0x0d {
            0
        } else if b == 0x08 {
            if self.col > 0 {
                self.col - 1
            } else {
                0
            }
        } else {
            stop_from(self.tabs, self.col + 1)
        };
        GridState { col, last_char: None, ..self }
    }

    /// The text of `bytes` from `i` on printed, up to the first byte that is
    /// neither printable nor LF, CR, BS or HT; the state after it, and where
    /// that byte stands.
    pub open spec fn text_run(self, bytes: Seq<u8>, i: int) -> (GridState, int)
        decreases bytes.len() - i,
    {
        if i < 0 || i >= bytes.len() {
            (self, i)
        } else if bytes[i] == 0x0a {
            proof {
                feeds_end_bounds(bytes, i + 1);
            }
            let e = feeds_end(bytes, i + 1);
            self.lines_fed(e - i).text_run(bytes, e)
        } else if bytes[i] == 0x0d || bytes[i] == 0x08 || bytes[i] == 0x09 {
            self.batch_control(bytes[i]).text_run(bytes, i + 1)
        } else if is_printable(bytes[i]) {
            proof {
                printable_end_bounds(bytes, i + 1);
            }
            let e = printable_end(bytes, i + 1);
            self.run_printed(bytes.subrange(i, e)).text_run(bytes, e)
        } else {
            (self, i)
        }
    }

    /// The batch path: nothing where it does not apply.
    #[verifier::opaque]
    pub open spec fn batched(self, bytes: Seq<u8>) -> (GridState, int) {
        if self.batchable() {
            self.text_run(bytes, 0)
        } else {
            (self, 0)
        }
    }
}

// ---------------------------------------------------------------------------
// Laws
// ---------------------------------------------------------------------------

/// A printable ASCII character printed in a batch is the same character
/// printed on its own, wherever the batch path applies and cells are marked
/// as they are written.
pub proof fn ascii_print_agrees(s: GridState, b: u8)
    requires
        s.wf(),
        s.batchable(),
        !s.modes.bulk_output,
        is_printable(b),
    ensures
        s.ascii_printed(b) == s.printed(b as char, 1),
        s.ascii_printed(b) == s.char_printed(b as char),
{
    reveal(GridState::char_printed);
    let a = s.ascii_wrapped();
    let w = s.wrapped(1);
    assert(a == w);
    wrapped_in_range(s);
    assert(line_written(
        w.screen.active()[w.row],
        w.col,
        w.printed_cell(b as char, true),
        1,
    ) == w.screen.active()[w.row].update(w.col, w.printed_cell(b as char, true)));
}

/// CR, BS, HT and a single LF do in a batch what they do on their own, but that
/// REP forgets the character before them.
pub proof fn batch_controls_agree(s: GridState)
    requires
        s.wf(),
    ensures
        s.batch_control(0x0d) == (GridState { last_char: None, ..s.executed(0x0d) }),
        s.batch_control(0x08) == (GridState { last_char: None, ..s.executed(0x08) }),
        s.batch_control(0x09) == (GridState { last_char: None, ..s.executed(0x09) }),
        s.lines_fed(1) == (GridState { last_char: None, ..s.executed(0x0a) }),
{
    reveal(GridState::executed);
    reveal_with_fuel(stops_forward, 2);
    scrolled_cols(s, s.margins.top, 1);
}

/// After wrapping there is room for one more column.
proof fn wrapped_in_range(s: GridState)
    requires
        s.wf(),
        s.batchable(),
    ensures
        s.ascii_wrapped().screen.cols == s.screen.cols,
        0 <= s.ascii_wrapped().col < s.screen.cols,
{
    scrolled_cols(s, s.margins.top, 1);
}

/// Scrolling keeps the size of the screen.
pub proof fn scrolled_cols(s: GridState, top: int, n: int)
    ensures
        s.scrolled_up(top, n).screen.same_shape(s.screen),
        s.scrolled_up(top, n).margins == s.margins,
{
    reveal(ScreenState::archived);
    reveal(ScreenState::lines_up);
    reveal(ScreenState::dirtied);
}

/// A run of text ends within the bytes, after its start where the first byte is
/// text.
pub proof fn text_run_bounds(s: GridState, bytes: Seq<u8>, i: int)
    requires
        0 <= i <= bytes.len(),
    ensures
        i <= s.text_run(bytes, i).1 <= bytes.len(),
        s.text_run(bytes, i).1 == i ==> s.text_run(bytes, i).0 == s,
    decreases bytes.len() - i,
{
    if i < bytes.len() {
        if bytes[i] == 0x0a {
            feeds_end_bounds(bytes, i + 1);
            let e = feeds_end(bytes, i + 1);
            text_run_bounds(s.lines_fed(e - i), bytes, e);
        } else if bytes[i] == 0x0d || bytes[i] == 0x08 || bytes[i] == 0x09 {
            text_run_bounds(s.batch_control(bytes[i]), bytes, i + 1);
        } else if is_printable(bytes[i]) {
            printable_end_bounds(bytes, i + 1);
            let e = printable_end(bytes, i + 1);
            text_run_bounds(s.run_printed(bytes.subrange(i, e)), bytes, e);
        }
    }
}

/// A batch that takes nothing changes nothing.
pub proof fn batched_nothing(s: GridState, bytes: Seq<u8>)
    ensures
        0 <= s.batched(bytes).1 <= bytes.len(),
        s.batched(bytes).1 == 0 ==> s.batched(bytes).0 == s,
{
    reveal(GridState::batched);
    text_run_bounds(s, bytes, 0);
}

// ---------------------------------------------------------------------------
// A chunk of a run on one line
// ---------------------------------------------------------------------------

/// The cells from `col` on replaced by the characters of `bytes` in the style
/// of `template`.
pub open spec fn line_run(
    line: Seq<CellState>,
    col: int,
    bytes: Seq<u8>,
    template: CellState,
) -> Seq<CellState> {
    Seq::new(
        line.len(),
        |i: int|
            if col <= i < col + bytes.len() {
                CellState { ch: bytes[i - col] as char, ..template }
            } else {
                line[i]
            },
    )
}

/// Printing as many characters as fit on the line writes them side by side.
proof fn run_on_line(s: GridState, bytes: Seq<u8>)
    requires
        s.wf(),
        s.row <= s.margins.bottom,
        bytes.len() > 0,
        s.col + bytes.len() <= s.screen.cols,
    ensures
        s.run_printed(bytes) == (GridState {
            screen: s.screen.put_line(
                s.row,
                line_run(
                    s.screen.active()[s.row],
                    s.col,
                    bytes,
                    s.printed_cell(' ', !s.modes.bulk_output),
                ),
            ),
            col: s.col + bytes.len(),
            last_char: Some(bytes.last() as char),
            ..s
        }),
    decreases bytes.len(),
{
    let line = s.screen.active()[s.row];
    let t = s.printed_cell(' ', !s.modes.bulk_output);
    let rest = bytes.drop_last();
    let b = bytes.last();
    let goal = line_run(line, s.col, bytes, t);
    reveal(ScreenState::filled);
    assert(line.len() == s.screen.cols);
    if rest.len() == 0 {
        assert(s.run_printed(rest) == s);
        assert(goal =~= line.update(s.col, s.printed_cell(b as char, !s.modes.bulk_output)));
    } else {
        run_on_line(s, rest);
        let m = s.run_printed(rest);
        let before = line_run(line, s.col, rest, t);
        put_line_wf(s.screen, s.row, before);
        put_line_twice(s.screen, s.row, before, goal);
        assert(m.screen.active()[s.row] == before);
        assert(goal =~= before.update(
            m.col,
            m.printed_cell(b as char, !m.modes.bulk_output),
        ));
    }
}

/// A run printed in two parts.
proof fn run_split(s: GridState, bytes: Seq<u8>, k: int)
    requires
        0 <= k <= bytes.len(),
    ensures
        s.run_printed(bytes) == s.run_printed(bytes.take(k)).run_printed(bytes.skip(k)),
    decreases bytes.len() - k,
{
    if k == bytes.len() {
        assert(bytes.take(k) =~= bytes);
    } else {
        let rest = bytes.drop_last();
        run_split(s, rest, k);
        assert(rest.take(k) =~= bytes.take(k));
        assert(rest.skip(k) =~= bytes.skip(k).drop_last());
    }
}

/// Wrapping first changes nothing about what printing the run gives.
proof fn run_after_wrap(s: GridState, bytes: Seq<u8>)
    requires
        s.wf(),
        s.batchable(),
        bytes.len() > 0,
    ensures
        s.run_printed(bytes) == s.ascii_wrapped().run_printed(bytes),
    decreases bytes.len(),
{
    if bytes.len() == 1 {
        let w = s.ascii_wrapped();
        wrapped_in_range(s);
        scrolled_cols(s, s.margins.top, 1);
        assert(w.ascii_wrapped() == w);
        assert(bytes.drop_last().len() == 0);
        assert(s.run_printed(bytes.drop_last()) == s);
        assert(w.run_printed(bytes.drop_last()) == w);
    } else {
        run_after_wrap(s, bytes.drop_last());
    }
}

fn write_run(line: &mut Vec<Cell>, col: usize, bytes: &[u8], from: usize, n: usize, template: &Cell)
    requires
        from + n <= bytes@.len(),
        from + n <= usize::MAX,
        col + n <= old(line)@.len(),
        col + n <= usize::MAX,
    ensures
        final(line)@.len() == old(line)@.len(),
        line_view(final(line)@) == line_run(
            line_view(old(line)@),
            col as int,
            bytes@.subrange(from as int, from + n),
            template@,
        ),
{
    let ghost before = line_view(line@);
    let mut i: usize = 0;
    while i < n
        invariant
            i <= n,
            from + n <= bytes@.len(),
            from + n <= usize::MAX,
            col + n <= line@.len() == before.len(),
            col + n <= usize::MAX,
            forall|k: int|
                0 <= k < line@.len() ==> (#[trigger] line@[k])@ == if col <= k < col + i {
                    CellState { ch: bytes@[from + k - col] as char, ..template@ }
                } else {
                    before[k]
                },
        decreases n - i,
    {
        let mut cell = template.clone();
        cell.ch = bytes[from + i] as char;
        line[col + i] = cell;
        i += 1;
    }
    proof {
        assert(line_view(line@) =~= line_run(
            before,
            col as int,
            bytes@.subrange(from as int, from + n),
            template@,
        ));
    }
}

impl Screen {
    fn put_run(
        &mut self,
        r: usize,
        col: usize,
        bytes: &[u8],
        from: usize,
        n: usize,
        template: &Cell,
    )
        requires
            old(self).wf(),
            r < old(self).rows,
            from + n <= bytes@.len(),
            from + n <= usize::MAX,
            col + n <= old(self).cols,
        ensures
            final(self).wf(),
            final(self)@.same_shape(old(self)@),
            final(self)@ == old(self)@.put_line(
                r as int,
                line_run(
                    old(self)@.active()[r as int],
                    col as int,
                    bytes@.subrange(from as int, from + n),
                    template@,
                ),
            ),
    {
        let line = self.row_mut(r);
        write_run(line, col, bytes, from, n, template);
    }
}

impl Grid {
    fn ascii_wrap(&mut self)
        requires
            old(self).wf(),
            old(self)@.batchable(),
        ensures
            final(self).wf(),
            final(self)@ == old(self)@.ascii_wrapped(),
            final(self)@.batchable(),
            final(self)@.screen.same_shape(old(self)@.screen),
            final(self)@.col < final(self)@.screen.cols,
            final(self)@.row <= final(self)@.margins.bottom,
    {
        let mut row: usize = self.cursor.row;
        let mut col: usize = self.cursor.col;
        if col >= self.screen.cols {
            if self.modes.autowrap {
                col = 0;
                row = row + 1;
            } else {
                col = self.screen.cols - 1;
            }
        }
        if row > self.margins.bottom {
            self.scroll_up(1);
            row = self.margins.bottom;
        }
        self.cursor = super::Cursor { row, col };
    }

    /// Print as many of `bytes[from..end]` as fit on one line; the count.
    fn print_chunk(&mut self, bytes: &[u8], from: usize, end: usize) -> (n: usize)
        requires
            old(self).wf(),
            old(self)@.batchable(),
            from < end <= bytes@.len(),
        ensures
            final(self).wf(),
            final(self)@.batchable(),
            final(self)@.screen.same_shape(old(self)@.screen),
            1 <= n <= end - from,
            final(self)@ == old(self)@.run_printed(bytes@.subrange(from as int, from + n)),
    {
        self.ascii_wrap();
        let row: usize = self.cursor.row;
        let col: usize = self.cursor.col;
        let space: usize = self.screen.cols - col;
        let n: usize = if end - from < space {
            end - from
        } else {
            space
        };
        let ghost part = bytes@.subrange(from as int, from + n);
        proof {
            run_after_wrap(old(self)@, part);
            run_on_line(self@, part);
        }
        let template = Cell {
            ch: ' ',
            fg: self.pen.fg,
            bg: self.pen.bg,
            attrs: self.pen.attrs,
            dirty: !self.modes.bulk_output,
            wide_filler: false,
            hyperlink_id: self.links.active_hyperlink_id,
            combining: None,
        };
        self.screen.put_run(row, col, bytes, from, n, &template);
        self.cursor = super::Cursor { row, col: col + n };
        self.last_char = Some(bytes[from + n - 1] as char);
        n
    }

    /// Print the printable bytes `bytes[from..end]`.
    fn print_run(&mut self, bytes: &[u8], from: usize, end: usize)
        requires
            old(self).wf(),
            old(self)@.batchable(),
            from <= end <= bytes@.len(),
        ensures
            final(self).wf(),
            final(self)@.batchable(),
            final(self)@.screen.same_shape(old(self)@.screen),
            final(self)@ == old(self)@.run_printed(bytes@.subrange(from as int, end as int)),
    {
        let mut i: usize = from;
        let ghost run = bytes@.subrange(from as int, end as int);
        while i < end
            invariant
                self.wf(),
                self@.batchable(),
                self@.screen.same_shape(old(self)@.screen),
                from <= i <= end <= bytes@.len(),
                run == bytes@.subrange(from as int, end as int),
                self@ == old(self)@.run_printed(bytes@.subrange(from as int, i as int)),
            decreases end - i,
        {
            let ghost before = i;
            let n: usize = self.print_chunk(bytes, i, end);
            i = i + n;
            proof {
                let done = bytes@.subrange(from as int, i as int);
                run_split(old(self)@, done, before - from);
                assert(done.take(before - from) =~= bytes@.subrange(from as int, before as int));
                assert(done.skip(before - from) =~= bytes@.subrange(before as int, i as int));
            }
        }
    }

    fn feed_lines(&mut self, n: usize)
        requires
            old(self).wf(),
            old(self)@.batchable(),
        ensures
            final(self).wf(),
            final(self)@.batchable(),
            final(self)@.screen.same_shape(old(self)@.screen),
            final(self)@ == old(self)@.lines_fed(n as int),
    {
        let row: usize = self.cursor.row;
        let bottom: usize = self.margins.bottom;
        if row > bottom {
            let last: usize = self.screen.rows - 1;
            let below: usize = if n < last - row {
                row + n
            } else {
                last
            };
            self.cursor = super::Cursor { row: below, col: self.cursor.col };
        } else if n > bottom - row {
            self.scroll_up(n - (bottom - row));
            self.cursor = super::Cursor { row: bottom, col: self.cursor.col };
        } else {
            self.cursor = super::Cursor { row: row + n, col: self.cursor.col };
        }
        self.last_char = None;
    }

    /// Print a batch of ASCII text; the number of bytes taken. Stops at the
    /// first byte that is neither printable nor LF, CR, BS or HT.
    pub fn print_ascii_run(&mut self, bytes: &[u8]) -> (n: usize)
        requires
            old(self).wf(),
        ensures
            final(self).wf(),
            n <= bytes@.len(),
            (final(self)@, n as int) == old(self)@.batched(bytes@),
            final(self)@.screen.same_shape(old(self)@.screen),
    {
        proof {
            reveal(GridState::batched);
        }
        if self.charsets.is_special() || self.modes.insert_mode || self.margins.left != 0
            || self.margins.right != self.screen.cols - 1 {
            return 0;
        }
        let mut i: usize = 0;
        while i < bytes.len()
            invariant
                self.wf(),
                self@.batchable(),
                self@.screen.same_shape(old(self)@.screen),
                old(self)@.batchable(),
                i <= bytes@.len(),
                self@.text_run(bytes@, i as int) == old(self)@.text_run(bytes@, 0),
            decreases bytes@.len() - i,
        {
            let b: u8 = bytes[i];
            if b == 0x0a {
                let mut e: usize = i + 1;
                while e < bytes.len() && bytes[e] == 0x0a
                    invariant
                        i < e <= bytes@.len(),
                        feeds_end(bytes@, i + 1) == feeds_end(bytes@, e as int),
                    decreases bytes@.len() - e,
                {
                    e += 1;
                }
                self.feed_lines(e - i);
                i = e;
            } else if b == 0x0d {
                self.cursor = super::Cursor { row: self.cursor.row, col: 0 };
                self.last_char = None;
                i += 1;
            } else if b == 0x08 {
                let col: usize = self.cursor.col;
                self.cursor = super::Cursor {
                    row: self.cursor.row,
                    col: if col > 0 {
                        col - 1
                    } else {
                        0
                    },
                };
                self.last_char = None;
                i += 1;
            } else if b == 0x09 {
                proof {
                    reveal_with_fuel(stops_forward, 2);
                }
                self.tab_forward(1);
                self.last_char = None;
                i += 1;
            } else if 0x20 <= b && b <= 0x7e {
                let mut e: usize = i + 1;
                while e < bytes.len() && 0x20 <= bytes[e] && bytes[e] <= 0x7e
                    invariant
                        i < e <= bytes@.len(),
                        printable_end(bytes@, i + 1) == printable_end(bytes@, e as int),
                    decreases bytes@.len() - e,
                {
                    e += 1;
                }
                self.print_run(bytes, i, e);
                i = e;
            } else {
                proof {
                    reveal(GridState::batched);
                }
                return i;
            }
        }
        i
    }
}

} // verus!
