//! Printing characters.
use vstd::prelude::*;

use super::cell::{self, line_view, Cell, CellState};
use super::erase::{at_least, at_most};
use super::screen::{put_line_wf, Screen};
use super::state::{max, min, monus, Charsets, GridState, ScreenState};
use super::Grid;

verus! {

// ---------------------------------------------------------------------------
// Trusted items: character width
// ---------------------------------------------------------------------------

/// The columns that the `unicode-width` crate gives a character: `None` for a
/// control character.
pub uninterp spec fn unicode_columns(c: char) -> Option<usize>;

/// `UnicodeWidthChar::width`: a table lookup. No character is wider than three
/// columns, and printable ASCII takes one.
#[verifier::external_body]
pub(crate) fn columns(c: char) -> (r: Option<usize>)
    ensures
        r == unicode_columns(c),
        r matches Some(n) ==> n <= 3,
        ' ' <= c <= '~' ==> r == Some(1usize),
{
    unicode_width::UnicodeWidthChar::width(c)
}

/// The columns that a printed character takes: one for printable ASCII, and
/// for what has no width of its own.
pub open spec fn char_width(c: char) -> int {
    if ' ' <= c <= '~' {
        1
    } else {
        match unicode_columns(c) {
            Some(n) => n as int,
            None => 1,
        }
    }
}

// ---------------------------------------------------------------------------
// DEC Special Graphics
// ---------------------------------------------------------------------------

/// The line-drawing character at the place of `ch` in the DEC Special Graphics
/// set; `None` where the set does not differ from ASCII.
pub open spec fn dec_special(ch: char) -> Option<char> {
    match ch {
        'A' => Some('\u{2191}'),
        'B' => Some('\u{2193}'),
        'C' => Some('\u{2192}'),
        'D' => Some('\u{2190}'),
        'E' => Some('\u{2588}'),
        'F' => Some('\u{259a}'),
        'G' => Some('\u{2603}'),
        '`' => Some('\u{25c6}'),
        'a' => Some('\u{2592}'),
        'b' => Some('\u{2409}'),
        'c' => Some('\u{240c}'),
        'd' => Some('\u{240d}'),
        'e' => Some('\u{240a}'),
        'f' => Some('\u{b0}'),
        'g' => Some('\u{b1}'),
        'h' => Some('\u{2424}'),
        'i' => Some('\u{240b}'),
        'j' => Some('\u{2518}'),
        'k' => Some('\u{2510}'),
        'l' => Some('\u{250c}'),
        'm' => Some('\u{2514}'),
        'n' => Some('\u{253c}'),
        'o' => Some('\u{23ba}'),
        'p' => Some('\u{23bb}'),
        'q' => Some('\u{2500}'),
        'r' => Some('\u{23bc}'),
        's' => Some('\u{23bd}'),
        't' => Some('\u{251c}'),
        'u' => Some('\u{2524}'),
        'v' => Some('\u{2534}'),
        'w' => Some('\u{252c}'),
        'x' => Some('\u{2502}'),
        'y' => Some('\u{2264}'),
        'z' => Some('\u{2265}'),
        '{' => Some('\u{3c0}'),
        '|' => Some('\u{2260}'),
        '}' => Some('\u{a3}'),
        '~' => Some('\u{b7}'),
        _ => None,
    }
}

/// Map a character through the DEC Special Graphics set.
pub fn map_dec_special(ch: char) -> (r: Option<char>)
    ensures
        r == dec_special(ch),
{
    match ch {
        'A' => Some('\u{2191}'),
        'B' => Some('\u{2193}'),
        'C' => Some('\u{2192}'),
        'D' => Some('\u{2190}'),
        'E' => Some('\u{2588}'),
        'F' => Some('\u{259a}'),
        'G' => Some('\u{2603}'),
        '`' => Some('\u{25c6}'),
        'a' => Some('\u{2592}'),
        'b' => Some('\u{2409}'),
        'c' => Some('\u{240c}'),
        'd' => Some('\u{240d}'),
        'e' => Some('\u{240a}'),
        'f' => Some('\u{b0}'),
        'g' => Some('\u{b1}'),
        'h' => Some('\u{2424}'),
        'i' => Some('\u{240b}'),
        'j' => Some('\u{2518}'),
        'k' => Some('\u{2510}'),
        'l' => Some('\u{250c}'),
        'm' => Some('\u{2514}'),
        'n' => Some('\u{253c}'),
        'o' => Some('\u{23ba}'),
        'p' => Some('\u{23bb}'),
        'q' => Some('\u{2500}'),
        'r' => Some('\u{23bc}'),
        's' => Some('\u{23bd}'),
        't' => Some('\u{251c}'),
        'u' => Some('\u{2524}'),
        'v' => Some('\u{2534}'),
        'w' => Some('\u{252c}'),
        'x' => Some('\u{2502}'),
        'y' => Some('\u{2264}'),
        'z' => Some('\u{2265}'),
        '{' => Some('\u{3c0}'),
        '|' => Some('\u{2260}'),
        '}' => Some('\u{a3}'),
        '~' => Some('\u{b7}'),
        _ => None,
    }
}

impl Charsets {
    /// DEC Special Graphics is in use.
    pub open spec fn special(self) -> bool {
        if self.active == 1 {
            self.g1 == 0x30
        } else {
            self.g0 == 0x30
        }
    }

    /// What `ch` prints as.
    pub open spec fn mapped(self, ch: char) -> char {
        if self.special() {
            match dec_special(ch) {
                Some(c) => c,
                None => ch,
            }
        } else {
            ch
        }
    }

    pub fn is_special(&self) -> (r: bool)
        ensures
            r == self.special(),
    {
        if self.active == 1 {
            self.g1 == 0x30
        } else {
            self.g0 == 0x30
        }
    }
}

// ---------------------------------------------------------------------------
// What printing does
// ---------------------------------------------------------------------------

/// `cell` written at `col`; a character two columns wide blanks the cell to its
/// right as its other half.
pub open spec fn line_written(
    line: Seq<CellState>,
    col: int,
    cell: CellState,
    width: int,
) -> Seq<CellState> {
    let l = line.update(col, cell);
    if width == 2 && col + 1 < line.len() {
        l.update(
            col + 1,
            CellState { ch: ' ', wide_filler: true, combining: l[col + 1].combining, ..cell },
        )
    } else {
        l
    }
}

impl GridState {
    /// The cell that printing `ch` writes.
    pub open spec fn printed_cell(self, ch: char, dirty: bool) -> CellState {
        CellState {
            ch,
            fg: self.pen.fg,
            bg: self.pen.bg,
            attrs: self.pen.attrs,
            dirty,
            wide_filler: false,
            hyperlink_id: self.links.active,
            combining: None,
        }
    }

    /// A zero-width character joins the cell before the cursor: the one to its
    /// left, or the last of the line above. At the top left it is dropped.
    pub open spec fn combined(self, ch: char) -> GridState {
        if self.col > 0 || self.row > 0 {
            let (r, c) = if self.col > 0 {
                (self.row, self.col - 1)
            } else {
                (self.row - 1, self.screen.cols - 1)
            };
            let line = self.screen.active()[r];
            let tail = match line[c].combining {
                Some(t) => t.push(ch),
                None => seq![ch],
            };
            self.with_screen(
                self.screen.put_line(
                    r,
                    line.update(c, CellState { combining: Some(tail), dirty: true, ..line[c] }),
                ),
            )
        } else {
            self
        }
    }

    /// The cursor moved to where a character of `width` columns goes: past the
    /// right margin to the next line, or back to the last columns without
    /// autowrap; past the bottom margin by scrolling.
    pub open spec fn wrapped(self, width: int) -> GridState {
        let left = self.left_margin();
        let right = self.right_margin();
        let (row, col) = if self.col + width > right + 1 {
            if self.modes.autowrap {
                (self.row + 1, left)
            } else {
                (self.row, max(monus(right + 1, width), left))
            }
        } else {
            (self.row, self.col)
        };
        if row > self.margins.bottom {
            self.scrolled_up(self.margins.top, 1).at(self.margins.bottom, col)
        } else {
            self.at(row, col)
        }
    }

    /// A character of `width` columns printed at the cursor.
    pub open spec fn printed(self, ch: char, width: int) -> GridState {
        if width == 0 {
            self.combined(ch)
        } else {
            let s = self.wrapped(width);
            let line = s.screen.active()[s.row];
            let room = if s.modes.insert_mode {
                cell::opened(line, s.col, width)
            } else {
                line
            };
            GridState {
                screen: s.screen.put_line(
                    s.row,
                    line_written(room, s.col, s.printed_cell(ch, true), width),
                ),
                col: min(s.col + width, s.screen.cols),
                last_char: Some(ch),
                ..s
            }
        }
    }

    /// The character `ch` printed through the active character set.
    #[verifier::opaque]
    pub open spec fn char_printed(self, ch: char) -> GridState {
        let c = self.charsets.mapped(ch);
        self.printed(c, char_width(c))
    }

    /// The last character printed `n` more times (REP).
    pub open spec fn repeated(self, ch: char, n: nat) -> GridState
        decreases n,
    {
        if n == 0 {
            self
        } else {
            self.repeated(ch, (n - 1) as nat).char_printed(ch)
        }
    }
}

/// Writing a line twice is writing it once.
pub proof fn put_line_twice(s: ScreenState, r: int, a: Seq<CellState>, b: Seq<CellState>)
    requires
        s.wf(),
        0 <= r < s.rows,
    ensures
        s.put_line(r, a).put_line(r, b) == s.put_line(r, b),
        s.put_line(r, a).active() == s.active().update(r, a),
{
    reveal(ScreenState::put_line);
    let x = s.put_line(r, a).put_line(r, b);
    let y = s.put_line(r, b);
    assert(x.is_blank =~= y.is_blank);
    assert(x.primary =~= y.primary);
    assert(x.alt =~= y.alt);
}

impl Screen {
    /// Write a character of `width` columns at column `c` of row `r`.
    pub fn write_cell(&mut self, r: usize, c: usize, cell: Cell, width: usize)
        requires
            old(self).wf(),
            r < old(self).rows,
            c < old(self).cols,
        ensures
            final(self).wf(),
            final(self)@.same_shape(old(self)@),
            final(self)@ == old(self)@.put_line(
                r as int,
                line_written(old(self)@.active()[r as int], c as int, cell@, width as int),
            ),
    {
        let line = self.row_mut(r);
        let ghost before = line_view(line@);
        let len: usize = line.len();
        let wide = width == 2 && c + 1 < len;
        let ghost cv = cell@;
        if wide {
            let filler = Cell {
                ch: ' ',
                wide_filler: true,
                fg: cell.fg,
                bg: cell.bg,
                attrs: cell.attrs,
                dirty: cell.dirty,
                hyperlink_id: cell.hyperlink_id,
                combining: match &line[c + 1].combining {
                    Some(s) => Some(s.clone()),
                    None => None,
                },
            };
            line[c + 1] = filler;
        }
        line[c] = cell;
        proof {
            assert(line_view(line@) =~= line_written(before, c as int, cv, width as int));
        }
    }

    /// Append the combining character `ch` to the cell at column `c` of row
    /// `r`.
    pub fn combine(&mut self, r: usize, c: usize, ch: char)
        requires
            old(self).wf(),
            r < old(self).rows,
            c < old(self).cols,
        ensures
            final(self).wf(),
            final(self)@.same_shape(old(self)@),
            final(self)@ == old(self)@.put_line(
                r as int,
                old(self)@.active()[r as int].update(
                    c as int,
                    (CellState {
                        combining: Some(
                            match old(self)@.active()[r as int][c as int].combining {
                                Some(t) => t.push(ch),
                                None => seq![ch],
                            },
                        ),
                        dirty: true,
                        ..old(self)@.active()[r as int][c as int]
                    }),
                ),
            ),
    {
        let line = self.row_mut(r);
        let ghost before = line_view(line@);
        let mut cell = line[c].clone();
        let mut tail = match cell.combining {
            Some(s) => s,
            None => String::new(),
        };
        let ghost t0 = tail@;
        tail.push(ch);
        cell.combining = Some(tail);
        cell.dirty = true;
        proof {
            assert(Seq::<char>::empty().push(ch) =~= seq![ch]);
        }
        let ghost cv = cell@;
        line[c] = cell;
        proof {
            assert(line_view(line@) =~= before.update(c as int, cv));
        }
    }
}

impl Grid {
    /// Move the cursor to where a character of `width` columns goes.
    fn wrap(&mut self, width: usize)
        requires
            old(self).wf(),
            1 <= width <= 65535,
        ensures
            final(self).wf(),
            final(self)@ == old(self)@.wrapped(width as int),
            final(self)@.screen.same_shape(old(self)@.screen),
            final(self)@.col < final(self)@.screen.cols,
    {
        let left: usize = self.left_margin();
        let right: usize = self.right_margin();
        let mut row: usize = self.cursor.row;
        let mut col: usize = self.cursor.col;
        if col + width > right + 1 {
            if self.modes.autowrap {
                col = left;
                row = row + 1;
            } else {
                col = at_least((right + 1).saturating_sub(width), left);
            }
        }
        if row > self.margins.bottom {
            self.scroll_up(1);
            row = self.margins.bottom;
        }
        self.cursor = super::Cursor { row, col };
    }

    /// Print a character that takes `width` columns.
    pub fn print_with_width(&mut self, ch: char, width: usize)
        requires
            old(self).wf(),
            width <= 65535,
        ensures
            final(self).wf(),
            final(self)@ == old(self)@.printed(ch, width as int),
            final(self)@.screen.same_shape(old(self)@.screen),
    {
        if width == 0 {
            let row: usize = self.cursor.row;
            let col: usize = self.cursor.col;
            if col > 0 {
                self.screen.combine(row, col - 1, ch);
            } else if row > 0 {
                self.screen.combine(row - 1, self.screen.cols - 1, ch);
            }
            return ;
        }
        self.wrap(width);
        let row: usize = self.cursor.row;
        let col: usize = self.cursor.col;
        let ghost s1 = self@;
        if self.modes.insert_mode {
            self.screen.open_in_row(row, col, width);
            proof {
                let room = cell::opened(
                    s1.screen.active()[s1.row],
                    s1.col,
                    width as int,
                );
                put_line_twice(
                    s1.screen,
                    row as int,
                    room,
                    line_written(room, s1.col, s1.printed_cell(ch, true), width as int),
                );
            }
        }
        let cell = Cell {
            ch,
            fg: self.pen.fg,
            bg: self.pen.bg,
            attrs: self.pen.attrs,
            dirty: true,
            wide_filler: false,
            hyperlink_id: self.links.active_hyperlink_id,
            combining: None,
        };
        self.screen.write_cell(row, col, cell, width);
        self.cursor = super::Cursor { row, col: at_most(col + width, self.screen.cols) };
        self.last_char = Some(ch);
    }

    /// Print a character through the active character set.
    pub fn print(&mut self, ch: char)
        requires
            old(self).wf(),
        ensures
            final(self).wf(),
            final(self)@ == old(self)@.char_printed(ch),
            final(self)@.screen.same_shape(old(self)@.screen),
    {
        proof {
            reveal(GridState::char_printed);
        }
        let c = if self.charsets.is_special() {
            match map_dec_special(ch) {
                Some(c) => c,
                None => ch,
            }
        } else {
            ch
        };
        let width: usize = match columns(c) {
            Some(n) => n,
            None => 1,
        };
        self.print_with_width(c, width);
    }

    /// Print `ch` `n` times.
    pub fn repeat_char(&mut self, ch: char, n: usize)
        requires
            old(self).wf(),
        ensures
            final(self).wf(),
            final(self)@ == old(self)@.repeated(ch, n as nat),
            final(self)@.screen.same_shape(old(self)@.screen),
    {
        let mut i: usize = 0;
        while i < n
            invariant
                i <= n,
                self.wf(),
                self@ == old(self)@.repeated(ch, i as nat),
                self@.screen.same_shape(old(self)@.screen),
            decreases n - i,
        {
            self.print(ch);
            i += 1;
        }
    }
}

} // verus!
