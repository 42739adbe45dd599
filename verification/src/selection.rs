//! Selecting text with the mouse.
use vstd::prelude::*;

use crate::grid::state::{max, min};
use crate::grid::view::strings;
use crate::text::chars_of;

verus! {

// ---------------------------------------------------------------------------
// Trusted items: std characters
// ---------------------------------------------------------------------------

/// The characters that are letters or numbers.
pub uninterp spec fn word_char(c: char) -> bool;

/// An ASCII letter or digit.
pub open spec fn ascii_word_char(c: char) -> bool {
    'a' <= c <= 'z' || 'A' <= c <= 'Z' || '0' <= c <= '9'
}

/// `char::is_alphanumeric`: a letter or number according to Unicode; of the
/// ASCII characters, the letters and digits.
#[verifier::external_body]
fn is_word_char(c: char) -> (r: bool)
    ensures
        r == word_char(c),
        c as u32 <= 0x7f ==> r == ascii_word_char(c),
{
    c.is_alphanumeric()
}

// ---------------------------------------------------------------------------
// Selections
// ---------------------------------------------------------------------------

/// What a selection is made of.
#[derive(Debug, Clone, Copy, PartialEq, Eq, Structural)]
pub enum SelectionMode {
    Char,
    Word,
    Line,
    /// A block of columns.
    Rectangular,
}

/// A selected part of the screen.
#[derive(Debug)]
pub struct Selection {
    /// Row and column where it began.
    pub start: (usize, usize),
    /// Row and column where it ends.
    pub end: (usize, usize),
    pub mode: SelectionMode,
    pub active: bool,
    /// The mouse button is held.
    pub selecting: bool,
}

impl Clone for Selection {
    fn clone(&self) -> (r: Self)
        ensures
            r == *self,
    {
        Selection {
            start: self.start,
            end: self.end,
            mode: self.mode,
            active: self.active,
            selecting: self.selecting,
        }
    }
}

/// Position `a` comes after position `b`.
pub open spec fn after(a: (usize, usize), b: (usize, usize)) -> bool {
    a.0 > b.0 || (a.0 == b.0 && a.1 > b.1)
}

/// The two positions in order.
pub open spec fn ordered(a: (usize, usize), b: (usize, usize)) -> (
    (usize, usize),
    (usize, usize),
) {
    if after(a, b) {
        (b, a)
    } else {
        (a, b)
    }
}

/// The column where the selection begins in a row; whole lines begin at the
/// first.
pub open spec fn row_from(
    s: (usize, usize),
    e: (usize, usize),
    mode: SelectionMode,
    row: int,
) -> int {
    if mode == SelectionMode::Rectangular {
        min(s.1 as int, e.1 as int)
    } else if mode != SelectionMode::Line && row == s.0 {
        s.1 as int
    } else {
        0
    }
}

/// The column up to which, included, the selection reaches in a row; whole
/// lines reach to the last.
pub open spec fn row_to(
    s: (usize, usize),
    e: (usize, usize),
    mode: SelectionMode,
    cols: int,
    row: int,
) -> int {
    if mode == SelectionMode::Rectangular {
        max(s.1 as int, e.1 as int)
    } else if mode != SelectionMode::Line && row == e.0 {
        e.1 as int
    } else {
        cols - 1
    }
}

/// The selected characters of a row.
pub open spec fn row_piece(
    line: Seq<char>,
    s: (usize, usize),
    e: (usize, usize),
    mode: SelectionMode,
    cols: int,
    row: int,
) -> Seq<char> {
    line.subrange(
        min(row_from(s, e, mode, row), line.len() as int),
        min(row_to(s, e, mode, cols, row) + 1, line.len() as int),
    )
}

/// The selected text from `row` on: rows are separated by newlines, and the
/// text ends with the lines.
pub open spec fn selected_text(
    lines: Seq<Seq<char>>,
    s: (usize, usize),
    e: (usize, usize),
    mode: SelectionMode,
    cols: int,
    row: int,
) -> Seq<char>
    decreases e.0 - row,
{
    if row < 0 || row > e.0 || row >= lines.len() {
        Seq::empty()
    } else {
        let piece = row_piece(lines[row], s, e, mode, cols, row);
        if row < e.0 {
            piece.push('\n') + selected_text(lines, s, e, mode, cols, row + 1)
        } else {
            piece
        }
    }
}

/// The first column of the word that holds column `col`; `col` itself where it
/// holds no word.
pub open spec fn word_start(line: Seq<char>, col: int) -> int
    decreases col,
{
    if 0 < col < line.len() && word_char(line[col]) && word_char(line[col - 1]) {
        word_start(line, col - 1)
    } else {
        col
    }
}

/// The last column of the word that holds column `col`; `col` itself where it
/// holds no word.
pub open spec fn word_end(line: Seq<char>, col: int) -> int
    decreases line.len() - col,
{
    if 0 <= col < line.len() - 1 && word_char(line[col]) && word_char(line[col + 1]) {
        word_end(line, col + 1)
    } else {
        col
    }
}

proof fn word_start_bounds(line: Seq<char>, col: int)
    requires
        0 <= col,
    ensures
        0 <= word_start(line, col) <= col,
    decreases col,
{
    if 0 < col < line.len() && word_char(line[col]) && word_char(line[col - 1]) {
        word_start_bounds(line, col - 1);
    }
}

proof fn word_end_bounds(line: Seq<char>, col: int)
    requires
        0 <= col,
    ensures
        col <= word_end(line, col),
    decreases line.len() - col,
{
    if col < line.len() - 1 && word_char(line[col]) && word_char(line[col + 1]) {
        word_end_bounds(line, col + 1);
    }
}

/// The column of a corner of the selection moved out to the edge of the word on
/// it, to the left or to the right; the same column in a row that has no line.
pub open spec fn widened(
    lines: Seq<Seq<char>>,
    at: (usize, usize),
    left: bool,
) -> (usize, usize) {
    if at.0 >= lines.len() {
        at
    } else if left {
        (at.0, word_start(lines[at.0 as int], at.1 as int) as usize)
    } else {
        (at.0, word_end(lines[at.0 as int], at.1 as int) as usize)
    }
}

/// Find the first column of a word.
fn find_word_start(chars: &Vec<char>, from: usize) -> (r: usize)
    ensures
        r == word_start(chars@, from as int),
{
    let mut col: usize = from;
    while 0 < col && col < chars.len() && is_word_char(chars[col]) && is_word_char(chars[col - 1])
        invariant
            word_start(chars@, from as int) == word_start(chars@, col as int),
        decreases col,
    {
        col -= 1;
    }
    col
}

/// Find the last column of a word.
fn find_word_end(chars: &Vec<char>, from: usize) -> (r: usize)
    ensures
        r == word_end(chars@, from as int),
{
    let mut col: usize = from;
    while col < chars.len() && col + 1 < chars.len() && is_word_char(chars[col]) && is_word_char(
        chars[col + 1],
    )
        invariant
            word_end(chars@, from as int) == word_end(chars@, col as int),
        decreases chars@.len() - col,
    {
        col += 1;
    }
    col
}

fn widen(lines: &Vec<String>, at: (usize, usize), left: bool) -> (r: (usize, usize))
    ensures
        r == widened(strings(lines@), at, left),
        r.0 == at.0,
        left ==> r.1 <= at.1,
        !left ==> at.1 <= r.1,
{
    if at.0 >= lines.len() {
        return at;
    }
    proof {
        assert(strings(lines@)[at.0 as int] == lines@[at.0 as int]@);
        word_start_bounds(strings(lines@)[at.0 as int], at.1 as int);
        word_end_bounds(strings(lines@)[at.0 as int], at.1 as int);
    }
    let chars = chars_of(lines[at.0].as_str());
    if left {
        (at.0, find_word_start(&chars, at.1))
    } else {
        (at.0, find_word_end(&chars, at.1))
    }
}

impl Selection {
    /// Start and end in order.
    pub open spec fn span(&self) -> ((usize, usize), (usize, usize)) {
        ordered(self.start, self.end)
    }

    /// The cell is selected.
    pub open spec fn selects(&self, row: int, col: int) -> bool {
        let (s, e) = self.span();
        self.active && s.0 <= row <= e.0 && match self.mode {
            SelectionMode::Line => true,
            SelectionMode::Rectangular => min(s.1 as int, e.1 as int) <= col <= max(
                s.1 as int,
                e.1 as int,
            ),
            _ => (row == s.0 ==> col >= s.1) && (row == e.0 ==> col <= e.1),
        }
    }

    /// The rows of the selection that hold text can be cut at its columns.
    pub open spec fn extractable(&self, lines: Seq<Seq<char>>, cols: int) -> bool {
        let (s, e) = self.span();
        self.active ==> if self.mode == SelectionMode::Rectangular {
            s.0 < lines.len() ==> s.1 < usize::MAX && e.1 < usize::MAX
        } else if self.mode == SelectionMode::Line {
            true
        } else {
            &&& e.0 < lines.len() ==> e.1 < usize::MAX
            &&& s.0 < e.0 && s.0 < lines.len() ==> cols >= 1 && min(
                s.1 as int,
                lines[s.0 as int].len() as int,
            ) <= min(cols, lines[s.0 as int].len() as int)
        }
    }

    /// No selection.
    pub fn new() -> (r: Self)
        ensures
            r == (Selection {
                start: (0, 0),
                end: (0, 0),
                mode: SelectionMode::Char,
                active: false,
                selecting: false,
            }),
    {
        Self {
            start: (0, 0),
            end: (0, 0),
            mode: SelectionMode::Char,
            active: false,
            selecting: false,
        }
    }

    /// Begin a selection.
    pub fn start_selection(&mut self, row: usize, col: usize, mode: SelectionMode)
        ensures
            *final(self) == (Selection {
                start: (row, col),
                end: (row, col),
                mode,
                active: true,
                selecting: true,
            }),
    {
        self.start = (row, col);
        self.end = (row, col);
        self.mode = mode;
        self.active = true;
        self.selecting = true;
    }

    /// Move the end of the selection while the button is held.
    pub fn update(&mut self, row: usize, col: usize)
        ensures
            *final(self) == if old(self).selecting {
                Selection { end: (row, col), ..*old(self) }
            } else {
                *old(self)
            },
    {
        if self.selecting {
            self.end = (row, col);
        }
    }

    /// The button is released: start and end are put in order.
    pub fn end_selection(&mut self)
        ensures
            *final(self) == (Selection {
                start: old(self).span().0,
                end: old(self).span().1,
                selecting: false,
                ..*old(self)
            }),
            final(self).span() == old(self).span(),
    {
        self.selecting = false;
        self.normalize();
    }

    /// Drop the selection.
    pub fn cancel(&mut self)
        ensures
            *final(self) == (Selection { active: false, selecting: false, ..*old(self) }),
    {
        self.active = false;
        self.selecting = false;
    }

    fn normalize(&mut self)
        ensures
            *final(self) == (Selection {
                start: old(self).span().0,
                end: old(self).span().1,
                ..*old(self)
            }),
    {
        let (s, e) = self.normalized();
        self.start = s;
        self.end = e;
    }

    /// Start and end in order.
    pub fn normalized(&self) -> (r: ((usize, usize), (usize, usize)))
        ensures
            r == self.span(),
            !after(r.0, r.1),
    {
        let s = self.start;
        let e = self.end;
        if s.0 > e.0 || (s.0 == e.0 && s.1 > e.1) {
            (e, s)
        } else {
            (s, e)
        }
    }

    /// True when the cell is selected.
    pub fn contains(&self, row: usize, col: usize) -> (r: bool)
        ensures
            r == self.selects(row as int, col as int),
    {
        if !self.active {
            return false;
        }
        let (start, end) = self.normalized();
        if row < start.0 || row > end.0 {
            return false;
        }
        match self.mode {
            SelectionMode::Line => true,
            SelectionMode::Rectangular => if start.1 <= end.1 {
                start.1 <= col && col <= end.1
            } else {
                end.1 <= col && col <= start.1
            },
            _ => !(row == start.0 && col < start.1) && !(row == end.0 && col > end.1),
        }
    }

    /// The selected text of `lines`.
    pub fn extract_text(&self, lines: &Vec<String>, cols: usize) -> (r: String)
        requires
            self.extractable(strings(lines@), cols as int),
        ensures
            r@ == if self.active {
                selected_text(
                    strings(lines@),
                    self.span().0,
                    self.span().1,
                    self.mode,
                    cols as int,
                    self.span().0.0 as int,
                )
            } else {
                Seq::empty()
            },
    {
        let mut result = String::new();
        proof {
            assert(result@ =~= Seq::empty());
        }
        if !self.active {
            return result;
        }
        let (start, end) = self.normalized();
        let ghost texts = strings(lines@);
        let ghost goal = selected_text(texts, start, end, self.mode, cols as int, start.0 as int);
        let mut row: usize = start.0;
        proof {
            assert(result@ + goal =~= goal);
        }
        while row < lines.len()
            invariant
                start.0 <= row <= end.0,
                (start, end) == self.span(),
                !after(start, end),
                self.active,
                texts == strings(lines@),
                self.extractable(texts, cols as int),
                goal == selected_text(texts, start, end, self.mode, cols as int, start.0 as int),
                result@ + selected_text(texts, start, end, self.mode, cols as int, row as int) == goal,
            decreases lines@.len() - row,
        {
            let chars = chars_of(lines[row].as_str());
            let ghost line = texts[row as int];
            proof {
                assert(line == lines@[row as int]@);
            }
            let block = self.mode == SelectionMode::Rectangular;
            let whole = self.mode == SelectionMode::Line;
            let from: usize = if block {
                if start.1 <= end.1 {
                    start.1
                } else {
                    end.1
                }
            } else if !whole && row == start.0 {
                start.1
            } else {
                0
            };
            let to: usize = if block {
                if start.1 <= end.1 {
                    end.1 + 1
                } else {
                    start.1 + 1
                }
            } else if !whole && row == end.0 {
                end.1 + 1
            } else {
                cols
            };
            let a: usize = if from < chars.len() {
                from
            } else {
                chars.len()
            };
            let b: usize = if to < chars.len() {
                to
            } else {
                chars.len()
            };
            let ghost before = result@;
            proof {
                assert(row_piece(line, start, end, self.mode, cols as int, row as int) == line.subrange(
                    a as int,
                    b as int,
                ));
            }
            push_chars(&mut result, &chars, a, b);
            if row >= end.0 {
                return result;
            }
            result.push('\n');
            proof {
                let piece = line.subrange(a as int, b as int);
                let rest = selected_text(texts, start, end, self.mode, cols as int, row + 1);
                assert(before + (piece.push('\n') + rest) =~= result@ + rest);
            }
            row += 1;
        }
        proof {
            assert(selected_text(texts, start, end, self.mode, cols as int, row as int) =~= Seq::empty());
            assert(result@ + Seq::<char>::empty() =~= result@);
        }
        result
    }

    /// True when the text of the selection can be cut out of `lines`.
    pub fn can_extract(&self, lines: &Vec<String>, cols: usize) -> (r: bool)
        ensures
            r == self.extractable(strings(lines@), cols as int),
    {
        if !self.active {
            return true;
        }
        let (s, e) = self.normalized();
        if self.mode == SelectionMode::Line {
            return true;
        }
        if self.mode == SelectionMode::Rectangular {
            return s.0 >= lines.len() || (s.1 < usize::MAX && e.1 < usize::MAX);
        }
        if e.0 < lines.len() && e.1 == usize::MAX {
            return false;
        }
        if s.0 < e.0 && s.0 < lines.len() {
            let n: usize = lines[s.0].as_str().unicode_len();
            let from: usize = if s.1 < n {
                s.1
            } else {
                n
            };
            let to: usize = if cols < n {
                cols
            } else {
                n
            };
            proof {
                assert(strings(lines@)[s.0 as int] == lines@[s.0 as int]@);
            }
            return cols >= 1 && from <= to;
        }
        true
    }

    /// Widen the selection to whole words at both ends; a block moves its left
    /// and right edges. Nothing that was selected is lost.
    pub fn expand_to_word(&mut self, lines: &Vec<String>)
        requires
            old(self).active && old(self).span().0.0 < lines@.len() && old(self).span().0.1 > 0
                ==> old(self).span().0.1 < strings(lines@)[old(self).span().0.0 as int].len(),
        ensures
            *final(self) == {
                let (s, e) = old(self).span();
                let texts = strings(lines@);
                let mirrored = old(self).mode == SelectionMode::Rectangular && e.1 < s.1;
                if old(self).active && s.0 < texts.len() {
                    Selection {
                        start: widened(texts, s, !mirrored),
                        end: widened(texts, e, mirrored),
                        ..*old(self)
                    }
                } else {
                    *old(self)
                }
            },
            forall|r: int, c: int| old(self).selects(r, c) ==> #[trigger] final(self).selects(r, c),
    {
        let (start, end) = self.normalized();
        if !self.active || start.0 >= lines.len() {
            return;
        }
        let mirrored = self.mode == SelectionMode::Rectangular && end.1 < start.1;
        self.start = widen(lines, start, !mirrored);
        self.end = widen(lines, end, mirrored);
        proof {
            assert(self.span() == (self.start, self.end));
        }
    }
}

/// Append the characters `a..b`.
fn push_chars(out: &mut String, chars: &Vec<char>, a: usize, b: usize)
    requires
        a <= b <= chars@.len(),
    ensures
        final(out)@ == old(out)@ + chars@.subrange(a as int, b as int),
{
    let ghost before = out@;
    let mut i: usize = a;
    proof {
        assert(before + chars@.subrange(a as int, a as int) =~= before);
    }
    while i < b
        invariant
            a <= i <= b <= chars@.len(),
            out@ == before + chars@.subrange(a as int, i as int),
        decreases b - i,
    {
        out.push(chars[i]);
        i += 1;
        proof {
            assert(before + chars@.subrange(a as int, i as int) =~= (before + chars@.subrange(
                a as int,
                i - 1,
            )).push(chars@[i - 1]));
        }
    }
}

impl Default for Selection {
    fn default() -> (r: Self)
        ensures
            !r.active && !r.selecting,
            r.start == (0usize, 0usize) && r.end == (0usize, 0usize),
            r.mode == SelectionMode::Char,
    {
        Self::new()
    }
}

/// A selection's text and its cells do not depend on the direction in which
/// it was drawn.
pub proof fn direction_is_irrelevant(a: Selection, b: Selection, row: int, col: int)
    requires
        a.start == b.end,
        a.end == b.start,
        a.mode == b.mode,
        a.active == b.active,
    ensures
        a.span() == b.span(),
        a.selects(row, col) == b.selects(row, col),
{
}

/// Position `a` comes before position `b` in reading order, or is it.
pub open spec fn reads_before(a: (int, int), b: (int, int)) -> bool {
    a.0 < b.0 || (a.0 == b.0 && a.1 <= b.1)
}

/// Both ends of the drag are selected and what lies between them in reading
/// order; in a line selection the rows between, in a block the rows and columns
/// between. It does not matter which end comes first.
pub proof fn selected_lies_between(sel: Selection, row: int, col: int)
    ensures
        ({
            let a = (sel.start.0 as int, sel.start.1 as int);
            let b = (sel.end.0 as int, sel.end.1 as int);
            let p = (row, col);
            let rows = a.0 <= row <= b.0 || b.0 <= row <= a.0;
            let cols = a.1 <= col <= b.1 || b.1 <= col <= a.1;
            let read = (reads_before(a, p) && reads_before(p, b)) || (reads_before(b, p)
                && reads_before(p, a));
            sel.selects(row, col) == (sel.active && match sel.mode {
                SelectionMode::Line => rows,
                SelectionMode::Rectangular => rows && cols,
                _ => read,
            })
        }),
{
}

/// The characters of the first `n` columns of a row that are selected, in order.
pub open spec fn highlighted(sel: Selection, line: Seq<char>, row: int, n: int) -> Seq<char>
    decreases n,
{
    if n <= 0 {
        Seq::empty()
    } else if sel.selects(row, n - 1) {
        highlighted(sel, line, row, n - 1).push(line[n - 1])
    } else {
        highlighted(sel, line, row, n - 1)
    }
}

/// The highlighted characters of the rows `row..=last`, with a newline between
/// rows; a row beyond the lines ends it.
pub open spec fn highlighted_rows(
    sel: Selection,
    lines: Seq<Seq<char>>,
    cols: int,
    row: int,
    last: int,
) -> Seq<char>
    decreases last - row,
{
    if row < 0 || row > last || row >= lines.len() {
        Seq::empty()
    } else {
        let n = if lines[row].len() < cols {
            lines[row].len() as int
        } else {
            cols
        };
        let here = highlighted(sel, lines[row], row, n);
        if row < last {
            here + seq!['\n'] + highlighted_rows(sel, lines, cols, row + 1, last)
        } else {
            here
        }
    }
}

proof fn highlighted_is_a_part(sel: Selection, line: Seq<char>, row: int, n: int, a: int, b: int)
    requires
        0 <= n <= line.len(),
        0 <= a,
        forall|c: int| 0 <= c < n ==> (sel.selects(row, c) <==> a <= c < b),
    ensures
        highlighted(sel, line, row, n) == line.subrange(
            min(a, n),
            max(min(a, n), min(b, n)),
        ),
    decreases n,
{
    let h = highlighted(sel, line, row, n);
    let (x, y) = (min(a, n), max(min(a, n), min(b, n)));
    if n > 0 {
        highlighted_is_a_part(sel, line, row, n - 1, a, b);
        assert(sel.selects(row, n - 1) <==> a <= n - 1 < b);
    }
    assert(h =~= line.subrange(x, y));
}

proof fn copied_from(sel: Selection, lines: Seq<Seq<char>>, cols: int, row: int)
    requires
        sel.active,
        sel.span().0.1 < cols && sel.span().1.1 < cols,
        sel.span().0.0 <= row <= sel.span().1.0,
    ensures
        selected_text(lines, sel.span().0, sel.span().1, sel.mode, cols, row) == highlighted_rows(
            sel,
            lines,
            cols,
            row,
            sel.span().1.0 as int,
        ),
    decreases sel.span().1.0 - row,
{
    let (s, e) = sel.span();
    if row < lines.len() {
        let line = lines[row];
        let n = if line.len() < cols {
            line.len() as int
        } else {
            cols
        };
        let from = row_from(s, e, sel.mode, row);
        let to = row_to(s, e, sel.mode, cols, row);
        highlighted_is_a_part(sel, line, row, n, from, to + 1);
        let piece = row_piece(line, s, e, sel.mode, cols, row);
        assert(piece =~= highlighted(sel, line, row, n));
        if row < e.0 {
            copied_from(sel, lines, cols, row + 1);
            let rest = selected_text(lines, s, e, sel.mode, cols, row + 1);
            assert(piece.push('\n') + rest =~= piece + seq!['\n'] + rest);
        }
    }
}

/// What is copied is what is highlighted: of each row exactly the characters of
/// the selected columns, in order, with newlines between the rows.
pub proof fn copied_is_highlighted(sel: Selection, lines: Seq<Seq<char>>, cols: int)
    requires
        sel.active,
        sel.start.1 < cols,
        sel.end.1 < cols,
    ensures
        selected_text(
            lines,
            sel.span().0,
            sel.span().1,
            sel.mode,
            cols,
            sel.span().0.0 as int,
        ) == highlighted_rows(
            sel,
            lines,
            cols,
            if sel.start.0 <= sel.end.0 {
                sel.start.0 as int
            } else {
                sel.end.0 as int
            },
            if sel.start.0 <= sel.end.0 {
                sel.end.0 as int
            } else {
                sel.start.0 as int
            },
        ),
{
    copied_from(sel, lines, cols, sel.span().0.0 as int);
}

/// The word on a column reaches as far as its characters do, to both sides: all
/// between are of the word, and what follows is not.
pub proof fn words_are_whole(line: Seq<char>, col: int, k: int)
    requires
        0 <= col < line.len(),
        word_char(line[col]),
    ensures
        0 <= word_start(line, col) <= col <= word_end(line, col) < line.len(),
        word_start(line, col) <= k <= word_end(line, col) ==> word_char(line[k]),
        word_start(line, col) > 0 ==> !word_char(line[word_start(line, col) - 1]),
        word_end(line, col) + 1 < line.len() ==> !word_char(line[word_end(line, col) + 1]),
{
    word_before(line, col, k);
    word_after(line, col, k);
}

proof fn word_before(line: Seq<char>, col: int, k: int)
    requires
        0 <= col < line.len(),
        word_char(line[col]),
    ensures
        0 <= word_start(line, col) <= col,
        word_start(line, col) <= k <= col ==> word_char(line[k]),
        word_start(line, col) > 0 ==> !word_char(line[word_start(line, col) - 1]),
    decreases col,
{
    if 0 < col && word_char(line[col - 1]) {
        word_before(line, col - 1, k);
    }
}

proof fn word_after(line: Seq<char>, col: int, k: int)
    requires
        0 <= col < line.len(),
        word_char(line[col]),
    ensures
        col <= word_end(line, col) < line.len(),
        col <= k <= word_end(line, col) ==> word_char(line[k]),
        word_end(line, col) + 1 < line.len() ==> !word_char(line[word_end(line, col) + 1]),
    decreases line.len() - col,
{
    if col + 1 < line.len() && word_char(line[col + 1]) {
        word_after(line, col + 1, k);
    }
}

/// A column that holds no word stays as it is.
pub proof fn no_word_stays(line: Seq<char>, col: int)
    requires
        0 <= col,
        col < line.len() ==> !word_char(line[col]),
    ensures
        word_start(line, col) == col,
        word_end(line, col) == col,
{
}

} // verus!
