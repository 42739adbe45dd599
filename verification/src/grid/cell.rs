//! Cells, and the edits that a line of cells undergoes.
use std::sync::Arc;
use vstd::prelude::*;

use super::attrs::{Attrs, Color};

verus! {

// ---------------------------------------------------------------------------
// Small types
// ---------------------------------------------------------------------------

/// Terminal dimensions in character cells.
#[derive(Debug, Clone, Copy, PartialEq, Eq, Structural)]
pub struct WinSize {
    pub cols: u16,
    pub rows: u16,
}

/// A position on the screen.
#[derive(Debug, Clone, Copy, PartialEq, Eq, Structural)]
pub struct Cursor {
    pub col: usize,
    pub row: usize,
}

impl Default for Cursor {
    fn default() -> (r: Self)
        ensures
            r == (Cursor { col: 0, row: 0 }),
    {
        Cursor { col: 0, row: 0 }
    }
}

/// Mouse tracking mode, set by DECSET private modes.
#[derive(Debug, Clone, Copy, PartialEq, Eq, Structural)]
pub enum MouseMode {
    /// No mouse tracking.
    Off,
    /// Press and release only (DECSET 1000).
    Normal,
    /// Press, release and motion while held (DECSET 1002).
    ButtonEvent,
    /// All motion and all buttons (DECSET 1003).
    AnyEvent,
}

impl Default for MouseMode {
    fn default() -> (r: Self)
        ensures
            r == MouseMode::Off,
    {
        MouseMode::Off
    }
}

/// Mouse event encoding.
#[derive(Debug, Clone, Copy, PartialEq, Eq, Structural)]
pub enum MouseEncoding {
    /// Legacy encoding; coordinates are capped at 223.
    X10,
    /// Decimal coordinates (DECSET 1006).
    SGR,
    /// `CSI Cb ; Cx ; Cy M` with decimal coordinates (DECSET 1015).
    Urxvt,
}

impl Default for MouseEncoding {
    fn default() -> (r: Self)
        ensures
            r == MouseEncoding::X10,
    {
        MouseEncoding::X10
    }
}

// ---------------------------------------------------------------------------
// Cell
// ---------------------------------------------------------------------------

/// One cell of the grid.
#[derive(Debug)]
pub struct Cell {
    /// The character occupying this cell.
    pub ch: char,
    pub fg: Color,
    pub bg: Color,
    pub attrs: Attrs,
    /// The cell needs to be drawn again.
    pub dirty: bool,
    /// The cell is the right half of a wide character.
    pub wide_filler: bool,
    /// Hyperlink the cell belongs to, 0 for none.
    pub hyperlink_id: u32,
    /// Combining characters attached to `ch`.
    pub combining: Option<String>,
}

/// What a cell holds.
#[verifier::ext_equal]
pub struct CellState {
    pub ch: char,
    pub fg: Color,
    pub bg: Color,
    pub attrs: Attrs,
    pub dirty: bool,
    pub wide_filler: bool,
    pub hyperlink_id: u32,
    pub combining: Option<Seq<char>>,
}

/// The view of an optional string.
pub open spec fn text_view(s: Option<String>) -> Option<Seq<char>> {
    match s {
        Some(t) => Some(t@),
        None => None,
    }
}

impl View for Cell {
    type V = CellState;

    open spec fn view(&self) -> CellState {
        CellState {
            ch: self.ch,
            fg: self.fg,
            bg: self.bg,
            attrs: self.attrs,
            dirty: self.dirty,
            wide_filler: self.wide_filler,
            hyperlink_id: self.hyperlink_id,
            combining: text_view(self.combining),
        }
    }
}

impl CellState {
    /// An empty cell with the given colours and attributes, to be drawn.
    pub open spec fn blank(fg: Color, bg: Color, attrs: Attrs) -> CellState {
        CellState {
            ch: ' ',
            fg,
            bg,
            attrs,
            dirty: true,
            wide_filler: false,
            hyperlink_id: 0,
            combining: None,
        }
    }

    /// The cell that a fresh line is made of.
    pub open spec fn empty() -> CellState {
        CellState::blank(Color::Default, Color::Default, Attrs::none())
    }

    /// The cell, to be drawn again.
    pub open spec fn dirtied(self) -> CellState {
        CellState { dirty: true, ..self }
    }
}

impl Default for Cell {
    fn default() -> (r: Self)
        ensures
            r@ == CellState::empty(),
    {
        Cell::blank(Color::Default, Color::Default, Attrs::default())
    }
}

impl Clone for Cell {
    fn clone(&self) -> (r: Cell)
        ensures
            r == *self,
    {
        Cell {
            ch: self.ch,
            fg: self.fg,
            bg: self.bg,
            attrs: self.attrs,
            dirty: self.dirty,
            wide_filler: self.wide_filler,
            hyperlink_id: self.hyperlink_id,
            combining: match &self.combining {
                Some(s) => Some(s.clone()),
                None => None,
            },
        }
    }
}

impl Cell {
    /// An empty cell with the given colours and attributes, to be drawn.
    pub fn blank(fg: Color, bg: Color, attrs: Attrs) -> (r: Cell)
        ensures
            r@ == CellState::blank(fg, bg, attrs),
    {
        Cell {
            ch: ' ',
            fg,
            bg,
            attrs,
            dirty: true,
            wide_filler: false,
            hyperlink_id: 0,
            combining: None,
        }
    }
}

// ---------------------------------------------------------------------------
// Lines
// ---------------------------------------------------------------------------

/// The views of a line of cells.
pub open spec fn line_view(line: Seq<Cell>) -> Seq<CellState> {
    Seq::new(line.len(), |i: int| line[i]@)
}

/// The views of a list of lines.
pub open spec fn lines_view(lines: Seq<Arc<Vec<Cell>>>) -> Seq<Seq<CellState>> {
    Seq::new(lines.len(), |i: int| line_view(lines[i]@))
}

/// Replacing a line replaces its view.
pub broadcast proof fn lines_view_update(lines: Seq<Arc<Vec<Cell>>>, r: int, line: Arc<Vec<Cell>>)
    requires
        0 <= r < lines.len(),
    ensures
        #[trigger] lines_view(lines.update(r, line)) == lines_view(lines).update(
            r,
            line_view(line@),
        ),
{
    assert(lines_view(lines.update(r, line)) =~= lines_view(lines).update(r, line_view(line@)));
}

/// A line of `cols` empty cells.
pub open spec fn blank_line(cols: int) -> Seq<CellState> {
    Seq::new(cols as nat, |i: int| CellState::empty())
}

/// The cells of the line from `from` up to `to` replaced by `fill`, except the
/// protected ones where the erasure is selective.
pub open spec fn erased(
    line: Seq<CellState>,
    from: int,
    to: int,
    fill: CellState,
    selective: bool,
) -> Seq<CellState> {
    Seq::new(
        line.len(),
        |i: int|
            if from <= i < to && !(selective && line[i].attrs@.protected) {
                fill
            } else {
                line[i]
            },
    )
}

/// `n` copies of `fill` inserted at `col`; what passes `bound` falls off.
pub open spec fn inserted(
    line: Seq<CellState>,
    col: int,
    n: int,
    bound: int,
    fill: CellState,
) -> Seq<CellState> {
    Seq::new(
        line.len(),
        |i: int|
            if i < col || i >= bound {
                line[i]
            } else if i < col + n {
                fill
            } else {
                line[i - n]
            },
    )
}

/// `n` cells deleted at `col`; the cells up to `bound` move left, the vacated
/// ones become `fill`. Every cell from `col` to `bound` is to be drawn again.
pub open spec fn deleted(
    line: Seq<CellState>,
    col: int,
    n: int,
    bound: int,
    fill: CellState,
) -> Seq<CellState> {
    Seq::new(
        line.len(),
        |i: int|
            if i < col || i >= bound {
                line[i]
            } else if i + n < bound {
                line[i + n].dirtied()
            } else {
                fill.dirtied()
            },
    )
}

/// The line with every cell from `col + width` on taking the place of the one
/// `width` before it: room for a character of that width at `col`.
pub open spec fn opened(line: Seq<CellState>, col: int, width: int) -> Seq<CellState> {
    Seq::new(
        line.len(),
        |i: int|
            if i >= col + width {
                line[i - width].dirtied()
            } else {
                line[i]
            },
    )
}

/// The line with every cell to be drawn again.
pub open spec fn dirtied_line(line: Seq<CellState>) -> Seq<CellState> {
    Seq::new(line.len(), |i: int| line[i].dirtied())
}

/// The text of a line: each cell's character and its combining characters,
/// the right halves of wide characters left out.
pub open spec fn line_text(line: Seq<CellState>) -> Seq<char>
    decreases line.len(),
{
    if line.len() == 0 {
        Seq::empty()
    } else {
        let c = line.last();
        let before = line_text(line.drop_last());
        if c.wide_filler {
            before
        } else {
            match c.combining {
                Some(t) => before.push(c.ch) + t,
                None => before.push(c.ch),
            }
        }
    }
}

/// `Arc::make_mut`: exclusive access to a shared line, copied first when
/// another handle to it exists. The line that is handed out holds what the
/// shared one held, and what is left in it stays behind the handle.
#[verifier::external_body]
pub(crate) fn line_mut(row: &mut Arc<Vec<Cell>>) -> (line: &mut Vec<Cell>)
    ensures
        line@ == old(row)@,
        **final(row) == *final(line),
{
    Arc::make_mut(row)
}

/// `Arc::clone`: another handle to the same line.
#[verifier::external_body]
pub(crate) fn share(row: &Arc<Vec<Cell>>) -> (r: Arc<Vec<Cell>>)
    ensures
        r == *row,
{
    Arc::clone(row)
}

/// A line of `cols` empty cells.
pub fn new_blank_line(cols: usize) -> (r: Vec<Cell>)
    ensures
        line_view(r@) == blank_line(cols as int),
{
    let mut r: Vec<Cell> = Vec::new();
    let mut i: usize = 0;
    while i < cols
        invariant
            i <= cols,
            line_view(r@) == blank_line(i as int),
        decreases cols - i,
    {
        let ghost before = r@;
        r.push(Cell::default());
        i += 1;
        proof {
            assert(line_view(r@) =~= line_view(before).push(CellState::empty()));
            assert(blank_line(i as int) =~= blank_line(i - 1).push(CellState::empty()));
        }
    }
    r
}

/// Erase the cells from `from` up to `to`.
pub fn erase_cells(line: &mut Vec<Cell>, from: usize, to: usize, fill: &Cell, selective: bool)
    requires
        from <= to ==> to <= old(line)@.len(),
    ensures
        final(line)@.len() == old(line)@.len(),
        line_view(final(line)@) == erased(
            line_view(old(line)@),
            from as int,
            to as int,
            fill@,
            selective,
        ),
{
    let ghost before = line_view(line@);
    let mut c: usize = from;
    while c < to
        invariant
            from <= to ==> from <= c <= to <= line@.len(),
            from > to ==> c == from,
            line@.len() == before.len(),
            forall|i: int| 0 <= i < line@.len() ==> (#[trigger] line@[i])@ == if from <= i < c && !(
            selective && before[i].attrs@.protected) {
                fill@
            } else {
                before[i]
            },
        decreases to - c,
    {
        if !(selective && line[c].attrs.protected()) {
            line[c] = fill.clone();
        }
        c += 1;
    }
    proof {
        assert(line_view(line@) =~= erased(before, from as int, to as int, fill@, selective));
    }
}

/// Insert `n` copies of `fill` at `col`.
pub fn insert_cells(line: &mut Vec<Cell>, col: usize, n: usize, bound: usize, fill: &Cell)
    requires
        bound <= old(line)@.len(),
        col + n <= usize::MAX,
    ensures
        final(line)@.len() == old(line)@.len(),
        line_view(final(line)@) == inserted(
            line_view(old(line)@),
            col as int,
            n as int,
            bound as int,
            fill@,
        ),
{
    let ghost before = line_view(line@);
    // From the right edge inwards, so that no source cell is overwritten.
    let mut c: usize = bound;
    while c > col && c - col > n
        invariant
            bound <= line@.len(),
            line@.len() == before.len(),
            c <= bound,
            c < bound ==> c >= col + n,
            col + n <= usize::MAX,
            forall|i: int| 0 <= i < line@.len() ==> (#[trigger] line@[i])@ == if c <= i < bound {
                before[i - n]
            } else {
                before[i]
            },
        decreases c,
    {
        c -= 1;
        let moved = line[c - n].clone();
        line[c] = moved;
    }
    let end: usize = if col + n < bound {
        col + n
    } else {
        bound
    };
    let mut c: usize = col;
    while c < end
        invariant
            bound <= line@.len(),
            line@.len() == before.len(),
            col <= bound ==> col <= c <= end,
            col > bound ==> c == col,
            end == if col + n < bound {
                (col + n) as int
            } else {
                bound as int
            },
            forall|i: int| 0 <= i < line@.len() ==> (#[trigger] line@[i])@ == if col <= i < c {
                fill@
            } else if col + n <= i < bound {
                before[i - n]
            } else {
                before[i]
            },
        decreases end - c,
    {
        line[c] = fill.clone();
        c += 1;
    }
    proof {
        assert(line_view(line@) =~= inserted(before, col as int, n as int, bound as int, fill@));
    }
}

/// Delete `n` cells at `col`.
pub fn delete_cells(line: &mut Vec<Cell>, col: usize, n: usize, bound: usize, fill: &Cell)
    requires
        bound <= old(line)@.len(),
        bound + n <= usize::MAX,
    ensures
        final(line)@.len() == old(line)@.len(),
        line_view(final(line)@) == deleted(
            line_view(old(line)@),
            col as int,
            n as int,
            bound as int,
            fill@,
        ),
{
    let ghost before = line_view(line@);
    let mut c: usize = col;
    while c < bound
        invariant
            bound <= line@.len(),
            bound + n <= usize::MAX,
            line@.len() == before.len(),
            col <= c,
            c <= bound || c == col,
            forall|i: int| 0 <= i < line@.len() ==> (#[trigger] line@[i])@ == if col <= i < c {
                if i + n < bound {
                    before[i + n].dirtied()
                } else {
                    fill@.dirtied()
                }
            } else {
                before[i]
            },
        decreases bound - c,
    {
        let mut cell = if c + n < bound {
            line[c + n].clone()
        } else {
            fill.clone()
        };
        cell.dirty = true;
        line[c] = cell;
        c += 1;
    }
    proof {
        assert(line_view(line@) =~= deleted(before, col as int, n as int, bound as int, fill@));
    }
}

/// Make room for a character of `width` columns at `col`.
pub fn open_gap(line: &mut Vec<Cell>, col: usize, width: usize)
    requires
        col + width <= usize::MAX,
    ensures
        final(line)@.len() == old(line)@.len(),
        line_view(final(line)@) == opened(line_view(old(line)@), col as int, width as int),
{
    let ghost before = line_view(line@);
    let len: usize = line.len();
    let mut c: usize = len;
    while c > col + width
        invariant
            len == line@.len(),
            line@.len() == before.len(),
            c <= len,
            c < len ==> c >= col + width,
            col + width <= usize::MAX,
            forall|i: int| 0 <= i < line@.len() ==> (#[trigger] line@[i])@ == if i >= c {
                before[i - width].dirtied()
            } else {
                before[i]
            },
        decreases c,
    {
        c -= 1;
        let mut cell = line[c - width].clone();
        cell.dirty = true;
        line[c] = cell;
    }
    proof {
        assert(line_view(line@) =~= opened(before, col as int, width as int));
    }
}

/// Mark every cell of the line to be drawn again.
pub fn dirty_cells(line: &mut Vec<Cell>)
    ensures
        final(line)@.len() == old(line)@.len(),
        line_view(final(line)@) == dirtied_line(line_view(old(line)@)),
{
    let ghost before = line_view(line@);
    let mut c: usize = 0;
    while c < line.len()
        invariant
            c <= line@.len(),
            line@.len() == before.len(),
            forall|i: int| 0 <= i < line@.len() ==> (#[trigger] line@[i])@ == if i < c {
                before[i].dirtied()
            } else {
                before[i]
            },
        decreases line@.len() - c,
    {
        line[c].dirty = true;
        c += 1;
    }
    proof {
        assert(line_view(line@) =~= dirtied_line(before));
    }
}

/// The text of a line of cells.
pub fn line_to_string_from_cells(line: &[Cell]) -> (s: String)
    ensures
        s@ == line_text(line_view(line@)),
{
    let mut s = String::new();
    let ghost lv = line_view(line@);
    let mut i: usize = 0;
    proof {
        assert(lv.take(0) =~= Seq::<CellState>::empty());
    }
    while i < line.len()
        invariant
            i <= line@.len(),
            lv == line_view(line@),
            s@ == line_text(lv.take(i as int)),
        decreases line@.len() - i,
    {
        let cell = &line[i];
        proof {
            assert(lv.take(i + 1).drop_last() =~= lv.take(i as int));
            assert(lv.take(i + 1).last() == cell@);
        }
        if !cell.wide_filler {
            s.push(cell.ch);
            if let Some(tail) = &cell.combining {
                s.append(tail.as_str());
            }
        }
        i += 1;
    }
    proof {
        assert(lv.take(lv.len() as int) =~= lv);
    }
    s
}

/// The text of a line is that of its cells one after the other: of each its
/// character and what is combined with it, and nothing of the right half of a
/// wide one.
pub proof fn lines_read_cell_by_cell(line: Seq<CellState>, cell: CellState)
    ensures
        line_text(Seq::empty()) == Seq::<char>::empty(),
        cell.wide_filler ==> line_text(line.push(cell)) == line_text(line),
        !cell.wide_filler && cell.combining is None ==> line_text(line.push(cell)) == line_text(
            line,
        ).push(cell.ch),
        !cell.wide_filler ==> (cell.combining matches Some(t) ==> line_text(line.push(cell))
            == line_text(line).push(cell.ch) + t),
{
    assert(line.push(cell).drop_last() =~= line);
}

/// Where every cell holds one character of its own, the text has as many
/// characters as the line has cells, each in its place.
pub proof fn plain_lines_read_as_they_stand(line: Seq<CellState>, c: int)
    requires
        0 <= c < line.len(),
        forall|i: int|
            0 <= i < line.len() ==> !(#[trigger] line[i]).wide_filler && line[i].combining is None,
    ensures
        line_text(line).len() == line.len(),
        line_text(line)[c] == line[c].ch,
    decreases line.len(),
{
    let front = line.drop_last();
    if front.len() > 0 {
        let k = if c < front.len() {
            c
        } else {
            0
        };
        plain_lines_read_as_they_stand(front, k);
    } else {
        assert(line_text(front).len() == 0);
    }
}

} // verus!
