//! What a frame draws: rectangles and glyphs, in order, with their colors.
//!
//! Positions and sizes are whole numbers of twentieths of a pixel, which write
//! every half, quarter and tenth that the decorations need.
use vstd::prelude::*;
use vstd::utf8::*;

use crate::atlas::is_blank_glyph;
use crate::config::{drawn_color, parse_hex_color, unmarked, ColorConfig};
use crate::grid::attrs::PaletteState;
use crate::grid::cell::{text_view, CellState};
use crate::grid::state::GridState;
use crate::grid::{Cell, Color, ColorPalette, Grid};
use crate::search::{SearchMode, SearchState};
use crate::selection::Selection;
use crate::tab_bar::{
    close_area, new_tab_area, search_area, target_of, Area, TabBar, TabBarTarget, HIT_SIZE,
    TAB_WIDTH,
};
use crate::text::{chars_of, decimal_text, put_number};

verus! {

/// A color with its opacity, in sRGB.
#[derive(Debug, Clone, Copy, PartialEq, Eq, Structural)]
pub struct Rgba {
    pub r: u8,
    pub g: u8,
    pub b: u8,
    pub a: u8,
}

/// The size of a cell in pixels, and how far down the grid begins.
#[derive(Debug, Clone, Copy, PartialEq, Eq, Structural)]
pub struct CellMetrics {
    pub cell_width: u32,
    pub cell_height: u32,
    /// Height of the tab bar.
    pub top: u32,
}

/// The colors that a frame takes from the configuration.
#[derive(Debug, Clone, Copy, PartialEq, Eq, Structural)]
pub struct FrameColors {
    pub foreground: Rgba,
    pub background: Rgba,
    pub selection_fg: Rgba,
    pub selection_bg: Rgba,
    pub cursor: Rgba,
}

/// How a surface answers the pointer: as it is, lighter or darker.
#[derive(Debug, Clone, Copy, PartialEq, Eq, Structural)]
pub enum Shade {
    Plain,
    Hovered,
    Pressed,
}

/// The color of a surface: shaded with its tab, and then for itself where it is
/// a button.
#[derive(Debug, Clone, Copy, PartialEq, Eq, Structural)]
pub struct Tint {
    pub color: Rgba,
    pub tab: Shade,
    pub button: Shade,
}

/// One thing to draw. With `dim` set, the color has half its intensity.
#[derive(Debug)]
pub enum Mark {
    /// A filled rectangle.
    Fill { x: i64, y: i64, w: i64, h: i64, color: Rgba, dim: bool },
    /// The glyph of a cell whose top left corner is at `x`, `y`.
    Glyph {
        x: i64,
        y: i64,
        ch: char,
        tail: Option<String>,
        bold: bool,
        italic: bool,
        color: Rgba,
        dim: bool,
        bg: Rgba,
    },
    /// A filled rectangle of a bar.
    Surface { left: i128, top: i128, width: i128, height: i128, tint: Tint },
    /// A letter on a bar, in a cell whose top left corner is given.
    Letter { left: i128, top: i128, ch: char, color: Rgba, under: Tint },
}

/// What a mark says.
pub enum MarkState {
    Fill { x: int, y: int, w: int, h: int, color: Rgba, dim: bool },
    Glyph {
        x: int,
        y: int,
        ch: char,
        tail: Option<Seq<char>>,
        bold: bool,
        italic: bool,
        color: Rgba,
        dim: bool,
        bg: Rgba,
    },
    Surface { left: int, top: int, width: int, height: int, tint: Tint },
    Letter { left: int, top: int, ch: char, color: Rgba, under: Tint },
}

impl View for Mark {
    type V = MarkState;

    open spec fn view(&self) -> MarkState {
        match *self {
            Mark::Fill { x, y, w, h, color, dim } => MarkState::Fill {
                x: x as int,
                y: y as int,
                w: w as int,
                h: h as int,
                color,
                dim,
            },
            Mark::Glyph { x, y, ch, tail, bold, italic, color, dim, bg } => MarkState::Glyph {
                x: x as int,
                y: y as int,
                ch,
                tail: text_view(tail),
                bold,
                italic,
                color,
                dim,
                bg,
            },
            Mark::Surface { left, top, width, height, tint } => MarkState::Surface {
                left: left as int,
                top: top as int,
                width: width as int,
                height: height as int,
                tint,
            },
            Mark::Letter { left, top, ch, color, under } => MarkState::Letter {
                left: left as int,
                top: top as int,
                ch,
                color,
                under,
            },
        }
    }
}

/// The views of the marks.
pub open spec fn marks_view(v: Seq<Mark>) -> Seq<MarkState> {
    Seq::new(v.len(), |i: int| v[i]@)
}

/// True when the whole frame has to be drawn again: on the first frame, under
/// an overlay, a selection or a visible cursor, when scrolled, and when more
/// than half of the cells changed.
pub fn needs_full_redraw(
    offscreen_initialized: bool,
    cursor_visible: bool,
    selection_active: bool,
    search_active: bool,
    tab_bar_present: bool,
    scrolled: bool,
    dirty_cells: usize,
    total_cells: usize,
) -> (r: bool)
    ensures
        r == (!offscreen_initialized || cursor_visible || selection_active || search_active
            || tab_bar_present || scrolled || dirty_cells > total_cells / 2),
{
    !offscreen_initialized || cursor_visible || selection_active || search_active
        || tab_bar_present || scrolled || dirty_cells > total_cells / 2
}

/// The color that a configured text names.
pub open spec fn drawn(s: Seq<char>) -> Rgba {
    let (r, g, b, a) = drawn_color(encode_utf8(s));
    Rgba { r: r as u8, g: g as u8, b: b as u8, a: a as u8 }
}

/// The text is long enough to be a color.
pub open spec fn writes_color(s: Seq<char>) -> bool {
    unmarked(encode_utf8(s)).len() >= 6
}

/// The colors that a frame takes from the configuration are colors.
pub open spec fn drawable(c: ColorConfig) -> bool {
    &&& writes_color(c.foreground@)
    &&& writes_color(c.background@)
    &&& writes_color(c.selection_fg@)
    &&& writes_color(c.selection_bg@)
    &&& writes_color(c.cursor@)
}

fn color_named(s: &str) -> (r: Rgba)
    requires
        writes_color(s@),
    ensures
        r == drawn(s@),
{
    let (r, g, b, a) = parse_hex_color(s);
    Rgba { r, g, b, a }
}

/// The colors that a frame takes from the configuration.
pub fn frame_colors(c: &ColorConfig) -> (r: FrameColors)
    requires
        drawable(*c),
    ensures
        r == (FrameColors {
            foreground: drawn(c.foreground@),
            background: drawn(c.background@),
            selection_fg: drawn(c.selection_fg@),
            selection_bg: drawn(c.selection_bg@),
            cursor: drawn(c.cursor@),
        }),
{
    FrameColors {
        foreground: color_named(c.foreground.as_str()),
        background: color_named(c.background.as_str()),
        selection_fg: color_named(c.selection_fg.as_str()),
        selection_bg: color_named(c.selection_bg.as_str()),
        cursor: color_named(c.cursor.as_str()),
    }
}

/// The 256 colors of the table: the first ones from the configuration where it
/// has them, the others from the palette.
pub open spec fn table_color(ansi: Seq<String>, palette: PaletteState, i: int) -> (u8, u8, u8) {
    if i < 16 && i < ansi.len() {
        let c = drawn(ansi[i]@);
        (c.r, c.g, c.b)
    } else {
        palette.colors[i]
    }
}

/// Build a 256-entry color lookup table from config colors + palette.
pub fn build_color_table(config: &ColorConfig, palette: &ColorPalette) -> (r: Vec<(u8, u8, u8)>)
    requires
        forall|i: int| 0 <= i < 16 && i < config.ansi@.len() ==> writes_color(config.ansi@[i]@),
    ensures
        r@ == Seq::new(256, |i: int| table_color(config.ansi@, palette@, i)),
{
    let mut table: Vec<(u8, u8, u8)> = Vec::new();
    let mut i: usize = 0;
    while i < 256
        invariant
            i <= 256,
            table@.len() == i,
            forall|j: int|
                0 <= j < 16 && j < config.ansi@.len() ==> writes_color(config.ansi@[j]@),
            forall|j: int|
                0 <= j < i ==> table@[j] == table_color(config.ansi@, palette@, j),
        decreases 256 - i,
    {
        if i < 16 && i < config.ansi.len() {
            let c = color_named(config.ansi[i].as_str());
            table.push((c.r, c.g, c.b));
        } else {
            match palette.get_color(i as u8) {
                Some(c) => table.push(c),
                None => table.push((0, 0, 0)),
            }
        }
        i += 1;
    }
    proof {
        assert(table@ =~= Seq::new(256, |i: int| table_color(config.ansi@, palette@, i)));
    }
    table
}

/// The color of a foreground or background.
pub open spec fn resolved(c: Color, is_fg: bool, colors: FrameColors, palette: PaletteState) -> Rgba {
    match c {
        Color::Default => if is_fg {
            colors.foreground
        } else {
            colors.background
        },
        Color::Indexed(i) => {
            let (r, g, b) = palette.colors[i as int];
            Rgba { r, g, b, a: 255 }
        },
        Color::Rgb(r, g, b) => Rgba { r, g, b, a: 255 },
    }
}

/// Convert a terminal color to the one drawn, using the configured colors for
/// the defaults.
pub fn color_to_rgba(color: Color, is_fg: bool, colors: &FrameColors, palette: &ColorPalette) -> (r:
    Rgba)
    ensures
        r == resolved(color, is_fg, *colors, palette@),
{
    match color {
        Color::Default => if is_fg {
            colors.foreground
        } else {
            colors.background
        },
        Color::Indexed(i) => match palette.get_color(i) {
            Some((r, g, b)) => Rgba { r, g, b, a: 255 },
            None => Rgba { r: 0, g: 0, b: 0, a: 255 },
        },
        Color::Rgb(r, g, b) => Rgba { r, g, b, a: 255 },
    }
}

/// The foreground and background of a cell: swapped by inverse video, of the
/// cell or of the whole screen but not both, and replaced in a selection.
pub open spec fn cell_colors(
    g: GridState,
    cell: CellState,
    selected: bool,
    colors: FrameColors,
) -> (Rgba, Rgba) {
    let fg = resolved(cell.fg, true, colors, g.palette);
    let bg = resolved(cell.bg, false, colors, g.palette);
    if selected {
        (colors.selection_fg, colors.selection_bg)
    } else if cell.attrs@.inverse != g.modes.screen_reverse {
        (bg, fg)
    } else {
        (fg, bg)
    }
}

/// A rectangle at (`x`, `y`).
pub open spec fn fill(x: int, y: int, w: int, h: int, color: Rgba, dim: bool) -> MarkState {
    MarkState::Fill { x, y, w, h, color, dim }
}

/// The rectangles of an underline of a cell at (`x`, `y`), `w` wide and `h`
/// high: single, double, curly, dotted or dashed.
#[verifier::opaque]
pub open spec fn underline_marks(
    style: u8,
    x: int,
    y: int,
    w: int,
    h: int,
    color: Rgba,
    dim: bool,
) -> Seq<MarkState> {
    if style == 1 {
        seq![fill(x, y + h - 40, w, 40, color, dim)]
    } else if style == 2 {
        seq![fill(x, y + h - 80, w, 20, color, dim), fill(x, y + h - 20, w, 20, color, dim)]
    } else if style == 3 {
        seq![
            fill(x, y + h - 60, w / 2, 20, color, dim),
            fill(x + w / 2, y + h - 40, w / 2, 20, color, dim),
        ]
    } else if style == 4 {
        seq![
            fill(x, y + h - 40, w / 4, 40, color, dim),
            fill(x + w / 2, y + h - 40, w / 4, 40, color, dim),
        ]
    } else if style == 5 {
        seq![fill(x, y + h - 40, (w * 3) / 5, 40, color, dim)]
    } else {
        Seq::empty()
    }
}

/// The columns of a double-width line that are drawn come two by two.
pub open spec fn skipped(mode: u8, col: int) -> bool {
    mode == 6 && col % 2 == 1
}

/// The glyph of a cell at (`x`, `y`), with its underline and strike.
pub open spec fn ink_marks(
    cell: CellState,
    x: int,
    y: int,
    w: int,
    cw: int,
    ch: int,
    fg: Rgba,
    bg: Rgba,
) -> Seq<MarkState> {
    let dim = cell.attrs@.dim || cell.attrs@.blink;
    seq![
        MarkState::Glyph {
            x,
            y,
            ch: cell.ch,
            tail: cell.combining,
            bold: cell.attrs@.bold,
            italic: cell.attrs@.italic,
            color: fg,
            dim,
            bg,
        },
    ] + underline_marks(cell.attrs@.underline_style, x, y, w, ch, fg, dim)
        + if cell.attrs@.strikethrough {
        seq![fill(x, y + (ch * 2) / 5, cw, 40, fg, dim)]
    } else {
        Seq::empty()
    }
}

/// A cell without ink: the right half of a wide character, a bare space, or
/// hidden text.
pub open spec fn inkless(cell: CellState) -> bool {
    cell.wide_filler || (cell.ch == ' ' && cell.combining is None) || cell.attrs@.invisible
}

/// What a cell draws: its background, and unless it is blank or hidden its
/// glyph, underline and strike.
pub open spec fn shown_cell(
    g: GridState,
    cell: CellState,
    mode: u8,
    selected: bool,
    colors: FrameColors,
    m: CellMetrics,
    row: int,
    col: int,
) -> Seq<MarkState> {
    let (fg, bg) = cell_colors(g, cell, selected, colors);
    let cw = 20 * m.cell_width;
    let ch = 20 * m.cell_height;
    let w = if mode == 6 {
        2 * cw
    } else {
        cw
    };
    let x = if mode == 6 {
        (col / 2) * w
    } else {
        col * cw
    };
    let y = 20 * m.top + row * ch;
    seq![fill(x, y, w, ch, bg, false)] + if inkless(cell) {
        Seq::empty()
    } else {
        ink_marks(cell, x, y, w, cw, ch, fg, bg)
    }
}

/// What the view draws in a row and column.
pub open spec fn cell_marks(
    g: GridState,
    sel: Selection,
    colors: FrameColors,
    m: CellMetrics,
    row: int,
    col: int,
) -> Seq<MarkState> {
    match g.cell_at_view(col, row) {
        Some(cell) => if skipped(g.line_modes[row], col) {
            Seq::empty()
        } else {
            shown_cell(
                g,
                cell,
                g.line_modes[row],
                row >= g.shown_history() && sel.selects(row - g.shown_history(), col),
                colors,
                m,
                row,
                col,
            )
        },
        None => Seq::empty(),
    }
}

/// What the cells before (`row`, `col`) draw, in reading order.
pub open spec fn marks_before(
    g: GridState,
    sel: Selection,
    colors: FrameColors,
    m: CellMetrics,
    wanted: spec_fn(int, int) -> bool,
    row: int,
    col: int,
) -> Seq<MarkState>
    decreases row, col,
{
    if row < 0 {
        Seq::empty()
    } else if col > 0 {
        let rest = marks_before(g, sel, colors, m, wanted, row, col - 1);
        if wanted(row, col - 1) {
            rest + cell_marks(g, sel, colors, m, row, col - 1)
        } else {
            rest
        }
    } else if row > 0 {
        marks_before(g, sel, colors, m, wanted, row - 1, g.screen.cols)
    } else {
        Seq::empty()
    }
}

/// The cells to draw: all of them, or those listed.
pub open spec fn wanted(full: bool, dirty: Seq<(usize, usize)>) -> spec_fn(int, int) -> bool {
    |row: int, col: int| full || dirty.contains((row as usize, col as usize))
}

/// The cursor, unless it is hidden or scrolled out of the view: a block, an
/// underline or a bar.
pub open spec fn cursor_marks(
    g: GridState,
    colors: FrameColors,
    m: CellMetrics,
    cursor_on: bool,
) -> Seq<MarkState> {
    let col = if g.col < g.screen.cols {
        g.col
    } else {
        g.screen.cols - 1
    };
    let row = g.row + g.shown_history();
    let cw = 20 * m.cell_width;
    let ch = 20 * m.cell_height;
    let x = col * cw;
    let y = 20 * m.top + row * ch;
    let shape = g.modes.cursor_shape;
    if g.modes.cursor_visible && cursor_on && row < g.screen.rows {
        if shape == 3 || shape == 4 {
            seq![fill(x, y + ch - 40, cw, 40, colors.cursor, false)]
        } else if shape == 5 || shape == 6 {
            seq![fill(x, y, 40, ch, colors.cursor, false)]
        } else {
            seq![fill(x, y, cw, ch, colors.cursor, false)]
        }
    } else {
        Seq::empty()
    }
}

/// What a frame draws of the grid: its cells, and then the cursor.
pub open spec fn frame_marks(
    g: GridState,
    sel: Selection,
    colors: FrameColors,
    m: CellMetrics,
    full: bool,
    dirty: Seq<(usize, usize)>,
    cursor_on: bool,
) -> Seq<MarkState> {
    marks_before(g, sel, colors, m, wanted(full, dirty), g.screen.rows - 1, g.screen.cols)
        + cursor_marks(g, colors, m, cursor_on)
}

fn place(n: usize, size: i64) -> (r: i64)
    requires
        n <= 65535,
        0 <= size <= 0x28_0000_0000,
    ensures
        r == n * size,
        0 <= r <= 65535 * 0x28_0000_0000,
{
    proof {
        let a = n as int;
        let b = size as int;
        assert(0 <= a * b <= 65535 * 0x28_0000_0000) by (nonlinear_arith)
            requires
                0 <= a <= 65535,
                0 <= b <= 0x28_0000_0000,
        ;
    }
    n as i64 * size
}

fn push_fill(marks: &mut Vec<Mark>, x: i64, y: i64, w: i64, h: i64, color: Rgba, dim: bool)
    ensures
        marks_view(final(marks)@) == marks_view(old(marks)@).push(
            fill(x as int, y as int, w as int, h as int, color, dim),
        ),
{
    marks.push(Mark::Fill { x, y, w, h, color, dim });
    proof {
        assert(marks_view(marks@) =~= marks_view(old(marks)@).push(
            fill(x as int, y as int, w as int, h as int, color, dim),
        ));
    }
}

fn push_underline(
    marks: &mut Vec<Mark>,
    style: u8,
    x: i64,
    y: i64,
    w: i64,
    h: i64,
    color: Rgba,
    dim: bool,
)
    requires
        0 <= x <= 0x100_0000_0000_0000,
        0 <= y <= 0x100_0000_0000_0000,
        0 <= w <= 0x100_0000_0000_0000,
        0 <= h <= 0x100_0000_0000_0000,
    ensures
        marks_view(final(marks)@) == marks_view(old(marks)@) + underline_marks(
            style,
            x as int,
            y as int,
            w as int,
            h as int,
            color,
            dim,
        ),
{
    let ghost before = marks_view(marks@);
    if style == 1 {
        push_fill(marks, x, y + h - 40, w, 40, color, dim);
    } else if style == 2 {
        push_fill(marks, x, y + h - 80, w, 20, color, dim);
        push_fill(marks, x, y + h - 20, w, 20, color, dim);
    } else if style == 3 {
        push_fill(marks, x, y + h - 60, w / 2, 20, color, dim);
        push_fill(marks, x + w / 2, y + h - 40, w / 2, 20, color, dim);
    } else if style == 4 {
        push_fill(marks, x, y + h - 40, w / 4, 40, color, dim);
        push_fill(marks, x + w / 2, y + h - 40, w / 4, 40, color, dim);
    } else if style == 5 {
        push_fill(marks, x, y + h - 40, (w * 3) / 5, 40, color, dim);
    }
    proof {
        reveal(underline_marks);
        assert(marks_view(marks@) =~= before + underline_marks(
            style,
            x as int,
            y as int,
            w as int,
            h as int,
            color,
            dim,
        ));
    }
}

fn push_ink(
    marks: &mut Vec<Mark>,
    cell: &Cell,
    x: i64,
    y: i64,
    w: i64,
    cw: i64,
    ch: i64,
    fg: Rgba,
    bg: Rgba,
)
    requires
        0 <= x <= 0x100_0000_0000_0000,
        0 <= y <= 0x100_0000_0000_0000,
        0 <= w <= 0x100_0000_0000_0000,
        0 <= cw <= 0x100_0000_0000_0000,
        0 <= ch <= 0x100_0000_0000_0000,
    ensures
        marks_view(final(marks)@) == marks_view(old(marks)@) + ink_marks(
            cell@,
            x as int,
            y as int,
            w as int,
            cw as int,
            ch as int,
            fg,
            bg,
        ),
{
    let ghost before = marks_view(marks@);
    let dim = cell.attrs.dim() || cell.attrs.blink();
    let tail = match &cell.combining {
        Some(t) => Some(t.clone()),
        None => None,
    };
    let ghost glyph = seq![
        MarkState::Glyph {
            x: x as int,
            y: y as int,
            ch: cell.ch,
            tail: cell@.combining,
            bold: cell.attrs@.bold,
            italic: cell.attrs@.italic,
            color: fg,
            dim,
            bg,
        },
    ];
    marks.push(
        Mark::Glyph {
            x,
            y,
            ch: cell.ch,
            tail,
            bold: cell.attrs.bold(),
            italic: cell.attrs.italic(),
            color: fg,
            dim,
            bg,
        },
    );
    proof {
        assert(marks_view(marks@) =~= before + glyph);
    }
    let ghost lined = underline_marks(
        cell.attrs@.underline_style,
        x as int,
        y as int,
        w as int,
        ch as int,
        fg,
        dim,
    );
    push_underline(marks, cell.attrs.underline_style(), x, y, w, ch, fg, dim);
    proof {
        assert(marks_view(marks@) =~= before + (glyph + lined));
    }
    if cell.attrs.strikethrough() {
        push_fill(marks, x, y + (ch * 2) / 5, cw, 40, fg, dim);
        proof {
            let strike = seq![fill(x as int, y + (ch * 2) / 5, cw as int, 40, fg, dim)];
            assert(marks_view(marks@) =~= before + (glyph + lined + strike));
        }
    } else {
        proof {
            assert(glyph + lined + Seq::<MarkState>::empty() =~= glyph + lined);
        }
    }
}

fn push_cell(
    marks: &mut Vec<Mark>,
    grid: &Grid,
    cell: &Cell,
    mode: u8,
    selected: bool,
    colors: &FrameColors,
    m: CellMetrics,
    row: usize,
    col: usize,
)
    requires
        row <= 65535,
        col <= 65535,
    ensures
        marks_view(final(marks)@) == marks_view(old(marks)@) + shown_cell(
            grid@,
            cell@,
            mode,
            selected,
            *colors,
            m,
            row as int,
            col as int,
        ),
{
    let ghost before = marks_view(marks@);
    let cw: i64 = 20 * m.cell_width as i64;
    let ch: i64 = 20 * m.cell_height as i64;
    let w: i64 = if mode == 6 {
        2 * cw
    } else {
        cw
    };
    let x: i64 = if mode == 6 {
        place(col / 2, w)
    } else {
        place(col, cw)
    };
    let y: i64 = 20 * m.top as i64 + place(row, ch);
    let fg_raw = color_to_rgba(cell.fg, true, colors, &grid.palette);
    let bg_raw = color_to_rgba(cell.bg, false, colors, &grid.palette);
    let (fg, bg) = if selected {
        (colors.selection_fg, colors.selection_bg)
    } else if cell.attrs.inverse() != grid.modes.screen_reverse {
        (bg_raw, fg_raw)
    } else {
        (fg_raw, bg_raw)
    };
    push_fill(marks, x, y, w, ch, bg, false);
    let ghost back = seq![fill(x as int, y as int, w as int, ch as int, bg, false)];
    proof {
        assert(marks_view(marks@) =~= before + back);
    }
    if cell.wide_filler || (cell.ch == ' ' && cell.combining.is_none()) || cell.attrs.invisible() {
        proof {
            assert(back + Seq::<MarkState>::empty() =~= back);
        }
        return ;
    }
    push_ink(marks, cell, x, y, w, cw, ch, fg, bg);
    proof {
        let ink = ink_marks(
            cell@,
            x as int,
            y as int,
            w as int,
            cw as int,
            ch as int,
            fg,
            bg,
        );
        assert((before + back) + ink =~= before + (back + ink));
    }
}

fn push_cursor(marks: &mut Vec<Mark>, grid: &Grid, colors: &FrameColors, m: CellMetrics, on: bool)
    requires
        grid.wf(),
    ensures
        marks_view(final(marks)@) == marks_view(old(marks)@) + cursor_marks(
            grid@,
            *colors,
            m,
            on,
        ),
{
    let ghost before = marks_view(marks@);
    if grid.modes.cursor_visible && on {
        let col: usize = if grid.cursor.col < grid.screen.cols {
            grid.cursor.col
        } else {
            grid.screen.cols - 1
        };
        let offset: usize = grid.view_scrollback_lines();
        if offset < grid.screen.rows - grid.cursor.row {
            let row: usize = grid.cursor.row + offset;
            let cw: i64 = 20 * m.cell_width as i64;
            let ch: i64 = 20 * m.cell_height as i64;
            let x: i64 = place(col, cw);
            let y: i64 = 20 * m.top as i64 + place(row, ch);
            let shape: u8 = grid.modes.cursor_shape;
            if shape == 3 || shape == 4 {
                push_fill(marks, x, y + ch - 40, cw, 40, colors.cursor, false);
            } else if shape == 5 || shape == 6 {
                push_fill(marks, x, y, 40, ch, colors.cursor, false);
            } else {
                push_fill(marks, x, y, cw, ch, colors.cursor, false);
            }
        }
    }
    proof {
        assert(marks_view(marks@) =~= before + cursor_marks(grid@, *colors, m, on));
    }
}

/// One flag for each cell: whether it is listed.
fn mask_of(rows: usize, cols: usize, dirty: &Vec<(usize, usize)>) -> (r: Vec<Vec<bool>>)
    ensures
        r@.len() == rows,
        forall|i: int| 0 <= i < rows ==> (#[trigger] r@[i])@.len() == cols,
        forall|i: int, j: int|
            0 <= i < rows && 0 <= j < cols ==> #[trigger] r@[i]@[j] == dirty@.contains(
                (i as usize, j as usize),
            ),
{
    let mut mask: Vec<Vec<bool>> = Vec::new();
    let mut i: usize = 0;
    while i < rows
        invariant
            i <= rows,
            mask@.len() == i,
            forall|a: int| 0 <= a < i ==> (#[trigger] mask@[a])@.len() == cols,
            forall|a: int, b: int|
                0 <= a < i && 0 <= b < cols ==> !(#[trigger] mask@[a]@[b]),
        decreases rows - i,
    {
        let mut line: Vec<bool> = Vec::new();
        let mut j: usize = 0;
        while j < cols
            invariant
                j <= cols,
                line@.len() == j,
                forall|b: int| 0 <= b < j ==> !(#[trigger] line@[b]),
            decreases cols - j,
        {
            line.push(false);
            j += 1;
        }
        mask.push(line);
        i += 1;
    }
    let n: usize = dirty.len();
    let mut k: usize = 0;
    proof {
        assert(dirty@.take(0) =~= Seq::empty());
    }
    while k < n
        invariant
            k <= n,
            n == dirty@.len(),
            mask@.len() == rows,
            forall|a: int| 0 <= a < rows ==> (#[trigger] mask@[a])@.len() == cols,
            forall|a: int, b: int|
                0 <= a < rows && 0 <= b < cols ==> #[trigger] mask@[a]@[b] == dirty@.take(
                    k as int,
                ).contains((a as usize, b as usize)),
        decreases n - k,
    {
        let (r, c) = dirty[k];
        let ghost before = mask@;
        let ghost listed = dirty@.take(k as int);
        proof {
            assert(dirty@.take(k + 1) =~= listed.push((r, c)));
            assert forall|a: int, b: int| 0 <= a < rows && 0 <= b < cols implies #[trigger] dirty@.take(
                k + 1,
            ).contains((a as usize, b as usize)) == (before[a]@[b] || (a == r && b == c)) by {
                let p = (a as usize, b as usize);
                if listed.contains(p) {
                    let q = choose|q: int| 0 <= q < listed.len() && listed[q] == p;
                    assert(dirty@.take(k + 1)[q] == p);
                }
                if a == r && b == c {
                    assert(dirty@.take(k + 1)[k as int] == p);
                }
            }
        }
        if r < rows && c < cols {
            let line = &mut mask[r];
            line.set(c, true);
        }
        k += 1;
    }
    proof {
        assert(dirty@.take(n as int) =~= dirty@);
    }
    mask
}

/// The marks of a frame: of every cell, or of those that changed, and of the
/// cursor.
pub fn plan_frame(
    grid: &Grid,
    selection: &Selection,
    colors: &FrameColors,
    m: CellMetrics,
    full: bool,
    dirty: &Vec<(usize, usize)>,
    cursor_on: bool,
) -> (r: Vec<Mark>)
    requires
        grid.wf(),
    ensures
        marks_view(r@) == frame_marks(
            grid@,
            *selection,
            *colors,
            m,
            full,
            dirty@,
            cursor_on,
        ),
{
    let rows: usize = grid.screen.rows;
    let cols: usize = grid.screen.cols;
    let offset: usize = grid.view_scrollback_lines();
    let mask = mask_of(rows, cols, dirty);
    let ghost want = wanted(full, dirty@);
    let mut marks: Vec<Mark> = Vec::new();
    proof {
        assert(marks_view(marks@) =~= Seq::empty());
    }
    let mut row: usize = 0;
    while row < rows
        invariant
            row <= rows,
            grid.wf(),
            rows == grid.screen.rows,
            cols == grid.screen.cols,
            offset == grid@.shown_history(),
            want == wanted(full, dirty@),
            mask@.len() == rows,
            forall|i: int| 0 <= i < rows ==> (#[trigger] mask@[i])@.len() == cols,
            forall|i: int, j: int|
                0 <= i < rows && 0 <= j < cols ==> #[trigger] mask@[i]@[j] == dirty@.contains(
                    (i as usize, j as usize),
                ),
            marks_view(marks@) == marks_before(
                grid@,
                *selection,
                *colors,
                m,
                want,
                row as int,
                0,
            ),
        decreases rows - row,
    {
        let mode: u8 = grid.line_mode(row);
        let mut col: usize = 0;
        while col < cols
            invariant
                row < rows,
                col <= cols,
                grid.wf(),
                rows == grid.screen.rows,
                cols == grid.screen.cols,
                offset == grid@.shown_history(),
                want == wanted(full, dirty@),
                mode == grid@.line_modes[row as int],
                mask@.len() == rows,
                forall|i: int| 0 <= i < rows ==> (#[trigger] mask@[i])@.len() == cols,
                forall|i: int, j: int|
                    0 <= i < rows && 0 <= j < cols ==> #[trigger] mask@[i]@[j]
                        == dirty@.contains((i as usize, j as usize)),
                marks_view(marks@) == marks_before(
                    grid@,
                    *selection,
                    *colors,
                    m,
                    want,
                    row as int,
                    col as int,
                ),
            decreases cols - col,
        {
            let ghost before = marks_view(marks@);
            let ghost own = cell_marks(grid@, *selection, *colors, m, row as int, col as int);
            let listed = mask[row][col];
            proof {
                assert(mask@[row as int]@[col as int] == listed);
                assert(want(row as int, col as int) == (full || listed));
                assert(before + Seq::<MarkState>::empty() =~= before);
            }
            if full || listed {
                if let Some(cell) = grid.cell_at_view(col, row) {
                    if !(mode == 6 && col % 2 == 1) {
                        let selected = row >= offset && selection.contains(row - offset, col);
                        push_cell(
                            &mut marks,
                            grid,
                            cell,
                            mode,
                            selected,
                            colors,
                            m,
                            row,
                            col,
                        );
                    }
                }
                proof {
                    assert(marks_view(marks@) == before + own);
                }
            }
            col += 1;
        }
        row += 1;
    }
    proof {
        assert(marks_before(grid@, *selection, *colors, m, want, rows as int, 0) == marks_before(
            grid@,
            *selection,
            *colors,
            m,
            want,
            rows - 1,
            cols as int,
        ));
    }
    push_cursor(&mut marks, grid, colors, m, cursor_on);
    marks
}

/// A frame that draws every cell does not depend on which cells changed.
pub proof fn full_frame_ignores_damage(
    g: GridState,
    sel: Selection,
    colors: FrameColors,
    m: CellMetrics,
    a: Seq<(usize, usize)>,
    b: Seq<(usize, usize)>,
    cursor_on: bool,
)
    ensures
        frame_marks(g, sel, colors, m, true, a, cursor_on) == frame_marks(
            g,
            sel,
            colors,
            m,
            true,
            b,
            cursor_on,
        ),
{
    assert(wanted(true, a) =~= wanted(true, b));
}

/// The line of the search bar: the query, the direction, and which match of how
/// many is current.
pub open spec fn status_text(
    query: Seq<char>,
    reverse: bool,
    current: int,
    count: int,
) -> Seq<char> {
    "/"@ + query + "  "@ + (if reverse {
        "reverse"@
    } else {
        "search"@
    }) + "  "@ + decimal_text(
        (if count == 0 {
            0
        } else {
            current + 1
        }) as nat,
    ) + "/"@ + decimal_text(count as nat)
}

/// The line of the search bar.
pub fn search_status(search: &SearchState) -> (r: String)
    requires
        search.current_match < usize::MAX,
    ensures
        r@ == status_text(
            search.query@,
            search.mode == SearchMode::Reverse,
            search.current_match as int,
            search.matches@.len() as int,
        ),
{
    let mut s = String::new();
    s.append("/");
    s.append(search.query.as_str());
    s.append("  ");
    match search.mode {
        SearchMode::Reverse => s.append("reverse"),
        _ => s.append("search"),
    }
    s.append("  ");
    let n: usize = search.matches.len();
    let i: usize = if n == 0 {
        0
    } else {
        search.current_match + 1
    };
    put_number(&mut s, i as u64);
    s.append("/");
    put_number(&mut s, n as u64);
    proof {
        assert(s@ =~= status_text(
            search.query@,
            search.mode == SearchMode::Reverse,
            search.current_match as int,
            search.matches@.len() as int,
        ));
    }
    s
}

// ---------------------------------------------------------------------------
// The tab bar and the search bar
// ---------------------------------------------------------------------------

/// How many characters of a tab's title are drawn.
pub const TITLE_LIMIT: usize = 18;

/// How many characters of the search bar's line are drawn.
pub const STATUS_LIMIT: usize = 40;

/// An opaque color.
pub open spec fn opaque(r: u8, g: u8, b: u8) -> Rgba {
    Rgba { r, g, b, a: 255 }
}

/// The background of the tab bar.
pub open spec fn header_color() -> Rgba {
    opaque(0x18, 0x18, 0x25)
}

/// The surface of a tab.
pub open spec fn tab_color(active: bool) -> Rgba {
    if active {
        opaque(0x31, 0x32, 0x44)
    } else {
        opaque(0x1e, 0x1e, 0x2e)
    }
}

/// A color that nothing shades.
pub open spec fn unshaded(color: Rgba) -> Tint {
    Tint { color, tab: Shade::Plain, button: Shade::Plain }
}

/// The shade of a part of the tab bar. A press outdoes the pointer over it.
pub open spec fn shade_of(bar: TabBar, target: TabBarTarget) -> Shade {
    if bar.pressed == Some(target) {
        Shade::Pressed
    } else if bar.hovered == Some(target) {
        Shade::Hovered
    } else {
        Shade::Plain
    }
}

/// The character leaves ink: it is no blank, and not among those that no font
/// has or the atlas has no room for.
pub open spec fn leaves_ink(c: char, missing: Seq<char>) -> bool {
    c != ' ' && c as int >= 0x20 && !missing.contains(c)
}

/// How far the first `n` characters of a text reach, with cells of `cw` pixels:
/// a cell for each that leaves ink, and half a cell for a space where spaces
/// are narrow.
pub open spec fn text_reach(
    text: Seq<char>,
    n: int,
    narrow: bool,
    cw: int,
    missing: Seq<char>,
) -> int
    decreases n,
{
    if n <= 0 {
        0
    } else {
        let rest = text_reach(text, n - 1, narrow, cw, missing);
        if narrow && text[n - 1] == ' ' {
            rest + 10 * cw
        } else if leaves_ink(text[n - 1], missing) {
            rest + 20 * cw
        } else {
            rest
        }
    }
}

/// The letter of a character in a cell at (`x`, `y`), where it leaves ink.
pub open spec fn letter_marks(
    c: char,
    x: int,
    y: int,
    color: Rgba,
    bg: Tint,
    missing: Seq<char>,
) -> Seq<MarkState> {
    if leaves_ink(c, missing) {
        seq![MarkState::Letter { left: x, top: y, ch: c, color, under: bg }]
    } else {
        Seq::empty()
    }
}

/// The letters of the first `n` characters of a text that begins at (`x`, `y`).
pub open spec fn text_marks(
    text: Seq<char>,
    n: int,
    narrow: bool,
    x: int,
    y: int,
    cw: int,
    color: Rgba,
    bg: Tint,
    missing: Seq<char>,
) -> Seq<MarkState>
    decreases n,
{
    if n <= 0 {
        Seq::empty()
    } else {
        text_marks(text, n - 1, narrow, x, y, cw, color, bg, missing) + letter_marks(
            text[n - 1],
            x + text_reach(text, n - 1, narrow, cw, missing),
            y,
            color,
            bg,
            missing,
        )
    }
}

/// How many characters of a text are drawn where `limit` are at most.
pub open spec fn cut(text: Seq<char>, limit: int) -> int {
    if text.len() < limit {
        text.len() as int
    } else {
        limit
    }
}

/// The surface of a button and the letter in its middle: the one asked for, or
/// an `x` in its place.
pub open spec fn button_marks(
    ch: char,
    a: Area,
    color: Rgba,
    bg: Tint,
    m: CellMetrics,
    missing: Seq<char>,
) -> Seq<MarkState> {
    let surface = MarkState::Surface {
        left: 20 * a.left,
        top: 20 * a.top,
        width: 20 * a.width,
        height: 20 * a.height,
        tint: bg,
    };
    let x = 20 * a.left + 10 * (a.width - m.cell_width);
    let y = 20 * a.top + 10 * (a.height - m.cell_height);
    let shown = if leaves_ink(ch, missing) {
        ch
    } else {
        'x'
    };
    seq![surface] + letter_marks(shown, x, y, color, bg, missing)
}

/// The marks of tab `i`: its surface, its title and its close button.
pub open spec fn tab_marks(
    bar: TabBar,
    i: int,
    text: Rgba,
    m: CellMetrics,
    missing: Seq<char>,
) -> Seq<MarkState> {
    let tint = Tint {
        color: tab_color(i == bar.active),
        tab: shade_of(bar, TabBarTarget::Tab(i as usize)),
        button: Shade::Plain,
    };
    let x = 20 * TAB_WIDTH * i;
    let title = bar.titles@[i]@;
    let close = Tint { button: shade_of(bar, TabBarTarget::Close(i as usize)), ..tint };
    seq![
        MarkState::Surface { left: x, top: 0, width: 20 * TAB_WIDTH, height: 20 * m.top, tint },
    ] + text_marks(
        title,
        cut(title, TITLE_LIMIT as int),
        true,
        x + 160,
        10 * (m.top - m.cell_height),
        m.cell_width as int,
        text,
        tint,
        missing,
    ) + button_marks('\u{d7}', close_area(i), text, close, m, missing)
}

/// The marks of the first `n` tabs.
pub open spec fn tabs_marks(
    bar: TabBar,
    n: int,
    text: Rgba,
    m: CellMetrics,
    missing: Seq<char>,
) -> Seq<MarkState>
    decreases n,
{
    if n <= 0 {
        Seq::empty()
    } else {
        tabs_marks(bar, n - 1, text, m, missing) + tab_marks(bar, n - 1, text, m, missing)
    }
}

/// The marks of the tab bar of a window `width` pixels wide: its background,
/// the tabs, and the buttons that open a tab and the search.
pub open spec fn tab_bar_marks(
    bar: TabBar,
    text: Rgba,
    m: CellMetrics,
    width: int,
    missing: Seq<char>,
) -> Seq<MarkState> {
    let header = unshaded(header_color());
    let new_tab = Tint { button: shade_of(bar, TabBarTarget::NewTab), ..header };
    let search = Tint { button: shade_of(bar, TabBarTarget::Search), ..header };
    seq![
        MarkState::Surface { left: 0, top: 0, width: 20 * width, height: 20 * m.top, tint: header },
    ] + tabs_marks(bar, bar.titles@.len() as int, text, m, missing) + button_marks(
        '+',
        new_tab_area(width),
        text,
        new_tab,
        m,
        missing,
    ) + button_marks('S', search_area(width), text, search, m, missing)
}

/// The marks of the search bar of a window `width` pixels wide: a surface at
/// its upper right, and the line on it.
pub open spec fn search_bar_marks(
    line: Seq<char>,
    m: CellMetrics,
    width: int,
    missing: Seq<char>,
) -> Seq<MarkState> {
    let w: int = if width - 16 < 320 {
        width - 16
    } else {
        320
    };
    let x = 20 * (width - w - 8);
    let y = 20 * (m.top + 8);
    let bg = unshaded(opaque(0x31, 0x32, 0x44));
    seq![MarkState::Surface { left: x, top: y, width: 20 * w, height: 720, tint: bg }] + text_marks(
        line,
        cut(line, STATUS_LIMIT as int),
        false,
        x + 240,
        y + 10 * (36 - m.cell_height),
        m.cell_width as int,
        opaque(0xcd, 0xd6, 0xf4),
        bg,
        missing,
    )
}

fn shade(bar: &TabBar, target: TabBarTarget) -> (r: Shade)
    ensures
        r == shade_of(*bar, target),
{
    if bar.is_pressed(target) {
        Shade::Pressed
    } else if bar.is_hovered(target) {
        Shade::Hovered
    } else {
        Shade::Plain
    }
}

fn is_inked(c: char, missing: &Vec<char>) -> (r: bool)
    ensures
        r == leaves_ink(c, missing@),
{
    if is_blank_glyph(c) {
        return false;
    }
    let mut i: usize = 0;
    while i < missing.len()
        invariant
            i <= missing@.len(),
            forall|j: int| 0 <= j < i ==> missing@[j] != c,
        decreases missing@.len() - i,
    {
        if missing[i] == c {
            return false;
        }
        i += 1;
    }
    true
}

fn push_mark(marks: &mut Vec<Mark>, mark: Mark)
    ensures
        marks_view(final(marks)@) == marks_view(old(marks)@).push(mark@),
{
    let ghost before = marks_view(marks@);
    marks.push(mark);
    proof {
        assert(marks_view(marks@) =~= before.push(mark@));
    }
}

fn push_letter(
    marks: &mut Vec<Mark>,
    c: char,
    x: i128,
    y: i128,
    color: Rgba,
    bg: Tint,
    missing: &Vec<char>,
)
    ensures
        marks_view(final(marks)@) == marks_view(old(marks)@) + letter_marks(
            c,
            x as int,
            y as int,
            color,
            bg,
            missing@,
        ),
{
    let ghost before = marks_view(marks@);
    if is_inked(c, missing) {
        push_mark(marks, Mark::Letter { left: x, top: y, ch: c, color, under: bg });
    }
    proof {
        assert(marks_view(marks@) =~= before + letter_marks(
            c,
            x as int,
            y as int,
            color,
            bg,
            missing@,
        ));
    }
}

fn push_text(
    marks: &mut Vec<Mark>,
    text: &str,
    limit: usize,
    narrow: bool,
    x: i128,
    y: i128,
    cw: u32,
    color: Rgba,
    bg: Tint,
    missing: &Vec<char>,
)
    requires
        limit <= 40,
        -0x1_0000_0000_0000_0000_0000 <= x <= 0x1_0000_0000_0000_0000_0000,
    ensures
        marks_view(final(marks)@) == marks_view(old(marks)@) + text_marks(
            text@,
            cut(text@, limit as int),
            narrow,
            x as int,
            y as int,
            cw as int,
            color,
            bg,
            missing@,
        ),
{
    let ghost before = marks_view(marks@);
    let chars = chars_of(text);
    let n: usize = if chars.len() < limit {
        chars.len()
    } else {
        limit
    };
    let mut reach: i128 = 0;
    let mut i: usize = 0;
    proof {
        assert(before + Seq::<MarkState>::empty() =~= before);
    }
    while i < n
        invariant
            i <= n <= 40,
            n <= chars@.len(),
            chars@ == text@,
            -0x1_0000_0000_0000_0000_0000 <= x <= 0x1_0000_0000_0000_0000_0000,
            reach == text_reach(text@, i as int, narrow, cw as int, missing@),
            0 <= reach <= i * 0x20_0000_0000,
            marks_view(marks@) == before + text_marks(
                text@,
                i as int,
                narrow,
                x as int,
                y as int,
                cw as int,
                color,
                bg,
                missing@,
            ),
        decreases n - i,
    {
        let c: char = chars[i];
        push_letter(marks, c, x + reach, y, color, bg, missing);
        if narrow && c == ' ' {
            reach = reach + 10 * cw as i128;
        } else if is_inked(c, missing) {
            reach = reach + 20 * cw as i128;
        }
        i += 1;
        proof {
            assert(marks_view(marks@) =~= before + text_marks(
                text@,
                i as int,
                narrow,
                x as int,
                y as int,
                cw as int,
                color,
                bg,
                missing@,
            ));
        }
    }
}

fn push_button(
    marks: &mut Vec<Mark>,
    ch: char,
    a: Area,
    color: Rgba,
    bg: Tint,
    m: CellMetrics,
    missing: &Vec<char>,
)
    requires
        -0x1_0000_0000 <= a.left <= 0x100_0000_0000_0000_0000,
        0 <= a.top <= 0x1_0000_0000,
        0 <= a.width <= 0x1_0000_0000,
        0 <= a.height <= 0x1_0000_0000,
    ensures
        marks_view(final(marks)@) == marks_view(old(marks)@) + button_marks(
            ch,
            a,
            color,
            bg,
            m,
            missing@,
        ),
{
    let ghost before = marks_view(marks@);
    push_mark(
        marks,
        Mark::Surface {
            left: 20 * a.left,
            top: 20 * a.top,
            width: 20 * a.width,
            height: 20 * a.height,
            tint: bg,
        },
    );
    let x: i128 = 20 * a.left + 10 * (a.width - m.cell_width as i128);
    let y: i128 = 20 * a.top + 10 * (a.height - m.cell_height as i128);
    let shown: char = if is_inked(ch, missing) {
        ch
    } else {
        'x'
    };
    push_letter(marks, shown, x, y, color, bg, missing);
    proof {
        assert(marks_view(marks@) =~= before + button_marks(ch, a, color, bg, m, missing@));
    }
}

fn push_tab(
    marks: &mut Vec<Mark>,
    bar: &TabBar,
    i: usize,
    text: Rgba,
    m: CellMetrics,
    missing: &Vec<char>,
)
    requires
        i < bar.titles@.len(),
    ensures
        marks_view(final(marks)@) == marks_view(old(marks)@) + tab_marks(
            *bar,
            i as int,
            text,
            m,
            missing@,
        ),
{
    let ghost before = marks_view(marks@);
    let color = if i == bar.active {
        Rgba { r: 0x31, g: 0x32, b: 0x44, a: 255 }
    } else {
        Rgba { r: 0x1e, g: 0x1e, b: 0x2e, a: 255 }
    };
    let tint = Tint { color, tab: shade(bar, TabBarTarget::Tab(i)), button: Shade::Plain };
    let close = Tint { button: shade(bar, TabBarTarget::Close(i)), ..tint };
    let side: i128 = TAB_WIDTH as i128;
    let x: i128 = 20 * side * i as i128;
    push_mark(
        marks,
        Mark::Surface { left: x, top: 0, width: 20 * side, height: 20 * m.top as i128, tint },
    );
    push_text(
        marks,
        bar.titles[i].as_str(),
        TITLE_LIMIT,
        true,
        x + 160,
        10 * (m.top as i128 - m.cell_height as i128),
        m.cell_width,
        text,
        tint,
        missing,
    );
    push_button(marks, '\u{d7}', bar.close_button_rect(i), text, close, m, missing);
    proof {
        assert(marks_view(marks@) =~= before + tab_marks(*bar, i as int, text, m, missing@));
    }
}

/// The marks of the tab bar of a window `width` pixels wide, in drawing order.
/// `missing` lists the characters that have no glyph.
pub fn plan_tab_bar(
    bar: &TabBar,
    text: Rgba,
    m: CellMetrics,
    width: u32,
    missing: &Vec<char>,
) -> (r: Vec<Mark>)
    ensures
        marks_view(r@) == tab_bar_marks(*bar, text, m, width as int, missing@),
{
    let header = Tint {
        color: Rgba { r: 0x18, g: 0x18, b: 0x25, a: 255 },
        tab: Shade::Plain,
        button: Shade::Plain,
    };
    let mut marks: Vec<Mark> = Vec::new();
    push_mark(
        &mut marks,
        Mark::Surface {
            left: 0,
            top: 0,
            width: 20 * width as i128,
            height: 20 * m.top as i128,
            tint: header,
        },
    );
    let ghost back = marks_view(marks@);
    let n: usize = bar.titles.len();
    let mut i: usize = 0;
    proof {
        assert(back + Seq::<MarkState>::empty() =~= back);
    }
    while i < n
        invariant
            i <= n,
            n == bar.titles@.len(),
            marks_view(marks@) == back + tabs_marks(*bar, i as int, text, m, missing@),
        decreases n - i,
    {
        push_tab(&mut marks, bar, i, text, m, missing);
        i += 1;
        proof {
            assert(marks_view(marks@) =~= back + tabs_marks(*bar, i as int, text, m, missing@));
        }
    }
    let new_tab = Tint { button: shade(bar, TabBarTarget::NewTab), ..header };
    push_button(&mut marks, '+', bar.new_tab_button_rect(width), text, new_tab, m, missing);
    let search = Tint { button: shade(bar, TabBarTarget::Search), ..header };
    push_button(&mut marks, 'S', bar.search_button_rect(width), text, search, m, missing);
    proof {
        assert(marks_view(marks@) =~= tab_bar_marks(*bar, text, m, width as int, missing@));
    }
    marks
}

/// The marks of the search bar of a window `width` pixels wide, in drawing
/// order. `missing` lists the characters that have no glyph.
pub fn plan_search_bar(
    search: &SearchState,
    m: CellMetrics,
    width: u32,
    missing: &Vec<char>,
) -> (r: Vec<Mark>)
    requires
        search.current_match < usize::MAX,
    ensures
        marks_view(r@) == search_bar_marks(
            status_text(
                search.query@,
                search.mode == SearchMode::Reverse,
                search.current_match as int,
                search.matches@.len() as int,
            ),
            m,
            width as int,
            missing@,
        ),
{
    let line = search_status(search);
    let room: i128 = width as i128 - 16;
    let w: i128 = if room < 320 {
        room
    } else {
        320
    };
    let x: i128 = 20 * (width as i128 - w - 8);
    let y: i128 = 20 * (m.top as i128 + 8);
    let bg = Tint {
        color: Rgba { r: 0x31, g: 0x32, b: 0x44, a: 255 },
        tab: Shade::Plain,
        button: Shade::Plain,
    };
    let mut marks: Vec<Mark> = Vec::new();
    push_mark(&mut marks, Mark::Surface { left: x, top: y, width: 20 * w, height: 720, tint: bg });
    push_text(
        &mut marks,
        line.as_str(),
        STATUS_LIMIT,
        false,
        x + 240,
        y + 10 * (36 - m.cell_height as i128),
        m.cell_width,
        Rgba { r: 0xcd, g: 0xd6, b: 0xf4, a: 255 },
        bg,
        missing,
    );
    proof {
        assert(marks_view(marks@) =~= search_bar_marks(line@, m, width as int, missing@));
    }
    marks
}

proof fn marks_are_kept(
    g: GridState,
    sel: Selection,
    colors: FrameColors,
    m: CellMetrics,
    wanted: spec_fn(int, int) -> bool,
    row: int,
    col: int,
    r: int,
    c: int,
    mark: MarkState,
)
    requires
        0 <= r <= row,
        0 <= c < g.screen.cols,
        r == row ==> c < col,
        0 <= col <= g.screen.cols,
        wanted(r, c),
        cell_marks(g, sel, colors, m, r, c).contains(mark),
    ensures
        marks_before(g, sel, colors, m, wanted, row, col).contains(mark),
    decreases row, col,
{
    let all = marks_before(g, sel, colors, m, wanted, row, col);
    if col > 0 {
        let rest = marks_before(g, sel, colors, m, wanted, row, col - 1);
        let cell = cell_marks(g, sel, colors, m, row, col - 1);
        if r == row && c == col - 1 {
            let k = choose|k: int| 0 <= k < cell.len() && cell[k] == mark;
            assert(all == rest + cell);
            assert(all[rest.len() + k] == mark);
        } else {
            marks_are_kept(g, sel, colors, m, wanted, row, col - 1, r, c, mark);
            let k = choose|k: int| 0 <= k < rest.len() && rest[k] == mark;
            assert(all[k] == mark);
        }
    } else {
        marks_are_kept(g, sel, colors, m, wanted, row - 1, g.screen.cols, r, c, mark);
    }
}

/// Every cell of the screen is drawn at its place in a full frame: its
/// background, and its character unless it has none to show. Inverse video, of
/// the cell or of the screen but not of both, swaps the two colors, and a
/// selected cell has those of a selection.
pub proof fn every_cell_is_drawn(
    g: GridState,
    sel: Selection,
    colors: FrameColors,
    m: CellMetrics,
    dirty: Seq<(usize, usize)>,
    cursor_on: bool,
    row: int,
    col: int,
)
    requires
        g.wf(),
        g.view.offset == 0,
        0 <= row < g.screen.rows,
        0 <= col < g.screen.cols,
        g.line_modes[row] != 6,
    ensures
        ({
            let cell = g.screen.active()[row][col];
            let swaps = (cell.attrs@.inverse && !g.modes.screen_reverse) || (
            !cell.attrs@.inverse && g.modes.screen_reverse);
            let fg = resolved(cell.fg, true, colors, g.palette);
            let bg = resolved(cell.bg, false, colors, g.palette);
            let front = if sel.selects(row, col) {
                colors.selection_fg
            } else if swaps {
                bg
            } else {
                fg
            };
            let back = if sel.selects(row, col) {
                colors.selection_bg
            } else if swaps {
                fg
            } else {
                bg
            };
            let x = 20 * m.cell_width * col;
            let y = 20 * m.top + 20 * m.cell_height * row;
            let marks = frame_marks(g, sel, colors, m, true, dirty, cursor_on);
            &&& marks.contains(
                MarkState::Fill {
                    x,
                    y,
                    w: 20 * m.cell_width as int,
                    h: 20 * m.cell_height as int,
                    color: back,
                    dim: false,
                },
            )
            &&& !cell.wide_filler && !cell.attrs@.invisible && cell.ch != ' ' ==> marks.contains(
                MarkState::Glyph {
                    x,
                    y,
                    ch: cell.ch,
                    tail: cell.combining,
                    bold: cell.attrs@.bold,
                    italic: cell.attrs@.italic,
                    color: front,
                    dim: cell.attrs@.dim || cell.attrs@.blink,
                    bg: back,
                },
            )
        }),
{
    let cell = g.screen.active()[row][col];
    let (front, back) = cell_colors(g, cell, sel.selects(row, col), colors);
    let cw = 20 * m.cell_width;
    let ch = 20 * m.cell_height;
    let x = 20 * m.cell_width * col;
    let y = 20 * m.top + 20 * m.cell_height * row;
    assert(x == col * cw) by (nonlinear_arith)
        requires
            x == 20 * m.cell_width * col,
            cw == 20 * m.cell_width,
    ;
    assert(20 * m.cell_height * row == row * ch) by (nonlinear_arith)
        requires
            ch == 20 * m.cell_height,
    ;
    let own = cell_marks(g, sel, colors, m, row, col);
    let base = fill(x, y, cw as int, ch as int, back, false);
    assert(own[0] == base);
    let w = wanted(true, dirty);
    let cells = marks_before(g, sel, colors, m, w, g.screen.rows - 1, g.screen.cols);
    let marks = frame_marks(g, sel, colors, m, true, dirty, cursor_on);
    assert(w(row, col));
    marks_are_kept(g, sel, colors, m, w, g.screen.rows - 1, g.screen.cols, row, col, base);
    let k = choose|k: int| 0 <= k < cells.len() && cells[k] == base;
    assert(marks[k] == base);
    if !inkless(cell) {
        let ink = own[1];
        assert(ink == ink_marks(cell, x, y, cw as int, cw as int, ch as int, front, back)[0]);
        marks_are_kept(g, sel, colors, m, w, g.screen.rows - 1, g.screen.cols, row, col, ink);
        let j = choose|j: int| 0 <= j < cells.len() && cells[j] == ink;
        assert(marks[j] == ink);
    }
}

/// A mark lies within a rectangle.
pub open spec fn lies_in(m: MarkState, x: int, y: int, w: int, h: int) -> bool {
    m matches MarkState::Fill { x: a, y: b, w: c, h: d, .. } && x <= a && y <= b && a + c <= x + w
        && b + d <= y + h && 0 <= c && 0 < d
}

/// An underline lies in the lower part of its cell and has the color of the
/// text; each style has its own strokes, and no underline has none.
pub proof fn underlines_lie_below(
    style: u8,
    x: int,
    y: int,
    w: int,
    h: int,
    color: Rgba,
    dim: bool,
    i: int,
)
    requires
        0 <= w,
        80 <= h,
    ensures
        ({
            let marks = underline_marks(style, x, y, w, h, color, dim);
            &&& marks.len() == if style == 1 || style == 5 {
                1nat
            } else if 2 <= style <= 4 {
                2nat
            } else {
                0nat
            }
            &&& 0 <= i < marks.len() ==> {
                &&& lies_in(marks[i], x, y + h - 80, w, 80)
                &&& marks[i]->Fill_color == color && marks[i]->Fill_dim == dim
                &&& style <= 2 ==> marks[i]->Fill_x == x && marks[i]->Fill_w == w
                &&& style == 1 ==> marks[i]->Fill_y + marks[i]->Fill_h == y + h
            }
            &&& style == 2 ==> marks[0]->Fill_y + marks[0]->Fill_h < marks[1]->Fill_y
            &&& style == 3 || style == 4 ==> marks[0]->Fill_x < marks[1]->Fill_x || w < 2
        }),
{
    reveal(underline_marks);
}

/// The cursor is drawn in the cell that it is at, as long as it is shown, and
/// nowhere when it is not.
pub proof fn cursor_is_drawn_in_its_cell(
    g: GridState,
    colors: FrameColors,
    m: CellMetrics,
    cursor_on: bool,
)
    requires
        g.wf(),
        g.view.offset == 0,
        g.col < g.screen.cols,
        2 <= m.cell_width,
        2 <= m.cell_height,
    ensures
        ({
            let marks = cursor_marks(g, colors, m, cursor_on);
            let x = 20 * m.cell_width * g.col;
            let y = 20 * m.top + 20 * m.cell_height * g.row;
            if g.modes.cursor_visible && cursor_on {
                &&& marks.len() == 1
                &&& lies_in(marks[0], x, y, 20 * m.cell_width, 20 * m.cell_height)
                &&& marks[0]->Fill_color == colors.cursor
                &&& g.modes.cursor_shape <= 2 ==> marks[0]->Fill_w == 20 * m.cell_width
                    && marks[0]->Fill_h == 20 * m.cell_height
                &&& g.modes.cursor_shape == 3 || g.modes.cursor_shape == 4 ==> marks[0]->Fill_w
                    == 20 * m.cell_width && marks[0]->Fill_y + marks[0]->Fill_h == y + 20
                    * m.cell_height && marks[0]->Fill_h == 40
                &&& g.modes.cursor_shape == 5 || g.modes.cursor_shape == 6 ==> marks[0]->Fill_h
                    == 20 * m.cell_height && marks[0]->Fill_x == x && marks[0]->Fill_w == 40
            } else {
                marks.len() == 0
            }
        }),
{
    let cw = 20 * m.cell_width;
    let ch = 20 * m.cell_height;
    assert(20 * m.cell_width * g.col == g.col * cw) by (nonlinear_arith)
        requires
            cw == 20 * m.cell_width,
    ;
    assert(20 * m.cell_height * g.row == g.row * ch) by (nonlinear_arith)
        requires
            ch == 20 * m.cell_height,
    ;
}

proof fn tab_is_among(
    bar: TabBar,
    n: int,
    text: Rgba,
    m: CellMetrics,
    missing: Seq<char>,
    i: int,
    mark: MarkState,
)
    requires
        0 <= i < n,
        tab_marks(bar, i, text, m, missing).contains(mark),
    ensures
        tabs_marks(bar, n, text, m, missing).contains(mark),
    decreases n,
{
    let all = tabs_marks(bar, n, text, m, missing);
    let rest = tabs_marks(bar, n - 1, text, m, missing);
    let last = tab_marks(bar, n - 1, text, m, missing);
    assert(all == rest + last);
    if i == n - 1 {
        let k = choose|k: int| 0 <= k < last.len() && last[k] == mark;
        assert(all[rest.len() + k] == mark);
    } else {
        tab_is_among(bar, n - 1, text, m, missing, i, mark);
        let k = choose|k: int| 0 <= k < rest.len() && rest[k] == mark;
        assert(all[k] == mark);
    }
}

/// Every tab is drawn side by side with the others, the active one in its own
/// color, and its close button is drawn where a press on it is taken for one.
pub proof fn tabs_are_drawn_where_they_are_hit(
    bar: TabBar,
    text: Rgba,
    m: CellMetrics,
    width: int,
    missing: Seq<char>,
    i: int,
    x: int,
    y: int,
)
    requires
        0 <= i < bar.titles@.len() <= 0xffff_ffff,
    ensures
        ({
            let marks = tab_bar_marks(bar, text, m, width, missing);
            let color = if i == bar.active {
                Rgba { r: 0x31, g: 0x32, b: 0x44, a: 255 }
            } else {
                Rgba { r: 0x1e, g: 0x1e, b: 0x2e, a: 255 }
            };
            let close = MarkState::Surface {
                left: 20 * ((i + 1) * TAB_WIDTH - HIT_SIZE),
                top: 0,
                width: 20 * HIT_SIZE,
                height: 20 * HIT_SIZE,
                tint: Tint {
                    color,
                    tab: shade_of(bar, TabBarTarget::Tab(i as usize)),
                    button: shade_of(bar, TabBarTarget::Close(i as usize)),
                },
            };
            &&& marks.contains(
                MarkState::Surface {
                    left: 20 * TAB_WIDTH * i,
                    top: 0,
                    width: 20 * TAB_WIDTH,
                    height: 20 * m.top,
                    tint: Tint {
                        color,
                        tab: shade_of(bar, TabBarTarget::Tab(i as usize)),
                        button: Shade::Plain,
                    },
                },
            )
            &&& marks.contains(close)
            &&& (i + 1) * TAB_WIDTH - HIT_SIZE <= x < (i + 1) * TAB_WIDTH && 0 <= y < HIT_SIZE
                ==> target_of(bar.titles@.len() as int, x, y, width) == Some(
                TabBarTarget::Close(i as usize),
            )
        }),
{
    let n = bar.titles@.len() as int;
    let own = tab_marks(bar, i, text, m, missing);
    let surface = own[0];
    let tint = Tint {
        color: tab_color(i == bar.active),
        tab: shade_of(bar, TabBarTarget::Tab(i as usize)),
        button: Shade::Plain,
    };
    let title = bar.titles@[i]@;
    let letters = text_marks(
        title,
        cut(title, TITLE_LIMIT as int),
        true,
        20 * TAB_WIDTH * i + 160,
        10 * (m.top - m.cell_height),
        m.cell_width as int,
        text,
        tint,
        missing,
    );
    let close = Tint { button: shade_of(bar, TabBarTarget::Close(i as usize)), ..tint };
    let button = button_marks('\u{d7}', close_area(i), text, close, m, missing);
    assert(own[(1 + letters.len()) as int] == button[0]);
    tab_is_among(bar, n, text, m, missing, i, surface);
    tab_is_among(bar, n, text, m, missing, i, button[0]);
    let tabs = tabs_marks(bar, n, text, m, missing);
    let marks = tab_bar_marks(bar, text, m, width, missing);
    let k = choose|k: int| 0 <= k < tabs.len() && tabs[k] == surface;
    assert(marks[1 + k] == surface);
    let j = choose|j: int| 0 <= j < tabs.len() && tabs[j] == button[0];
    assert(marks[1 + j] == button[0]);
    if (i + 1) * TAB_WIDTH - HIT_SIZE <= x < (i + 1) * TAB_WIDTH && 0 <= y < HIT_SIZE {
        crate::tab_bar::close_buttons_are_hit(n, i, x, y, width);
    }
}

/// The letters of a text stand side by side, a cell each, in the order of the
/// text.
pub proof fn letters_stand_side_by_side(
    text: Seq<char>,
    n: int,
    narrow: bool,
    x: int,
    y: int,
    cw: int,
    color: Rgba,
    bg: Tint,
    missing: Seq<char>,
    k: int,
)
    requires
        0 <= k < n <= text.len(),
        forall|i: int|
            0 <= i < n ==> '!' <= #[trigger] text[i] && !missing.contains(text[i]),
    ensures
        ({
            let marks = text_marks(text, n, narrow, x, y, cw, color, bg, missing);
            &&& marks.len() == n
            &&& marks[k] == (MarkState::Letter {
                left: x + 20 * cw * k,
                top: y,
                ch: text[k],
                color,
                under: bg,
            })
        }),
{
    letters_follow(text, n, narrow, x, y, cw, color, bg, missing, k);
    text_reaches(text, k, narrow, cw, missing);
}

proof fn letters_follow(
    text: Seq<char>,
    n: int,
    narrow: bool,
    x: int,
    y: int,
    cw: int,
    color: Rgba,
    bg: Tint,
    missing: Seq<char>,
    k: int,
)
    requires
        0 <= k < n <= text.len(),
        forall|i: int|
            0 <= i < n ==> '!' <= #[trigger] text[i] && !missing.contains(text[i]),
    ensures
        ({
            let marks = text_marks(text, n, narrow, x, y, cw, color, bg, missing);
            &&& marks.len() == n
            &&& marks[k] == (MarkState::Letter {
                left: x + text_reach(text, k, narrow, cw, missing),
                top: y,
                ch: text[k],
                color,
                under: bg,
            })
        }),
    decreases n,
{
    let front = text_marks(text, n - 1, narrow, x, y, cw, color, bg, missing);
    let place = x + text_reach(text, n - 1, narrow, cw, missing);
    one_letter(text[n - 1], place, y, color, bg, missing);
    if n > 1 {
        let j = if k < n - 1 {
            k
        } else {
            0
        };
        letters_follow(text, n - 1, narrow, x, y, cw, color, bg, missing, j);
    }
    assert(front.len() == n - 1);
    let last = letter_marks(text[n - 1], place, y, color, bg, missing);
    assert(text_marks(text, n, narrow, x, y, cw, color, bg, missing) == front + last);
    if k == n - 1 {
        assert((front + last)[k] == last[0]);
    } else {
        assert((front + last)[k] == front[k]);
    }
}

proof fn one_letter(c: char, x: int, y: int, color: Rgba, bg: Tint, missing: Seq<char>)
    requires
        '!' <= c,
        !missing.contains(c),
    ensures
        letter_marks(c, x, y, color, bg, missing).len() == 1,
        letter_marks(c, x, y, color, bg, missing)[0] == (MarkState::Letter {
            left: x,
            top: y,
            ch: c,
            color,
            under: bg,
        }),
{
    assert(leaves_ink(c, missing));
}

proof fn text_reaches(text: Seq<char>, n: int, narrow: bool, cw: int, missing: Seq<char>)
    requires
        0 <= n <= text.len(),
        forall|i: int|
            0 <= i < n ==> '!' <= #[trigger] text[i] && !missing.contains(text[i]),
    ensures
        text_reach(text, n, narrow, cw, missing) == 20 * cw * n,
    decreases n,
{
    if n > 0 {
        text_reaches(text, n - 1, narrow, cw, missing);
        assert(leaves_ink(text[n - 1], missing));
        assert(20 * cw * n == 20 * cw * (n - 1) + 20 * cw) by (nonlinear_arith);
    } else {
        assert(20 * cw * 0 == 0);
    }
}

/// The line of the search bar begins with the query and ends with the number of
/// the current match, counted from 1, and that of all; with no match both are 0.
pub proof fn status_names_the_match(query: Seq<char>, reverse: bool, current: nat, count: nat)
    ensures
        ({
            let line = status_text(query, reverse, current as int, count as int);
            let n = if count == 0 {
                0nat
            } else {
                current + 1
            };
            let end = decimal_text(n) + seq!['/'] + decimal_text(count);
            &&& line.len() >= 1 + query.len() + end.len()
            &&& line[0] == '/'
            &&& line.subrange(1, 1 + query.len() as int) == query
            &&& line.skip(line.len() - end.len()) == end
        }),
{
    let line = status_text(query, reverse, current as int, count as int);
    let n = if count == 0 {
        0nat
    } else {
        current + 1
    };
    reveal_strlit("/");
    reveal_strlit("  ");
    assert("/"@ =~= seq!['/']);
    let end = decimal_text(n) + seq!['/'] + decimal_text(count);
    let kind = if reverse {
        "reverse"@
    } else {
        "search"@
    };
    let front = "/"@ + query + "  "@ + kind + "  "@;
    assert(line =~= front + end);
    assert(line.subrange(1, 1 + query.len() as int) =~= query);
    assert(line.skip(line.len() - end.len()) =~= end);
}

} // verus!
