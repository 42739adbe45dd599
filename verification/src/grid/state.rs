//! The mathematical model of the terminal: what the grid's contracts speak of.
use vstd::prelude::*;

use super::attrs::{Attrs, Color, PaletteState};
use super::cell::{
    blank_line, deleted, dirtied_line, erased, inserted, CellState, Cursor, MouseEncoding,
    MouseMode, WinSize,
};
use crate::sixel::{ImageState, PlacementState, MAX_LIVE_SIXELS};

verus! {

/// The two screens with their history and what moves along with the lines.
pub struct ScreenState {
    pub cols: int,
    pub rows: int,
    pub primary: Seq<Seq<CellState>>,
    pub alt: Seq<Seq<CellState>>,
    pub alt_active: bool,
    /// Lines that left the top of the primary screen, oldest first.
    pub scrollback: Seq<Seq<CellState>>,
    /// The most lines that the scrollback keeps.
    pub capacity: int,
    /// Shell-integration marker of each visible row.
    pub markers: Seq<u8>,
    /// Shell-integration marker of each scrollback line.
    pub history_markers: Seq<u8>,
    /// Rows of the active screen known to be blank.
    pub is_blank: Seq<bool>,
    /// Blank rows that are to be drawn again.
    pub blank_dirty: Seq<bool>,
    /// Images on the screen, oldest first.
    pub images: Seq<PlacementState>,
}

/// `s` with the elements of `[top, bot]` moved `n` places towards the start;
/// the vacated ones become `fill`.
pub open spec fn shifted_up<T>(s: Seq<T>, top: int, bot: int, n: int, fill: T) -> Seq<T> {
    Seq::new(
        s.len(),
        |i: int|
            if top <= i <= bot {
                if i + n <= bot {
                    s[i + n]
                } else {
                    fill
                }
            } else {
                s[i]
            },
    )
}

/// `s` with the elements of `[top, bot]` moved `n` places towards the end; the
/// vacated ones become `fill`.
pub open spec fn shifted_down<T>(s: Seq<T>, top: int, bot: int, n: int, fill: T) -> Seq<T> {
    Seq::new(
        s.len(),
        |i: int|
            if top <= i <= bot {
                if i - n >= top {
                    s[i - n]
                } else {
                    fill
                }
            } else {
                s[i]
            },
    )
}

/// Where an image of the band `[top, bot]` stands after the band has scrolled
/// by `n`, or `None` where it is scrolled away.
pub open spec fn image_scrolled(
    p: PlacementState,
    top: int,
    bot: int,
    n: int,
    up: bool,
) -> Option<PlacementState> {
    if p.row < top || p.row > bot {
        Some(p)
    } else if up {
        if p.row < n {
            None
        } else {
            Some(PlacementState { row: p.row - n, ..p })
        }
    } else if p.row + n > bot {
        None
    } else {
        Some(PlacementState { row: p.row + n, ..p })
    }
}

/// The images after the band `[top, bot]` has scrolled by `n`.
pub open spec fn images_scrolled(
    images: Seq<PlacementState>,
    top: int,
    bot: int,
    n: int,
    up: bool,
) -> Seq<PlacementState>
    decreases images.len(),
{
    if images.len() == 0 {
        images
    } else {
        let rest = images_scrolled(images.drop_last(), top, bot, n, up);
        match image_scrolled(images.last(), top, bot, n, up) {
            Some(p) => rest.push(p),
            None => rest,
        }
    }
}

/// True when the image is anchored in rows `r0..=r1` and columns `c0..c1`.
pub open spec fn image_in(p: PlacementState, r0: int, r1: int, c0: int, c1: int) -> bool {
    r0 <= p.row <= r1 && c0 <= p.col < c1
}

/// The images that are not anchored in this rectangle.
pub open spec fn images_outside(
    images: Seq<PlacementState>,
    r0: int,
    r1: int,
    c0: int,
    c1: int,
) -> Seq<PlacementState>
    decreases images.len(),
{
    if images.len() == 0 {
        images
    } else {
        let rest = images_outside(images.drop_last(), r0, r1, c0, c1);
        if image_in(images.last(), r0, r1, c0, c1) {
            rest
        } else {
            rest.push(images.last())
        }
    }
}

/// The last `max` elements of `s`.
pub open spec fn last_of<T>(s: Seq<T>, max: int) -> Seq<T> {
    if s.len() <= max {
        s
    } else {
        s.subrange(s.len() - max, s.len() as int)
    }
}

impl ScreenState {
    /// The lines of the screen that is shown.
    pub open spec fn active(self) -> Seq<Seq<CellState>> {
        if self.alt_active {
            self.alt
        } else {
            self.primary
        }
    }

    pub open spec fn with_active(self, lines: Seq<Seq<CellState>>) -> ScreenState {
        if self.alt_active {
            ScreenState { alt: lines, ..self }
        } else {
            ScreenState { primary: lines, ..self }
        }
    }

    /// Line `r` of the shown screen replaced by `line`.
    #[verifier::opaque]
    pub open spec fn put_line(self, r: int, line: Seq<CellState>) -> ScreenState {
        ScreenState { is_blank: self.is_blank.update(r, false), ..self }.with_active(
            self.active().update(r, line),
        )
    }

    /// The lines `r0..=r1` of the shown screen replaced by what `f` makes of
    /// each.
    #[verifier::opaque]
    pub open spec fn map_lines(
        self,
        r0: int,
        r1: int,
        f: spec_fn(int, Seq<CellState>) -> Seq<CellState>,
    ) -> ScreenState {
        ScreenState {
            is_blank: Seq::new(
                self.is_blank.len(),
                |r: int|
                    if r0 <= r <= r1 {
                        false
                    } else {
                        self.is_blank[r]
                    },
            ),
            ..self
        }.with_active(
            Seq::new(
                self.active().len(),
                |r: int|
                    if r0 <= r <= r1 {
                        f(r, self.active()[r])
                    } else {
                        self.active()[r]
                    },
            ),
        )
    }

    /// Every row of `[top, bot]` to be drawn again.
    #[verifier::opaque]
    pub open spec fn dirtied(self, top: int, bot: int) -> ScreenState {
        ScreenState {
            blank_dirty: Seq::new(
                self.blank_dirty.len(),
                |r: int| self.blank_dirty[r] || (top <= r <= bot && self.is_blank[r]),
            ),
            ..self
        }.with_active(
            Seq::new(
                self.active().len(),
                |r: int|
                    if top <= r <= bot && !self.is_blank[r] {
                        dirtied_line(self.active()[r])
                    } else {
                        self.active()[r]
                    },
            ),
        )
    }

    /// The lines `top..top + n` of the primary screen appended to the
    /// scrollback, with their markers; the oldest go beyond the capacity.
    #[verifier::opaque]
    pub open spec fn archived(self, top: int, n: int) -> ScreenState {
        ScreenState {
            scrollback: last_of(
                self.scrollback + self.primary.subrange(top, top + n),
                self.capacity,
            ),
            history_markers: last_of(
                self.history_markers + self.markers.subrange(top, top + n),
                self.capacity,
            ),
            ..self
        }
    }

    /// The lines of `[top, bot]` moved up by `n`, blank lines following.
    #[verifier::opaque]
    pub open spec fn lines_up(self, top: int, bot: int, n: int) -> ScreenState {
        ScreenState {
            markers: shifted_up(self.markers, top, bot, n, 0),
            is_blank: shifted_up(self.is_blank, top, bot, n, true),
            blank_dirty: shifted_up(self.blank_dirty, top, bot, n, true),
            images: images_scrolled(self.images, top, bot, n, true),
            ..self
        }.with_active(shifted_up(self.active(), top, bot, n, blank_line(self.cols)))
    }

    /// The lines of `[top, bot]` moved down by `n`, blank lines preceding.
    #[verifier::opaque]
    pub open spec fn lines_down(self, top: int, bot: int, n: int) -> ScreenState {
        ScreenState {
            markers: shifted_down(self.markers, top, bot, n, 0),
            is_blank: shifted_down(self.is_blank, top, bot, n, true),
            blank_dirty: shifted_down(self.blank_dirty, top, bot, n, true),
            images: images_scrolled(self.images, top, bot, n, false),
            ..self
        }.with_active(shifted_down(self.active(), top, bot, n, blank_line(self.cols)))
    }

    /// The same size, capacity and choice of screen.
    pub open spec fn same_shape(self, other: ScreenState) -> bool {
        &&& self.cols == other.cols
        &&& self.rows == other.rows
        &&& self.capacity == other.capacity
        &&& self.alt_active == other.alt_active
    }

    /// Sizes: every per-row list has one entry per row; the scrollback and its
    /// markers are parallel and within the capacity; the images are within
    /// theirs.
    pub open spec fn sized(self) -> bool {
        &&& 1 <= self.cols <= 65535
        &&& 1 <= self.rows <= 65535
        &&& self.primary.len() == self.rows
        &&& self.alt.len() == self.rows
        &&& self.scrollback.len() <= self.capacity
        &&& self.history_markers.len() == self.scrollback.len()
        &&& self.markers.len() == self.rows
        &&& self.is_blank.len() == self.rows
        &&& self.blank_dirty.len() == self.rows
        &&& self.images.len() <= MAX_LIVE_SIXELS
    }

    /// All lines have the width of the screen; a row known to be blank is
    /// blank.
    #[verifier::opaque]
    pub open spec fn filled(self) -> bool {
        &&& forall|r: int| 0 <= r < self.rows ==> (#[trigger] self.primary[r]).len() == self.cols
        &&& forall|r: int| 0 <= r < self.rows ==> (#[trigger] self.alt[r]).len() == self.cols
        &&& forall|r: int|
            0 <= r < self.rows && #[trigger] self.is_blank[r] ==> self.active()[r] == blank_line(
                self.cols,
            )
    }

    pub open spec fn wf(self) -> bool {
        self.sized() && self.filled()
    }
}

/// The colours and attributes that printing applies.
#[derive(Debug, Clone, Copy, PartialEq, Eq, Structural)]
pub struct Pen {
    pub fg: Color,
    pub bg: Color,
    pub attrs: Attrs,
}

impl Pen {
    /// Default colours, no attribute.
    pub open spec fn plain() -> Pen {
        Pen { fg: Color::Default, bg: Color::Default, attrs: Attrs::none() }
    }
}

/// What DECSC keeps.
pub struct Saved {
    pub row: int,
    pub col: int,
    pub pen: Pen,
}

/// Scroll region and left/right margins, all inclusive.
pub struct Margins {
    pub top: int,
    pub bottom: int,
    pub left: int,
    pub right: int,
    /// DECLRMM: the left and right margins are honoured.
    pub horizontal: bool,
}

/// The modes that applications set and reset.
#[derive(Debug, Clone, Copy, PartialEq, Eq, Structural)]
pub struct Modes {
    /// DECTCEM (?25).
    pub cursor_visible: bool,
    /// DECOM (?6).
    pub origin_mode: bool,
    /// DECAWM (?7).
    pub autowrap: bool,
    /// DECSCNM (?5).
    pub screen_reverse: bool,
    /// IRM (4).
    pub insert_mode: bool,
    /// DECSCUSR: 0/1 block-blink, 2 block, 3 underline-blink, 4 underline,
    /// 5 bar-blink, 6 bar.
    pub cursor_shape: u8,
    /// DECCKM (?1).
    pub application_cursor_keys: bool,
    /// DECNKM (?66).
    pub keypad_app: bool,
    /// DECBKM (?67).
    pub backarrow_del: bool,
    /// ?2004.
    pub bracketed_paste: bool,
    /// ?1004.
    pub focus_reporting: bool,
    /// ?2026.
    pub synchronized_output: bool,
    /// ?2048.
    pub in_band_resize: bool,
    /// Printing leaves the marking of cells to one `mark_all_dirty`.
    pub bulk_output: bool,
    pub mouse_mode: MouseMode,
    pub mouse_encoding: MouseEncoding,
    /// xterm modifyOtherKeys.
    pub modify_other_keys: u8,
}

impl Modes {
    /// The modes at power-up.
    pub open spec fn initial() -> Modes {
        Modes {
            cursor_visible: true,
            origin_mode: false,
            autowrap: true,
            screen_reverse: false,
            insert_mode: false,
            cursor_shape: 0,
            application_cursor_keys: false,
            keypad_app: false,
            backarrow_del: false,
            bracketed_paste: false,
            focus_reporting: false,
            synchronized_output: false,
            in_band_resize: false,
            bulk_output: false,
            mouse_mode: MouseMode::Off,
            mouse_encoding: MouseEncoding::X10,
            modify_other_keys: 0,
        }
    }
}

/// Kitty keyboard flags, with a stack for each screen.
pub struct KeyboardState {
    pub flags: u8,
    pub stack: Seq<u8>,
    pub flags_primary: u8,
    pub stack_primary: Seq<u8>,
    pub flags_alt: u8,
    pub stack_alt: Seq<u8>,
}

/// What the terminal has for the application and the window system.
pub struct OutboxState {
    pub responses: Seq<Seq<u8>>,
    pub bell: bool,
    pub clipboard_set: Option<Seq<char>>,
    pub clipboard_query: bool,
    pub notification: Option<Seq<char>>,
    pub cwd: Option<Seq<char>>,
    pub resize_request: Option<WinSize>,
}

/// A device control string being received.
pub struct DcsState {
    pub buf: Seq<u8>,
    pub request: bool,
    pub sixel: bool,
}

/// OSC 8 hyperlinks.
pub struct LinksState {
    pub urls: Map<u32, Seq<char>>,
    pub active: u32,
    pub next: u32,
}

/// A kitty graphics transmission being received.
pub struct PendingState {
    pub format: u32,
    pub width: u32,
    pub height: u32,
    pub image_id: u32,
    pub transmit_only: bool,
    pub transmission: u8,
    pub data: Seq<u8>,
}

/// A kitty graphics image kept under its client id.
pub struct StoredState {
    pub id: u32,
    pub image: ImageState,
}

/// A kitty graphics image that is to be read from a file, and where the cursor
/// stood when it was asked for.
pub struct FileState {
    pub path: Seq<char>,
    pub pending: PendingState,
    pub row: int,
    pub col: int,
}

/// Images being transmitted, kept and numbered.
pub struct GraphicsState {
    pub pending: Option<PendingState>,
    pub stored: Seq<StoredState>,
    pub files: Seq<FileState>,
    pub next_id: u64,
    pub video: Option<ImageState>,
    pub video_version: u64,
    pub cell_w: u32,
    pub cell_h: u32,
}

/// The scrolled view.
pub struct Viewport {
    pub offset: int,
    /// IEEE 754 single-precision bits of the fractional part of the offset.
    pub fraction: u32,
}

/// The designated character sets and the one in use.
#[derive(Debug, Clone, Copy, PartialEq, Eq, Structural)]
pub struct Charsets {
    /// `B` is US ASCII, `0` is DEC Special Graphics.
    pub g0: u8,
    pub g1: u8,
    /// 0 for G0, 1 for G1.
    pub active: u8,
}

/// The whole state of the terminal.
pub struct GridState {
    pub screen: ScreenState,
    pub row: int,
    pub col: int,
    pub saved: Saved,
    pub saved_alt: Saved,
    /// Where the cursor returns to when the alternate screen is left.
    pub alt_row: int,
    pub alt_col: int,
    pub pen: Pen,
    pub margins: Margins,
    pub line_modes: Seq<u8>,
    pub view: Viewport,
    pub modes: Modes,
    pub keyboard: KeyboardState,
    pub palette: PaletteState,
    pub tabs: Seq<bool>,
    pub last_char: Option<char>,
    pub charsets: Charsets,
    pub mouse_position: Cursor,
    pub outbox: OutboxState,
    pub dcs: DcsState,
    pub links: LinksState,
    pub graphics: GraphicsState,
}

pub open spec fn min(a: int, b: int) -> int {
    if a <= b {
        a
    } else {
        b
    }
}

pub open spec fn max(a: int, b: int) -> int {
    if a >= b {
        a
    } else {
        b
    }
}

/// `a - b`, but not below 0.
pub open spec fn monus(a: int, b: int) -> int {
    max(a - b, 0)
}

/// Tab stops at every eighth column except the first.
pub open spec fn default_stops(cols: int) -> Seq<bool> {
    Seq::new(cols as nat, |c: int| c % 8 == 0 && c != 0)
}

impl GridState {
    /// The cursor is on the screen, at most one column past its last; the
    /// scroll region lies within the screen and the margins are ordered; the
    /// screen is well formed.
    pub open spec fn wf(self) -> bool {
        &&& self.screen.wf()
        &&& 0 <= self.row < self.screen.rows
        &&& 0 <= self.col <= self.screen.cols
        &&& 0 <= self.margins.top <= self.margins.bottom < self.screen.rows
        &&& 0 <= self.margins.left <= self.margins.right
        &&& 0 <= self.alt_row < self.screen.rows
        &&& 0 <= self.alt_col <= self.screen.cols
        &&& 0 <= self.saved.row && 0 <= self.saved.col
        &&& 0 <= self.saved_alt.row && 0 <= self.saved_alt.col
        &&& self.line_modes.len() == self.screen.rows
        &&& self.tabs.len() == self.screen.cols
        &&& self.graphics.cell_w >= 1
        &&& self.graphics.cell_h >= 1
    }

    pub open spec fn at(self, row: int, col: int) -> GridState {
        GridState { row, col, ..self }
    }

    pub open spec fn with_screen(self, screen: ScreenState) -> GridState {
        GridState { screen, ..self }
    }

    pub open spec fn with_pen(self, pen: Pen) -> GridState {
        GridState { pen, ..self }
    }

    pub open spec fn with_margins(self, margins: Margins) -> GridState {
        GridState { margins, ..self }
    }

    pub open spec fn with_modes(self, modes: Modes) -> GridState {
        GridState { modes, ..self }
    }

    pub open spec fn with_outbox(self, outbox: OutboxState) -> GridState {
        GridState { outbox, ..self }
    }

    /// One more reply for the application.
    pub open spec fn replying(self, bytes: Seq<u8>) -> GridState {
        self.with_outbox(OutboxState { responses: self.outbox.responses.push(bytes), ..self.outbox })
    }

    /// The last column that text may occupy.
    pub open spec fn right_margin(self) -> int {
        if self.margins.horizontal {
            min(self.margins.right, self.screen.cols - 1)
        } else {
            self.screen.cols - 1
        }
    }

    /// The first column that text may occupy.
    pub open spec fn left_margin(self) -> int {
        if self.margins.horizontal {
            min(self.margins.left, self.screen.cols - 1)
        } else {
            0
        }
    }

    /// An empty cell in the colours of the pen.
    pub open spec fn erased_cell(self) -> CellState {
        CellState::blank(self.pen.fg, self.pen.bg, Attrs::none())
    }

    /// Every row of the screen to be drawn again.
    pub open spec fn all_dirty(self) -> GridState {
        self.with_screen(self.screen.dirtied(0, self.screen.rows - 1))
    }

    /// The terminal at power-up.
    pub open spec fn initial(cols: int, rows: int, capacity: int) -> GridState {
        let lines = Seq::new(rows as nat, |r: int| blank_line(cols));
        GridState {
            screen: ScreenState {
                cols,
                rows,
                primary: lines,
                alt: lines,
                alt_active: false,
                scrollback: Seq::empty(),
                capacity,
                markers: Seq::new(rows as nat, |r: int| 0u8),
                history_markers: Seq::empty(),
                is_blank: Seq::new(rows as nat, |r: int| true),
                blank_dirty: Seq::new(rows as nat, |r: int| true),
                images: Seq::empty(),
            },
            row: 0,
            col: 0,
            saved: Saved { row: 0, col: 0, pen: Pen::plain() },
            saved_alt: Saved { row: 0, col: 0, pen: Pen::plain() },
            alt_row: 0,
            alt_col: 0,
            pen: Pen::plain(),
            margins: Margins {
                top: 0,
                bottom: rows - 1,
                left: 0,
                right: cols - 1,
                horizontal: false,
            },
            line_modes: Seq::new(rows as nat, |r: int| 0u8),
            view: Viewport { offset: 0, fraction: 0 },
            modes: Modes::initial(),
            keyboard: KeyboardState {
                flags: 0,
                stack: Seq::empty(),
                flags_primary: 0,
                stack_primary: Seq::empty(),
                flags_alt: 0,
                stack_alt: Seq::empty(),
            },
            palette: PaletteState::initial(),
            tabs: default_stops(cols),
            last_char: None,
            charsets: Charsets { g0: 66, g1: 66, active: 0 },
            mouse_position: Cursor { col: 0, row: 0 },
            outbox: OutboxState {
                responses: Seq::empty(),
                bell: false,
                clipboard_set: None,
                clipboard_query: false,
                notification: None,
                cwd: None,
                resize_request: None,
            },
            dcs: DcsState { buf: Seq::empty(), request: false, sixel: false },
            links: LinksState { urls: Map::empty(), active: 0, next: 1 },
            graphics: GraphicsState {
                pending: None,
                stored: Seq::empty(),
                files: Seq::empty(),
                next_id: 0,
                video: None,
                video_version: 0,
                cell_w: 8,
                cell_h: 16,
            },
        }
    }
}

/// How an erasure from row `r0`, column `c0` to row `r1`, column `c1` (not
/// included) treats each line; whole lines are erased from `left` to `bound`.
pub open spec fn erasing(
    r0: int,
    c0: int,
    r1: int,
    c1: int,
    left: int,
    bound: int,
    fill: CellState,
    selective: bool,
) -> spec_fn(int, Seq<CellState>) -> Seq<CellState> {
    |r: int, line: Seq<CellState>|
        erased(
            line,
            if r == r0 {
                c0
            } else {
                left
            },
            if r == r1 {
                c1
            } else {
                bound
            },
            fill,
            selective,
        )
}

/// `n` columns inserted in each line.
pub open spec fn inserting(col: int, n: int, bound: int, fill: CellState) -> spec_fn(
    int,
    Seq<CellState>,
) -> Seq<CellState> {
    |r: int, line: Seq<CellState>| inserted(line, col, n, bound, fill)
}

/// `n` columns deleted from each line.
pub open spec fn deleting(col: int, n: int, bound: int, fill: CellState) -> spec_fn(
    int,
    Seq<CellState>,
) -> Seq<CellState> {
    |r: int, line: Seq<CellState>| deleted(line, col, n, bound, fill)
}

/// A cell of the screen alignment pattern.
pub open spec fn aligned_cell(c: CellState) -> CellState {
    CellState { combining: c.combining, ch: 'E', ..CellState::empty() }
}

/// A line of the screen alignment pattern.
pub open spec fn aligned_line(line: Seq<CellState>) -> Seq<CellState> {
    Seq::new(line.len(), |i: int| aligned_cell(line[i]))
}

/// Each line turned into one of the screen alignment pattern.
pub open spec fn aligning() -> spec_fn(int, Seq<CellState>) -> Seq<CellState> {
    |r: int, line: Seq<CellState>| aligned_line(line)
}

/// One more line replaced.
pub proof fn map_lines_step(
    s: ScreenState,
    r0: int,
    r: int,
    f: spec_fn(int, Seq<CellState>) -> Seq<CellState>,
)
    requires
        0 <= r0 <= r < s.active().len(),
        s.is_blank.len() == s.active().len(),
    ensures
        s.map_lines(r0, r, f) == s.map_lines(r0, r - 1, f).put_line(r, f(r, s.active()[r])),
        s.map_lines(r0, r - 1, f).active()[r] == s.active()[r],
{
    reveal(ScreenState::map_lines);
    reveal(ScreenState::put_line);
    let a = s.map_lines(r0, r, f);
    let b = s.map_lines(r0, r - 1, f).put_line(r, f(r, s.active()[r]));
    assert(a.is_blank =~= b.is_blank);
    assert(a.active() =~= b.active());
    assert(a.primary =~= b.primary && a.alt =~= b.alt);
}

/// No line replaced.
pub proof fn map_lines_none(
    s: ScreenState,
    r0: int,
    f: spec_fn(int, Seq<CellState>) -> Seq<CellState>,
)
    ensures
        s.map_lines(r0, r0 - 1, f) == s,
{
    reveal(ScreenState::map_lines);
    let a = s.map_lines(r0, r0 - 1, f);
    assert(a.is_blank =~= s.is_blank);
    assert(a.active() =~= s.active());
    assert(a.primary =~= s.primary && a.alt =~= s.alt);
}

} // verus!
