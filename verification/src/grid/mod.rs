//! The terminal grid: a 2-D array of cells driven by the parser's actions. It
//! owns all terminal state: cursor, SGR attributes, scroll region, scrollback
//! and the alternate screen.
use std::collections::HashMap;
use vstd::prelude::*;

pub mod attrs;
pub mod batch;
pub mod cell;
pub mod csi;
pub mod cursor;
pub mod effects;
pub mod erase;
pub mod graphics;
pub mod links;
pub mod modes;
pub mod osc;
pub mod params;
pub mod perform;
pub mod pictures;
pub mod print;
pub mod query;
pub mod replies;
pub mod resets;
pub mod resize;
pub mod run;
pub mod screen;
pub mod scroll;
mod setup;
pub mod sgr;
mod shift;
pub mod state;
pub mod view;
pub mod visit;

pub use attrs::{Attrs, Color, ColorPalette};
pub use cell::{Cell, Cursor, MouseEncoding, MouseMode, WinSize};
pub use screen::Screen;
pub use view::GridSnapshot;
pub use state::{Charsets, Modes, Pen};

use crate::sixel::{ImageState, SixelImage};
use crate::text::views;
use cell::text_view;
use state::{
    DcsState, FileState, GraphicsState, GridState, KeyboardState, LinksState, Margins, OutboxState,
    PendingState, Saved, StoredState, Viewport,
};

verus! {

/// The terminal grid buffer and state.
pub struct Grid {
    /// Lines, scrollback, and what belongs to them.
    pub screen: Screen,
    pub cursor: Cursor,
    /// DECSC state of the primary screen.
    pub saved_cursor: SavedCursor,
    /// DECSC state of the alternate screen.
    pub saved_cursor_alt: SavedCursor,
    /// Where the cursor returns to when the alternate screen is left.
    pub alt_saved_cursor: Cursor,
    /// Colours and attributes of what is printed.
    pub pen: Pen,
    pub margins: ScrollMargins,
    /// DEC line presentation of each row: 0 normal, 3/4 double-height halves,
    /// 5 single-width, 6 double-width.
    pub line_modes: Vec<u8>,
    /// Lines scrolled up; 0 is the live view.
    pub scrollback_offset: usize,
    /// IEEE 754 single-precision bits of the fractional scroll offset.
    pub scroll_fraction: u32,
    pub modes: Modes,
    pub keyboard: Keyboard,
    pub palette: ColorPalette,
    /// Horizontal tab stops, one flag per column.
    pub tab_stops: Vec<bool>,
    /// The last character printed, for REP.
    pub last_char: Option<char>,
    pub charsets: Charsets,
    pub mouse_position: Cursor,
    pub outbox: Outbox,
    pub dcs: Dcs,
    pub links: Links,
    pub graphics: Graphics,
}

/// Cursor state kept by DECSC.
#[derive(Debug, Clone, Copy, PartialEq, Eq, Structural)]
pub struct SavedCursor {
    pub cursor: Cursor,
    pub pen: Pen,
}

/// Scroll region and left/right margins, all inclusive.
#[derive(Debug, Clone, Copy, PartialEq, Eq, Structural)]
pub struct ScrollMargins {
    pub top: usize,
    pub bottom: usize,
    pub left: usize,
    pub right: usize,
    /// DECLRMM (?69): the left and right margins are honoured.
    pub horizontal: bool,
}

/// Kitty keyboard flags, with a stack for each screen.
#[derive(Debug)]
pub struct Keyboard {
    /// Flags of the active screen: 1 disambiguate, 2 event types, 4 alternate
    /// keys, 8 all keys as escape codes, 16 associated text.
    pub kitty_flags: u8,
    pub kitty_stack: Vec<u8>,
    /// State of the primary screen while the other is shown.
    pub kitty_flags_primary: u8,
    pub kitty_stack_primary: Vec<u8>,
    /// State of the alternate screen while the other is shown.
    pub kitty_flags_alt: u8,
    pub kitty_stack_alt: Vec<u8>,
}

/// What the terminal has for the application and the window system.
#[derive(Debug)]
pub struct Outbox {
    /// Replies to device queries.
    pub responses: Vec<Vec<u8>>,
    pub bell_pending: bool,
    /// Text that the application asked to copy (OSC 52).
    pub clipboard_set: Option<String>,
    /// The application asked for the clipboard (OSC 52).
    pub clipboard_query_requested: bool,
    /// Notification text (OSC 9).
    pub notification: Option<String>,
    /// Working directory (OSC 7), as its URI.
    pub cwd: Option<String>,
    /// A column count that the application asked for (DECCOLM, DECSCPP).
    pub window_resize_request: Option<WinSize>,
}

/// A device control string being received.
#[derive(Debug)]
pub struct Dcs {
    pub dcs_buf: Vec<u8>,
    /// The string is a DECRQSS request.
    pub dcs_request: bool,
    /// The string is a sixel image.
    pub dcs_sixel: bool,
}

/// OSC 8 hyperlinks.
#[derive(Debug)]
pub struct Links {
    /// Targets by id.
    pub hyperlinks: HashMap<u32, String>,
    /// Link of what is printed, 0 for none.
    pub active_hyperlink_id: u32,
    pub next_hyperlink_id: u32,
}

/// Images being transmitted, kept and numbered.
#[derive(Debug)]
pub struct Graphics {
    /// Kitty graphics transmission in progress.
    pub kitty_gfx: Option<KittyGfxPending>,
    /// Kitty graphics images by client id.
    pub kitty_images: Vec<KittyImage>,
    /// Kitty graphics images whose file is still to be read.
    pub kitty_files: Vec<KittyFile>,
    pub next_sixel_id: u64,
    pub video_frame: Option<SixelImage>,
    /// Grows with every change of `video_frame`.
    pub video_frame_version: u64,
    /// Cell size in pixels.
    pub cell_w: u32,
    pub cell_h: u32,
}

/// A kitty graphics image kept under its client id.
#[derive(Debug)]
pub struct KittyImage {
    pub id: u32,
    pub image: SixelImage,
}

impl View for KittyImage {
    type V = StoredState;

    open spec fn view(&self) -> StoredState {
        StoredState { id: self.id, image: self.image@ }
    }
}

/// A kitty graphics transmission in progress.
#[derive(Debug)]
pub struct KittyGfxPending {
    /// 24 is RGB, 32 is RGBA, 100 is PNG.
    pub format: u32,
    pub width: u32,
    pub height: u32,
    /// Client-assigned id, 0 for none.
    pub image_id: u32,
    /// Keep and acknowledge (`a=t`) in place of showing (`a=T`).
    pub transmit_only: bool,
    /// `d` carries the image, `f` and `t` the path of its file.
    pub transmission: u8,
    /// Base64 payload received so far.
    pub data: Vec<u8>,
}

impl View for KittyGfxPending {
    type V = PendingState;

    open spec fn view(&self) -> PendingState {
        PendingState {
            format: self.format,
            width: self.width,
            height: self.height,
            image_id: self.image_id,
            transmit_only: self.transmit_only,
            transmission: self.transmission,
            data: self.data@,
        }
    }
}

/// A kitty graphics image whose file is still to be read, and the cell that it
/// is shown at.
#[derive(Debug)]
pub struct KittyFile {
    pub path: String,
    pub pending: KittyGfxPending,
    pub row: usize,
    pub col: usize,
}

impl View for KittyFile {
    type V = FileState;

    open spec fn view(&self) -> FileState {
        FileState {
            path: self.path@,
            pending: self.pending@,
            row: self.row as int,
            col: self.col as int,
        }
    }
}

/// The view of an optional image.
pub open spec fn frame_view(f: Option<SixelImage>) -> Option<ImageState> {
    match f {
        Some(i) => Some(i@),
        None => None,
    }
}

/// The view of an optional transmission.
pub open spec fn pending_view(p: Option<KittyGfxPending>) -> Option<PendingState> {
    match p {
        Some(p) => Some(p@),
        None => None,
    }
}

/// The views of the kept images.
pub open spec fn stored_view(v: Seq<KittyImage>) -> Seq<StoredState> {
    Seq::new(v.len(), |i: int| v[i]@)
}

/// The views of the files still to be read.
pub open spec fn files_view(v: Seq<KittyFile>) -> Seq<FileState> {
    Seq::new(v.len(), |i: int| v[i]@)
}

/// The views of the hyperlink targets.
pub open spec fn urls_view(m: Map<u32, String>) -> Map<u32, Seq<char>> {
    Map::new(|k: u32| m.dom().contains(k), |k: u32| m[k]@)
}

impl View for SavedCursor {
    type V = Saved;

    open spec fn view(&self) -> Saved {
        Saved { row: self.cursor.row as int, col: self.cursor.col as int, pen: self.pen }
    }
}

impl View for ScrollMargins {
    type V = Margins;

    open spec fn view(&self) -> Margins {
        Margins {
            top: self.top as int,
            bottom: self.bottom as int,
            left: self.left as int,
            right: self.right as int,
            horizontal: self.horizontal,
        }
    }
}

impl View for Keyboard {
    type V = KeyboardState;

    open spec fn view(&self) -> KeyboardState {
        KeyboardState {
            flags: self.kitty_flags,
            stack: self.kitty_stack@,
            flags_primary: self.kitty_flags_primary,
            stack_primary: self.kitty_stack_primary@,
            flags_alt: self.kitty_flags_alt,
            stack_alt: self.kitty_stack_alt@,
        }
    }
}

impl View for Outbox {
    type V = OutboxState;

    open spec fn view(&self) -> OutboxState {
        OutboxState {
            responses: views(self.responses@),
            bell: self.bell_pending,
            clipboard_set: text_view(self.clipboard_set),
            clipboard_query: self.clipboard_query_requested,
            notification: text_view(self.notification),
            cwd: text_view(self.cwd),
            resize_request: self.window_resize_request,
        }
    }
}

impl View for Dcs {
    type V = DcsState;

    open spec fn view(&self) -> DcsState {
        DcsState { buf: self.dcs_buf@, request: self.dcs_request, sixel: self.dcs_sixel }
    }
}

impl View for Links {
    type V = LinksState;

    open spec fn view(&self) -> LinksState {
        LinksState {
            urls: urls_view(self.hyperlinks@),
            active: self.active_hyperlink_id,
            next: self.next_hyperlink_id,
        }
    }
}

impl View for Graphics {
    type V = GraphicsState;

    open spec fn view(&self) -> GraphicsState {
        GraphicsState {
            pending: pending_view(self.kitty_gfx),
            stored: stored_view(self.kitty_images@),
            files: files_view(self.kitty_files@),
            next_id: self.next_sixel_id,
            video: frame_view(self.video_frame),
            video_version: self.video_frame_version,
            cell_w: self.cell_w,
            cell_h: self.cell_h,
        }
    }
}

impl View for Grid {
    type V = GridState;

    open spec fn view(&self) -> GridState {
        GridState {
            screen: self.screen@,
            row: self.cursor.row as int,
            col: self.cursor.col as int,
            saved: self.saved_cursor@,
            saved_alt: self.saved_cursor_alt@,
            alt_row: self.alt_saved_cursor.row as int,
            alt_col: self.alt_saved_cursor.col as int,
            pen: self.pen,
            margins: self.margins@,
            line_modes: self.line_modes@,
            view: Viewport {
                offset: self.scrollback_offset as int,
                fraction: self.scroll_fraction,
            },
            modes: self.modes,
            keyboard: self.keyboard@,
            palette: self.palette@,
            tabs: self.tab_stops@,
            last_char: self.last_char,
            charsets: self.charsets,
            mouse_position: self.mouse_position,
            outbox: self.outbox@,
            dcs: self.dcs@,
            links: self.links@,
            graphics: self.graphics@,
        }
    }
}

impl Grid {
    /// The grid's invariant: the cursor is on the screen, at most one column
    /// past its last; the scroll region lies within the screen and the margins
    /// are ordered; the screen is well formed.
    pub open spec fn wf(&self) -> bool {
        &&& self@.wf()
        &&& self.screen.wf()
    }
}

} // verus!
