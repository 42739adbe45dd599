//! What the pointer does: reports to the application, links, and selecting.
use vstd::prelude::*;
use vstd::utf8::*;

use crate::grid::replies::ascii_bytes;
use crate::grid::state::GridState;
use crate::grid::view::strings;
use crate::grid::{Grid, MouseMode};
use crate::input::{
    allowed, drag_selection, hyperlink_is_allowed, mouse_bytes, mouse_event, selection_mode,
    text_to_copy, wheel_button,
};
use crate::keys::ModifiersState;
use crate::mouse::{
    is_mouse_tracking_active, sgr_reports_tell, should_report_motion, tells, MouseButton,
    MouseEvent, MouseEventType,
};
use crate::selection::{selected_text, Selection, SelectionMode};
use crate::text::{decimal, decimal_text, numbers_read_back};

verus! {

/// What is to be done after the pointer moved, a button changed or the wheel
/// turned.
#[derive(Debug)]
pub enum PointerAction {
    Nothing,
    /// Bytes for the application.
    Send(Vec<u8>),
    /// A link to open.
    Open(String),
    /// A link that may not be opened.
    Refuse,
    /// Text for the clipboard.
    Copy(String),
}

/// What an action says.
pub enum ActionView {
    Nothing,
    Send(Seq<u8>),
    Open(Seq<char>),
    Refuse,
    Copy(Seq<char>),
}

impl View for PointerAction {
    type V = ActionView;

    open spec fn view(&self) -> ActionView {
        match *self {
            PointerAction::Nothing => ActionView::Nothing,
            PointerAction::Send(v) => ActionView::Send(v@),
            PointerAction::Open(s) => ActionView::Open(s@),
            PointerAction::Refuse => ActionView::Refuse,
            PointerAction::Copy(s) => ActionView::Copy(s@),
        }
    }
}

/// The report of an event at a cell: the application counts cells from 1, and a
/// button without a number is the left one. Nothing where the legacy encoding
/// cannot write it.
pub open spec fn report(
    g: GridState,
    button: Option<MouseButton>,
    event_type: MouseEventType,
    row: int,
    col: int,
    m: ModifiersState,
) -> ActionView {
    let event = MouseEvent {
        button: match button {
            Some(b) => b,
            None => MouseButton::Left,
        },
        event_type,
        col: (col + 1) as u32,
        row: (row + 1) as u32,
        shift: m.shift,
        ctrl: m.control,
        alt: m.alt,
    };
    if g.modes.mouse_encoding == crate::grid::MouseEncoding::X10 && !event.fits_x10() {
        ActionView::Nothing
    } else {
        ActionView::Send(encode_utf8(event.encoded(g.modes.mouse_encoding)))
    }
}

fn report_event(
    grid: &Grid,
    button: Option<MouseButton>,
    event_type: MouseEventType,
    row: usize,
    col: usize,
    m: &ModifiersState,
) -> (r: PointerAction)
    requires
        grid.wf(),
        row < u32::MAX,
        col < u32::MAX,
    ensures
        r@ == report(grid@, button, event_type, row as int, col as int, *m),
{
    let event = mouse_event(button, event_type, col as u32 + 1, row as u32 + 1, m);
    match mouse_bytes(&event, grid.modes.mouse_encoding) {
        Some(v) => PointerAction::Send(v),
        None => PointerAction::Nothing,
    }
}

/// Moves of the pointer are reported: always, or while a button is held.
pub open spec fn motion_wanted(mode: MouseMode, held: Option<MouseButton>) -> bool {
    mode == MouseMode::AnyEvent || (mode == MouseMode::ButtonEvent && held is Some)
}

/// The pointer moved to a cell: the application is told where it asked for
/// that, and otherwise a selection that is being made follows.
pub fn pointer_moved(
    grid: &mut Grid,
    sel: &mut Selection,
    held: Option<MouseButton>,
    row: usize,
    col: usize,
    m: &ModifiersState,
    cols: u16,
) -> (r: PointerAction)
    requires
        old(grid).wf(),
        row < u32::MAX,
        col < u32::MAX,
    ensures
        final(grid).wf(),
        ({
            let wanted = motion_wanted(old(grid)@.modes.mouse_mode, held);
            &&& r@ == if wanted {
                report(
                    old(grid)@,
                    held,
                    MouseEventType::Motion,
                    row as int,
                    col as int,
                    *m,
                )
            } else {
                ActionView::Nothing
            }
            &&& *final(sel) == if !wanted && old(sel).selecting {
                Selection { end: (row, col), ..*old(sel) }
            } else {
                *old(sel)
            }
            &&& final(grid)@ == if !wanted && old(sel).selecting {
                old(grid)@.dragged(*old(sel), *final(sel), row as int, cols as int)
            } else {
                old(grid)@
            }
        }),
        final(sel).start == old(sel).start && final(sel).mode == old(sel).mode,
        old(grid)@.modes.mouse_mode == MouseMode::Off ==> r@ == ActionView::Nothing && (old(
            sel,
        ).selecting ==> final(sel).end == (row, col)),
{
    if should_report_motion(grid.modes.mouse_mode, held.is_some()) {
        return report_event(grid, held, MouseEventType::Motion, row, col, m);
    }
    if sel.selecting {
        drag_selection(grid, sel, row, col, cols);
    }
    PointerAction::Nothing
}

/// The link at a cell of the screen.
pub open spec fn link_at(g: GridState, row: int, col: int) -> Option<Seq<char>> {
    let id = g.screen.active()[row][col].hyperlink_id;
    if 0 <= col < g.screen.cols && 0 <= row < g.screen.rows && id != 0 && g.links.urls.dom().contains(
        id,
    ) {
        Some(g.links.urls[id])
    } else {
        None
    }
}

/// What a click on a cell asks for, besides selecting.
pub open spec fn click_action(
    g: GridState,
    row: int,
    col: int,
    schemes: Seq<Seq<char>>,
) -> ActionView {
    match link_at(g, row, col) {
        Some(url) => if allowed(url, schemes) {
            ActionView::Open(url)
        } else {
            ActionView::Refuse
        },
        None => ActionView::Nothing,
    }
}

/// What letting go of the button asks for: the selected text is copied, if
/// there is any.
pub open spec fn release_action(g: GridState, sel: Selection, cols: int) -> ActionView {
    let (s, e) = sel.span();
    let text = selected_text(g.screen.texts(), s, e, sel.mode, cols, s.0 as int);
    if sel.active && sel.extractable(g.screen.texts(), cols) && text.len() > 0 {
        ActionView::Copy(text)
    } else {
        ActionView::Nothing
    }
}

/// How a selection begins: a block with Alt, whole lines with Shift, characters
/// otherwise.
pub open spec fn mode_of(m: ModifiersState) -> SelectionMode {
    if m.alt {
        SelectionMode::Rectangular
    } else if m.shift {
        SelectionMode::Line
    } else {
        SelectionMode::Char
    }
}

/// The selection after the main button changed.
pub open spec fn reselected(
    sel: Selection,
    pressed: bool,
    row: usize,
    col: usize,
    m: ModifiersState,
) -> Selection {
    if pressed {
        Selection {
            start: (row, col),
            end: (row, col),
            mode: mode_of(m),
            active: true,
            selecting: true,
        }
    } else {
        let (s, e) = sel.span();
        Selection { start: s, end: e, selecting: false, ..sel }
    }
}

fn click(grid: &Grid, row: usize, col: usize, schemes: &Vec<String>) -> (r: PointerAction)
    requires
        grid.wf(),
    ensures
        r@ == click_action(grid@, row as int, col as int, strings(schemes@)),
{
    match grid.get_hyperlink_at(col, row) {
        Some(url) => if hyperlink_is_allowed(url, schemes) {
            PointerAction::Open(url.to_owned())
        } else {
            PointerAction::Refuse
        },
        None => PointerAction::Nothing,
    }
}

/// A button went down or up over a cell. An application that tracks the mouse
/// is told; without one the main button follows links, selects and copies.
pub fn pointer_button(
    grid: &Grid,
    sel: &mut Selection,
    held: &mut Option<MouseButton>,
    pressed: bool,
    button: Option<MouseButton>,
    row: usize,
    col: usize,
    m: &ModifiersState,
    cols: u16,
    schemes: &Vec<String>,
) -> (r: PointerAction)
    requires
        grid.wf(),
        row < u32::MAX,
        col < u32::MAX,
    ensures
        ({
            let told = grid@.modes.mouse_mode != MouseMode::Off;
            let main = button == Some(MouseButton::Left);
            &&& *final(held) == if !told {
                *old(held)
            } else if pressed {
                button
            } else {
                None
            }
            &&& *final(sel) == if told || !main {
                *old(sel)
            } else {
                reselected(*old(sel), pressed, row, col, *m)
            }
            &&& r@ == if told {
                report(
                    grid@,
                    button,
                    if pressed {
                        MouseEventType::Press
                    } else {
                        MouseEventType::Release
                    },
                    row as int,
                    col as int,
                    *m,
                )
            } else if !main {
                ActionView::Nothing
            } else if pressed {
                click_action(grid@, row as int, col as int, strings(schemes@))
            } else {
                release_action(grid@, *final(sel), cols as int)
            }
        }),
        grid@.modes.mouse_mode != MouseMode::Off ==> *final(sel) == *old(sel) && !(r@ is Open)
            && !(r@ is Copy),
        grid@.modes.mouse_mode == MouseMode::Off ==> *final(held) == *old(held) && !(r@ is Send),
        grid@.modes.mouse_mode == MouseMode::Off && pressed && button == Some(MouseButton::Left)
            ==> final(sel).active && final(sel).start == (row, col) && final(sel).end == (row, col),
{
    if is_mouse_tracking_active(grid.modes.mouse_mode) {
        let event_type = if pressed {
            *held = button;
            MouseEventType::Press
        } else {
            *held = None;
            MouseEventType::Release
        };
        return report_event(grid, button, event_type, row, col, m);
    }
    match button {
        Some(MouseButton::Left) => {},
        _ => {
            return PointerAction::Nothing;
        },
    }
    if pressed {
        let action = click(grid, row, col, schemes);
        sel.start_selection(row, col, selection_mode(m));
        action
    } else {
        sel.end_selection();
        let lines = grid.all_lines();
        match text_to_copy(sel, &lines, cols) {
            Some(text) => PointerAction::Copy(text),
            None => PointerAction::Nothing,
        }
    }
}

/// The wheel turned over a cell, by the signs of its two directions: an
/// application that tracks the mouse is told.
pub fn wheel_turned(
    grid: &Grid,
    horizontal: i8,
    vertical: i8,
    row: usize,
    col: usize,
    m: &ModifiersState,
) -> (r: PointerAction)
    requires
        grid.wf(),
        row < u32::MAX,
        col < u32::MAX,
    ensures
        r@ == if grid@.modes.mouse_mode == MouseMode::Off || (horizontal == 0 && vertical == 0) {
            ActionView::Nothing
        } else {
            report(
                grid@,
                if vertical > 0 {
                    Some(MouseButton::WheelUp)
                } else if vertical < 0 {
                    Some(MouseButton::WheelDown)
                } else if horizontal > 0 {
                    Some(MouseButton::WheelRight)
                } else {
                    Some(MouseButton::WheelLeft)
                },
                MouseEventType::Press,
                row as int,
                col as int,
                *m,
            )
        },
{
    if !is_mouse_tracking_active(grid.modes.mouse_mode) {
        return PointerAction::Nothing;
    }
    match wheel_button(horizontal, vertical) {
        Some(button) => report_event(grid, Some(button), MouseEventType::Press, row, col, m),
        None => PointerAction::Nothing,
    }
}

/// Pressing at one cell, dragging to another and letting go selects what lies
/// between them, whichever comes first.
pub proof fn drag_selects_between(
    sel: Selection,
    from: (usize, usize),
    to: (usize, usize),
    m: ModifiersState,
)
    ensures
        ({
            let begun = reselected(sel, true, from.0, from.1, m);
            let moved = Selection { end: to, ..begun };
            let done = reselected(moved, false, to.0, to.1, m);
            let swap = to.0 < from.0 || (to.0 == from.0 && to.1 < from.1);
            &&& done.active && !done.selecting
            &&& done.mode == mode_of(m)
            &&& done.start == if swap {
                to
            } else {
                from
            }
            &&& done.end == if swap {
                from
            } else {
                to
            }
        }),
{
}

/// The application is told of an event at the cell that it counts from 1, in
/// bytes that say which button it was and what was held.
pub proof fn reports_say_where(
    g: GridState,
    button: MouseButton,
    event_type: MouseEventType,
    row: int,
    col: int,
    m: ModifiersState,
) -> (n: nat)
    requires
        button !is Other,
        g.modes.mouse_encoding == crate::grid::MouseEncoding::SGR,
        0 <= row < u32::MAX,
        0 <= col < u32::MAX,
    ensures
        tells(
            MouseEvent {
                button,
                event_type,
                col: 0,
                row: 0,
                shift: m.shift,
                ctrl: m.control,
                alt: m.alt,
            },
            n as int,
        ),
        report(g, Some(button), event_type, row, col, m) == ActionView::Send(
            seq![0x1bu8, 0x5b, 0x3c] + decimal(n) + seq![0x3bu8] + decimal((col + 1) as nat)
                + seq![0x3bu8] + decimal((row + 1) as nat) + seq![
                if event_type == MouseEventType::Release {
                    0x6du8
                } else {
                    0x4du8
                },
            ],
        ),
{
    let e = MouseEvent {
        button,
        event_type,
        col: (col + 1) as u32,
        row: (row + 1) as u32,
        shift: m.shift,
        ctrl: m.control,
        alt: m.alt,
    };
    let n = sgr_reports_tell(e);
    let chars = e.encoded(crate::grid::MouseEncoding::SGR);
    let bytes = seq![0x1bu8, 0x5b, 0x3c] + decimal(n) + seq![0x3bu8] + decimal((col + 1) as nat)
        + seq![0x3bu8] + decimal((row + 1) as nat) + seq![
        if event_type == MouseEventType::Release {
            0x6du8
        } else {
            0x4du8
        },
    ];
    numbers_read_back(n);
    numbers_read_back((col + 1) as nat);
    numbers_read_back((row + 1) as nat);
    let a = decimal(n).len();
    let b = decimal((col + 1) as nat).len();
    let c = decimal((row + 1) as nat).len();
    assert(chars.len() == bytes.len());
    assert forall|i: int| 0 <= i < chars.len() implies #[trigger] chars[i] as int == bytes[i]
        && bytes[i] < 128 by {
        if 3 <= i < 3 + a {
            assert(chars[i] == decimal_text(n)[i - 3]);
            assert(bytes[i] == decimal(n)[i - 3]);
        } else if 4 + a <= i < 4 + a + b {
            assert(chars[i] == decimal_text((col + 1) as nat)[i - 4 - a]);
            assert(bytes[i] == decimal((col + 1) as nat)[i - 4 - a]);
        } else if 5 + a + b <= i < 5 + a + b + c {
            assert(chars[i] == decimal_text((row + 1) as nat)[i - 5 - a - b]);
            assert(bytes[i] == decimal((row + 1) as nat)[i - 5 - a - b]);
        }
    }
    assert forall|i: int| 0 <= i < chars.len() implies #[trigger] bytes[i] < 128 by {
        assert(chars[i] as int == bytes[i]);
    }
    ascii_bytes(chars, bytes);
    n
}

/// A click opens the link of the cell that it is on where its scheme is listed,
/// and no other.
pub proof fn clicks_open_the_link_of_the_cell(
    g: GridState,
    row: int,
    col: int,
    schemes: Seq<Seq<char>>,
    url: Seq<char>,
)
    requires
        0 <= row < g.screen.rows,
        0 <= col < g.screen.cols,
    ensures
        click_action(g, row, col, schemes) == ActionView::Open(url) <==> {
            let id = g.screen.active()[row][col].hyperlink_id;
            id != 0 && g.links.urls.dom().contains(id) && g.links.urls[id] == url && allowed(
                url,
                schemes,
            )
        },
{
}

/// Alt makes a block of a selection, and Shift without it whole lines; after
/// the button is let go the selection spans what it did, and follows no longer.
pub proof fn selections_begin_and_end(
    sel: Selection,
    row: usize,
    col: usize,
    m: ModifiersState,
)
    ensures
        ({
            let s = reselected(sel, true, row, col, m);
            let e = reselected(sel, false, row, col, m);
            &&& s.mode == SelectionMode::Rectangular <==> m.alt
            &&& s.mode == SelectionMode::Line <==> m.shift && !m.alt
            &&& s.mode == SelectionMode::Char <==> !m.shift && !m.alt
            &&& s.start == (row, col) && s.end == (row, col) && s.active && s.selecting
            &&& !e.selecting && e.mode == sel.mode && e.active == sel.active
            &&& e.span() == sel.span()
        }),
{
}

} // verus!
