//! What modes switch, what queries are answered, and what commands of the
//! operating system set.
use vstd::prelude::*;
use vstd::utf8::*;

use super::cell::{CellState, MouseEncoding, MouseMode};
use super::csi::{csi_of, Csi, Query, Setting};
use super::effects::{carried_setting, cell_at, no_prefix, on_screen};
use super::osc::{color_of, osc_number, Special};
use super::state::{GridState, KeyboardState, Margins, Modes, OutboxState, ScreenState};
use crate::codec::carried_text;
use crate::text::{decimal, digits_value, numbers_read_back, unsigned_number};

verus! {

// ---------------------------------------------------------------------------
// Modes
// ---------------------------------------------------------------------------

/// A private mode set or reset.
pub open spec fn with_mode(g: GridState, n: u16, set: bool) -> GridState {
    g.csi(
        seq![seq![n]],
        seq![0x3fu8],
        if set {
            0x68
        } else {
            0x6c
        },
    )
}

pub(super) proof fn means_mode(g: GridState, n: u16, set: bool)
    ensures
        with_mode(g, n, set) == g.private_mode(n, set),
{
    let p = seq![seq![n]];
    carried_setting(
        g,
        p,
        seq![0x3fu8],
        if set {
            0x68
        } else {
            0x6c
        },
        Setting::PrivateModes(set),
    );
    assert(p[0] == seq![n]);
    reveal_with_fuel(GridState::private_modes, 2);
}

proof fn plain_mode(g: GridState, n: u16, set: bool)
    requires
        n != 3,
        n != 5,
        n != 6,
        n != 69,
        n != 1049,
    ensures
        with_mode(g, n, set) == g.with_modes(g.modes.changed(n, set)),
{
    means_mode(g, n, set);
}

proof fn changed_modes(m: Modes, n: u16, set: bool)
    ensures
        ({
            let t = m.changed(n, set);
            &&& n == 1 ==> t == (Modes { application_cursor_keys: set, ..m })
            &&& n == 5 ==> t == (Modes { screen_reverse: set, ..m })
            &&& n == 6 ==> t == (Modes { origin_mode: set, ..m })
            &&& n == 7 ==> t == (Modes { autowrap: set, ..m })
            &&& n == 25 ==> t == (Modes { cursor_visible: set, ..m })
            &&& n == 66 ==> t == (Modes { keypad_app: set, ..m })
            &&& n == 67 ==> t == (Modes { backarrow_del: set, ..m })
            &&& n == 1004 ==> t == (Modes { focus_reporting: set, ..m })
            &&& n == 2004 ==> t == (Modes { bracketed_paste: set, ..m })
            &&& n == 2026 ==> t == (Modes { synchronized_output: set, ..m })
            &&& n == 2048 ==> t == (Modes { in_band_resize: set, ..m })
            &&& n == 2 || n == 4 || 8 <= n <= 24 || 26 <= n <= 65 || 68 <= n <= 999 ==> t == m
        }),
{
    reveal(Modes::changed);
}

proof fn changed_mouse(m: Modes, n: u16, set: bool)
    ensures
        ({
            let t = m.changed(n, set);
            let mode = if !set {
                MouseMode::Off
            } else if n == 1000 {
                MouseMode::Normal
            } else if n == 1002 {
                MouseMode::ButtonEvent
            } else {
                MouseMode::AnyEvent
            };
            let encoding = if !set {
                MouseEncoding::X10
            } else if n == 1006 {
                MouseEncoding::SGR
            } else {
                MouseEncoding::Urxvt
            };
            &&& n == 1000 || n == 1002 || n == 1003 ==> t == (Modes { mouse_mode: mode, ..m })
            &&& n == 1006 || n == 1015 ==> t == (Modes { mouse_encoding: encoding, ..m })
        }),
{
    reveal(Modes::changed);
}

/// Each private mode of one flag switches its flag, and nothing else.
pub proof fn modes_switch(g: GridState, set: bool)
    ensures
        with_mode(g, 1, set) == g.with_modes(Modes { application_cursor_keys: set, ..g.modes }),
        with_mode(g, 7, set) == g.with_modes(Modes { autowrap: set, ..g.modes }),
        with_mode(g, 25, set) == g.with_modes(Modes { cursor_visible: set, ..g.modes }),
        with_mode(g, 66, set) == g.with_modes(Modes { keypad_app: set, ..g.modes }),
        with_mode(g, 67, set) == g.with_modes(Modes { backarrow_del: set, ..g.modes }),
        with_mode(g, 1004, set) == g.with_modes(Modes { focus_reporting: set, ..g.modes }),
        with_mode(g, 2004, set) == g.with_modes(Modes { bracketed_paste: set, ..g.modes }),
        with_mode(g, 2026, set) == g.with_modes(Modes { synchronized_output: set, ..g.modes }),
        with_mode(g, 2048, set) == g.with_modes(Modes { in_band_resize: set, ..g.modes }),
{
    plain_mode(g, 1, set);
    changed_modes(g.modes, 1, set);
    plain_mode(g, 7, set);
    changed_modes(g.modes, 7, set);
    plain_mode(g, 25, set);
    changed_modes(g.modes, 25, set);
    plain_mode(g, 66, set);
    changed_modes(g.modes, 66, set);
    plain_mode(g, 67, set);
    changed_modes(g.modes, 67, set);
    plain_mode(g, 1004, set);
    changed_modes(g.modes, 1004, set);
    plain_mode(g, 2004, set);
    changed_modes(g.modes, 2004, set);
    plain_mode(g, 2026, set);
    changed_modes(g.modes, 2026, set);
    plain_mode(g, 2048, set);
    changed_modes(g.modes, 2048, set);
}

/// Mode 1000 reports the clicks of the mouse, until it is reset.
pub proof fn click_mode_switches(g: GridState)
    ensures
        with_mode(g, 1000, true) == g.with_modes(Modes { mouse_mode: MouseMode::Normal, ..g.modes }),
        with_mode(g, 1000, false) == g.with_modes(Modes { mouse_mode: MouseMode::Off, ..g.modes }),
{
    changed_mouse(g.modes, 1000, true);
    changed_mouse(g.modes, 1000, false);
    plain_mode(g, 1000, true);
    plain_mode(g, 1000, false);
}

/// Mode 1002 reports drags as well.
pub proof fn drag_mode_switches(g: GridState)
    ensures
        with_mode(g, 1002, true) == g.with_modes(Modes { mouse_mode: MouseMode::ButtonEvent, ..g.modes }),
        with_mode(g, 1002, false) == g.with_modes(Modes { mouse_mode: MouseMode::Off, ..g.modes }),
{
    changed_mouse(g.modes, 1002, true);
    changed_mouse(g.modes, 1002, false);
    plain_mode(g, 1002, true);
    plain_mode(g, 1002, false);
}

/// Mode 1003 reports every move.
pub proof fn move_mode_switches(g: GridState)
    ensures
        with_mode(g, 1003, true) == g.with_modes(Modes { mouse_mode: MouseMode::AnyEvent, ..g.modes }),
        with_mode(g, 1003, false) == g.with_modes(Modes { mouse_mode: MouseMode::Off, ..g.modes }),
{
    changed_mouse(g.modes, 1003, true);
    changed_mouse(g.modes, 1003, false);
    plain_mode(g, 1003, true);
    plain_mode(g, 1003, false);
}

/// Mode 1006 has the mouse reported in numbers of any size.
pub proof fn sgr_encoding_switches(g: GridState)
    ensures
        with_mode(g, 1006, true) == g.with_modes(Modes { mouse_encoding: MouseEncoding::SGR, ..g.modes }),
        with_mode(g, 1006, false) == g.with_modes(Modes { mouse_encoding: MouseEncoding::X10, ..g.modes }),
{
    changed_mouse(g.modes, 1006, true);
    changed_mouse(g.modes, 1006, false);
    plain_mode(g, 1006, true);
    plain_mode(g, 1006, false);
}

/// Mode 1015 has the mouse reported in decimal numbers.
pub proof fn urxvt_encoding_switches(g: GridState)
    ensures
        with_mode(g, 1015, true) == g.with_modes(Modes { mouse_encoding: MouseEncoding::Urxvt, ..g.modes }),
        with_mode(g, 1015, false) == g.with_modes(Modes { mouse_encoding: MouseEncoding::X10, ..g.modes }),
{
    changed_mouse(g.modes, 1015, true);
    changed_mouse(g.modes, 1015, false);
    plain_mode(g, 1015, true);
    plain_mode(g, 1015, false);
}

/// A private mode that is not known changes nothing.
pub proof fn unknown_modes_do_nothing(g: GridState, n: u16, set: bool)
    requires
        n == 2 || n == 4 || 8 <= n <= 24 || 26 <= n <= 65 || 70 <= n <= 999,
    ensures
        with_mode(g, n, set) == g,
{
    plain_mode(g, n, set);
    changed_modes(g.modes, n, set);
}

/// Reverse screen mode changes no cell, and leaves the cursor and the pen.
pub proof fn reverse_screen_mode(g: GridState, set: bool)
    ensures
        ({
            let t = with_mode(g, 5, set);
            &&& t.modes == (Modes { screen_reverse: set, ..g.modes })
            &&& t.row == g.row && t.col == g.col && t.pen == g.pen
            &&& t.margins == g.margins && t.saved == g.saved && t.outbox == g.outbox
        }),
{
    means_mode(g, 5, set);
    changed_modes(g.modes, 5, set);
}

/// Origin mode homes the cursor: to the corner of the margins when it is set,
/// and to that of the screen when it is reset.
pub proof fn origin_mode_homes(g: GridState)
    requires
        g.wf(),
        g.margins.left < g.screen.cols,
    ensures
        with_mode(g, 6, false) == (GridState {
            modes: Modes { origin_mode: false, ..g.modes },
            row: 0,
            col: 0,
            ..g
        }),
        with_mode(g, 6, true) == (GridState {
            modes: Modes { origin_mode: true, ..g.modes },
            row: g.margins.top,
            col: if g.margins.horizontal {
                g.margins.left
            } else {
                0
            },
            ..g
        }),
{
    means_mode(g, 6, true);
    means_mode(g, 6, false);
    changed_modes(g.modes, 6, true);
    changed_modes(g.modes, 6, false);
}

/// DECLRMM honours the side margins while it is set; resetting it brings back
/// the full width.
pub proof fn side_margin_mode(g: GridState)
    ensures
        with_mode(g, 69, true) == g.with_margins(Margins { horizontal: true, ..g.margins }),
        with_mode(g, 69, false) == g.with_margins(
            Margins {
                top: g.margins.top,
                bottom: g.margins.bottom,
                left: 0,
                right: g.screen.cols - 1,
                horizontal: false,
            },
        ),
{
    means_mode(g, 69, true);
    means_mode(g, 69, false);
}

/// The alternate screen is entered blank, with the cursor at home, and left for
/// the primary screen as it was; the history is there all the while. Entering
/// it twice, or leaving it twice, is doing so once.
pub proof fn alternate_screen(g: GridState, r: int, c: int)
    requires
        g.wf(),
        on_screen(g, r, c),
        !g.screen.alt_active,
    ensures
        ({
            let a = with_mode(g, 1049, true);
            let b = with_mode(a, 1049, false);
            &&& a.screen.alt_active && !b.screen.alt_active
            &&& cell_at(a, r, c) == CellState::empty()
            &&& a.row == 0 && a.col == 0
            &&& a.screen.primary == g.screen.primary && a.screen.scrollback == g.screen.scrollback
            &&& a.screen.images.len() == 0
            &&& b.screen.primary == g.screen.primary && b.screen.scrollback == g.screen.scrollback
            &&& b.row == g.row && b.col == g.col
            &&& with_mode(a, 1049, true) == a
            &&& with_mode(g, 1049, false) == g
        }),
{
    let a = with_mode(g, 1049, true);
    means_mode(g, 1049, true);
    means_mode(a, 1049, false);
    means_mode(a, 1049, true);
    means_mode(g, 1049, false);
}

proof fn modes_skip(g: GridState, params: Seq<Seq<u16>>, i: int, k: int, set: bool)
    requires
        0 <= k <= i <= params.len(),
    ensures
        g.private_modes(params, i, set) == g.private_modes(params.skip(k), i - k, set),
    decreases params.len() - i,
{
    if i < params.len() {
        assert(params.skip(k)[i - k] == params[i]);
        modes_skip(
            g.private_mode(super::params::value_or(params, i, 0), set),
            params,
            i + 1,
            k,
            set,
        );
    }
}

/// Several modes in one sequence are switched one after the other.
pub proof fn modes_add_up(g: GridState, n: u16, rest: Seq<Seq<u16>>, set: bool)
    ensures
        ({
            let b: u8 = if set {
                0x68
            } else {
                0x6c
            };
            g.csi(seq![seq![n]] + rest, seq![0x3fu8], b) == with_mode(g, n, set).csi(
                rest,
                seq![0x3fu8],
                b,
            )
        }),
{
    let b: u8 = if set {
        0x68
    } else {
        0x6c
    };
    let all = seq![seq![n]] + rest;
    means_mode(g, n, set);
    carried_setting(g, all, seq![0x3fu8], b, Setting::PrivateModes(set));
    carried_setting(with_mode(g, n, set), rest, seq![0x3fu8], b, Setting::PrivateModes(set));
    assert(all[0] == seq![n]);
    assert(all.skip(1) =~= rest);
    modes_skip(g.private_mode(n, set), all, 1, 1, set);
}

/// IRM, the ANSI mode 4, switches insert mode; the other ANSI modes do nothing.
pub proof fn ansi_mode_switches(g: GridState, n: u16, set: bool)
    ensures
        ({
            let t = g.csi(
                seq![seq![n]],
                no_prefix(),
                if set {
                    0x68
                } else {
                    0x6c
                },
            );
            if n == 4 {
                t == g.with_modes(Modes { insert_mode: set, ..g.modes })
            } else {
                t == g
            }
        }),
{
    let p = seq![seq![n]];
    carried_setting(
        g,
        p,
        no_prefix(),
        if set {
            0x68
        } else {
            0x6c
        },
        Setting::AnsiModes(set),
    );
    assert(p[0] == seq![n]);
    assert(super::params::value_or(p, 0, 0) == n);
}

/// DECSCUSR sets the shape of the cursor, DECSCA the protection of what is
/// printed, and DECPAM and DECPNM the keypad.
pub proof fn small_settings(g: GridState, n: u16)
    requires
        n <= 6,
    ensures
        g.csi(seq![seq![n]], seq![0x20u8], 0x71) == g.with_modes(
            Modes { cursor_shape: n as u8, ..g.modes },
        ),
        g.csi(seq![seq![n]], seq![0x22u8], 0x71).pen.attrs@ == (super::attrs::AttrFlags {
            protected: n == 2,
            ..g.pen.attrs@
        }),
        g.csi(seq![seq![n]], seq![0x22u8], 0x71) == g.with_pen(
            super::state::Pen {
                attrs: g.csi(seq![seq![n]], seq![0x22u8], 0x71).pen.attrs,
                ..g.pen
            },
        ),
        g.esc(no_prefix(), 0x3d) == g.with_modes(Modes { keypad_app: true, ..g.modes }),
        g.esc(no_prefix(), 0x3e) == g.with_modes(Modes { keypad_app: false, ..g.modes }),
{
    let p = seq![seq![n]];
    assert(p[0] == seq![n]);
    carried_setting(g, p, seq![0x20u8], 0x71, Setting::CursorShape(n as u8));
    carried_setting(g, p, seq![0x22u8], 0x71, Setting::Protect(n == 2));
    super::attrs::protected_is_independent(g.pen.attrs, n == 2);
    reveal(GridState::esc);
    reveal(GridState::esc_final);
}

/// The kitty keyboard flags: a push keeps the old ones and sets new ones, a pop
/// brings the old ones back, and a change sets them, adds to them, or takes from
/// them.
pub proof fn keyboard_flags(g: GridState, f: u16)
    requires
        f <= 31,
    ensures
        ({
            let pushed = g.csi(seq![seq![f]], seq![0x3eu8], 0x75);
            let back = pushed.csi(seq![seq![1u16]], seq![0x3cu8], 0x75);
            &&& pushed == (GridState { keyboard: pushed.keyboard, ..g })
            &&& pushed.keyboard.flags == f
            &&& back.keyboard.flags == g.keyboard.flags && back.keyboard.stack == g.keyboard.stack
            &&& g.csi(seq![seq![f], seq![1u16]], seq![0x3du8], 0x75).keyboard == (KeyboardState {
                flags: f as u8,
                ..g.keyboard
            })
            &&& g.csi(seq![seq![f], seq![2u16]], seq![0x3du8], 0x75).keyboard == (KeyboardState {
                flags: g.keyboard.flags | f as u8,
                ..g.keyboard
            })
            &&& g.csi(seq![seq![f], seq![3u16]], seq![0x3du8], 0x75).keyboard == (KeyboardState {
                flags: g.keyboard.flags & !(f as u8),
                ..g.keyboard
            })
        }),
{
    let p = seq![seq![f]];
    assert(p[0] == seq![f]);
    carried_setting(g, p, seq![0x3eu8], 0x75, Setting::PushKeys(f as u8));
    let pushed = g.csi(p, seq![0x3eu8], 0x75);
    let one = seq![seq![1u16]];
    assert(one[0] == seq![1u16]);
    carried_setting(pushed, one, seq![0x3cu8], 0x75, Setting::PopKeys(1));
    super::modes::pop_undoes_push(g.keyboard, f as u8);
    let a = seq![seq![f], seq![1u16]];
    let b = seq![seq![f], seq![2u16]];
    let c = seq![seq![f], seq![3u16]];
    assert(a[0] == seq![f] && b[0] == seq![f] && c[0] == seq![f]);
    assert(a[1] == seq![1u16] && b[1] == seq![2u16] && c[1] == seq![3u16]);
    carried_setting(g, a, seq![0x3du8], 0x75, Setting::ChangeKeys(f as u8, 1));
    carried_setting(g, b, seq![0x3du8], 0x75, Setting::ChangeKeys(f as u8, 2));
    carried_setting(g, c, seq![0x3du8], 0x75, Setting::ChangeKeys(f as u8, 3));
}

// ---------------------------------------------------------------------------
// Queries
// ---------------------------------------------------------------------------

/// The bytes of a text of ASCII characters are their codes.
pub proof fn ascii_bytes(chars: Seq<char>, bytes: Seq<u8>)
    requires
        chars.len() == bytes.len(),
        forall|i: int| 0 <= i < chars.len() ==> #[trigger] chars[i] as int == bytes[i],
        forall|i: int| 0 <= i < chars.len() ==> #[trigger] bytes[i] < 128,
    ensures
        encode_utf8(chars) == bytes,
{
    assert forall|i: int| 0 <= i < chars.len() implies '\0' <= #[trigger] chars[i] <= '\u{7f}' by {
        assert(bytes[i] < 128);
    }
    is_ascii_chars_encode_utf8(chars);
    assert forall|i: int| 0 <= i < chars.len() implies encode_utf8(chars)[i] == bytes[i] by {
        assert(chars[i] as u8 == encode_utf8(chars)[i]);
        assert(chars[i] as int == bytes[i]);
    }
    assert(encode_utf8(chars) =~= bytes);
}

proof fn carried_query(g: GridState, params: Seq<Seq<u16>>, bytes: Seq<u8>, b: u8, q: Query)
    requires
        csi_of(params, bytes, b) == Csi::Query(q),
    ensures
        g.csi(params, bytes, b) == g.replying(g.answer(q)),
{
    reveal(GridState::csi);
}

/// The state is the same but for one more reply.
pub open spec fn replied(g: GridState, t: GridState, bytes: Seq<u8>) -> bool {
    t == (GridState {
        outbox: OutboxState { responses: g.outbox.responses.push(bytes), ..g.outbox },
        ..g
    })
}

/// DSR 6 is answered with the row and the column of the cursor, counted from 1;
/// in origin mode the row counts from the top margin.
pub proof fn cursor_is_reported(g: GridState)
    requires
        g.wf(),
        g.modes.origin_mode ==> g.margins.top <= g.row <= g.margins.bottom,
    ensures
        ({
            let row = if g.modes.origin_mode {
                g.row - g.margins.top + 1
            } else {
                g.row + 1
            };
            let place = decimal(row as nat) + seq![0x3bu8] + decimal((g.col + 1) as nat);
            &&& replied(
                g,
                g.csi(seq![seq![6u16]], no_prefix(), 0x6e),
                seq![0x1bu8, 0x5b] + place + seq![0x52u8],
            )
            &&& replied(
                g,
                g.csi(seq![seq![6u16]], seq![0x3fu8], 0x6e),
                seq![0x1bu8, 0x5b, 0x3f] + place + seq![0x3bu8, 0x31, 0x52],
            )
        }),
{
    let p = seq![seq![6u16]];
    assert(p[0] == seq![6u16]);
    carried_query(g, p, no_prefix(), 0x6e, Query::CursorReport(false));
    carried_query(g, p, seq![0x3fu8], 0x6e, Query::CursorReport(true));
    reveal_strlit("\x1b[");
    reveal_strlit("\x1b[?");
    reveal_strlit(";");
    reveal_strlit("R");
    reveal_strlit(";1R");
    ascii_bytes("\x1b["@, seq![0x1bu8, 0x5b]);
    ascii_bytes("\x1b[?"@, seq![0x1bu8, 0x5b, 0x3f]);
    ascii_bytes(";"@, seq![0x3bu8]);
    ascii_bytes("R"@, seq![0x52u8]);
    ascii_bytes(";1R"@, seq![0x3bu8, 0x31, 0x52]);
    let row = g.reported_row() as nat;
    let col = (g.col + 1) as nat;
    let place = decimal(row) + seq![0x3bu8] + decimal(col);
    assert(g.cursor_report() =~= seq![0x1bu8, 0x5b] + place + seq![0x52u8]);
    assert(g.extended_cursor_report() =~= seq![0x1bu8, 0x5b, 0x3f] + place + seq![
        0x3bu8,
        0x31,
        0x52,
    ]);
}

/// Where the cursor is reported to be, CUP puts it.
pub proof fn reports_lead_back(g: GridState, other: GridState, row: u16, col: u16)
    requires
        g.wf(),
        !g.modes.origin_mode,
        g.col < g.screen.cols,
        row == g.row + 1,
        col == g.col + 1,
        other == (GridState { row: other.row, col: other.col, ..g }),
    ensures
        other.csi(seq![seq![row], seq![col]], no_prefix(), 0x48) == g,
{
    let p = seq![seq![row], seq![col]];
    assert(p[0] == seq![row] && p[1] == seq![col]);
    super::effects::carried_move(
        other,
        p,
        no_prefix(),
        0x48,
        super::csi::Move::Position(row, col),
    );
}

/// DSR 5 is answered with "no fault", and the device attributes with those of a
/// VT220 with colours.
pub proof fn identity_is_reported(g: GridState)
    ensures
        replied(
            g,
            g.csi(seq![seq![5u16]], no_prefix(), 0x6e),
            seq![0x1bu8, 0x5b, 0x30, 0x6e],
        ),
        replied(
            g,
            g.csi(seq![seq![0u16]], no_prefix(), 0x63),
            seq![0x1bu8, 0x5b, 0x3f, 0x36, 0x32, 0x3b, 0x32, 0x32, 0x63],
        ),
        replied(
            g,
            g.csi(seq![seq![0u16]], seq![0x3eu8], 0x63),
            seq![0x1bu8, 0x5b, 0x3e, 0x31, 0x3b, 0x32, 0x30, 0x3b, 0x30, 0x63],
        ),
{
    let five = seq![seq![5u16]];
    let zero = seq![seq![0u16]];
    assert(five[0] == seq![5u16] && zero[0] == seq![0u16]);
    carried_query(g, five, no_prefix(), 0x6e, Query::Status);
    carried_query(g, zero, no_prefix(), 0x63, Query::Attributes);
    carried_query(g, zero, seq![0x3eu8], 0x63, Query::SecondaryAttributes);
    reveal_strlit("\x1b[0n");
    reveal_strlit("\x1b[?62;22c");
    reveal_strlit("\x1b[>1;20;0c");
    ascii_bytes("\x1b[0n"@, seq![0x1bu8, 0x5b, 0x30, 0x6e]);
    ascii_bytes("\x1b[?62;22c"@, seq![0x1bu8, 0x5b, 0x3f, 0x36, 0x32, 0x3b, 0x32, 0x32, 0x63]);
    ascii_bytes(
        "\x1b[>1;20;0c"@,
        seq![0x1bu8, 0x5b, 0x3e, 0x31, 0x3b, 0x32, 0x30, 0x3b, 0x30, 0x63],
    );
}

proof fn flags_follow(m: Modes, n: u16, set: bool)
    ensures
        ({
            let f = m.changed(n, set).flag(n);
            &&& n == 1 || n == 5 || n == 6 || n == 7 || n == 25 || n == 66 || n == 67 || n == 1000
                || n == 1002 || n == 1003 || n == 1004 || n == 1006 || n == 2004 || n == 2026 || n
                == 2048 ==> f == Some(set)
            &&& f is None || n == 1 || n == 4 || n == 5 || n == 6 || n == 7 || n == 25 || n == 66
                || n == 67 || n == 1000 || n == 1002 || n == 1003 || n == 1004 || n == 1006 || n
                == 2004 || n == 2026 || n == 2048
        }),
{
    reveal(Modes::flag);
    changed_modes(m, n, set);
    changed_mouse(m, n, set);
}

proof fn mode_follows(g: GridState, n: u16, set: bool)
    requires
        g.wf(),
        n != 3,
        n != 4,
    ensures
        with_mode(g, n, set).mode_state(n) == if n == 1 || n == 5 || n == 6 || n == 7 || n == 25
            || n == 66 || n == 67 || n == 69 || n == 1000 || n == 1002 || n == 1003 || n == 1004
            || n == 1006 || n == 1049 || n == 2004 || n == 2026 || n == 2048 {
            if set {
                1u8
            } else {
                2u8
            }
        } else {
            0u8
        },
{
    means_mode(g, n, set);
    flags_follow(g.modes, n, set);
    let t = g.private_mode(n, set);
    if n != 69 && n != 1049 {
        assert(t.modes == g.modes.changed(n, set));
    }
}

/// DECRQM is answered with the mode and 1 after it was set, 2 after it was
/// reset, and 0 where the mode is not known.
pub proof fn modes_are_reported(g: GridState, n: u16, set: bool)
    requires
        g.wf(),
        n != 3,
        n != 4,
    ensures
        ({
            let t = with_mode(g, n, set);
            let answer = |d: u8|
                seq![0x1bu8, 0x5b, 0x3f] + decimal(n as nat) + seq![0x3bu8, d, 0x24, 0x79];
            let asked = t.csi(seq![seq![n]], seq![0x3fu8, 0x24], 0x70);
            let known = n == 1 || n == 5 || n == 6 || n == 7 || n == 25 || n == 66 || n == 67 || n
                == 69 || n == 1000 || n == 1002 || n == 1003 || n == 1004 || n == 1006 || n == 1049
                || n == 2004 || n == 2026 || n == 2048;
            &&& known ==> replied(
                t,
                asked,
                answer(
                    if set {
                        0x31
                    } else {
                        0x32
                    },
                ),
            )
            &&& !known ==> replied(t, asked, answer(0x30))
        }),
{
    let t = with_mode(g, n, set);
    let p = seq![seq![n]];
    assert(p[0] == seq![n]);
    mode_follows(g, n, set);
    carried_query(t, p, seq![0x3fu8, 0x24], 0x70, Query::Mode(n, true));
    reveal_strlit("\x1b[?");
    reveal_strlit(";");
    reveal_strlit("$y");
    ascii_bytes("\x1b[?"@, seq![0x1bu8, 0x5b, 0x3f]);
    ascii_bytes(";"@, seq![0x3bu8]);
    ascii_bytes("$y"@, seq![0x24u8, 0x79]);
    let d = t.mode_state(n);
    assert(d <= 2);
    assert(decimal(d as nat) =~= seq![(0x30 + d) as u8]);
    assert(t.private_mode_report(n) =~= seq![0x1bu8, 0x5b, 0x3f] + decimal(n as nat) + seq![
        0x3bu8,
        (0x30 + d) as u8,
        0x24,
        0x79,
    ]);
}

/// The kitty keyboard flags and the size of the screen are told as they are.
pub proof fn flags_and_size_are_reported(g: GridState)
    requires
        g.wf(),
    ensures
        replied(
            g,
            g.csi(Seq::empty(), seq![0x3fu8], 0x75),
            seq![0x1bu8, 0x5b, 0x3f] + decimal(g.keyboard.flags as nat) + seq![0x75u8],
        ),
        g.size_report() == seq![0x1bu8, 0x5b, 0x34, 0x3b] + decimal(g.screen.rows as nat) + seq![
            0x3bu8,
        ] + decimal(g.screen.cols as nat) + seq![0x74u8],
{
    carried_query(g, Seq::empty(), seq![0x3fu8], 0x75, Query::Keyboard);
    reveal_strlit("\x1b[?");
    reveal_strlit("u");
    reveal_strlit("\x1b[4;");
    reveal_strlit(";");
    reveal_strlit("t");
    ascii_bytes("\x1b[?"@, seq![0x1bu8, 0x5b, 0x3f]);
    ascii_bytes("u"@, seq![0x75u8]);
    ascii_bytes("\x1b[4;"@, seq![0x1bu8, 0x5b, 0x34, 0x3b]);
    ascii_bytes(";"@, seq![0x3bu8]);
    ascii_bytes("t"@, seq![0x74u8]);
}

// ---------------------------------------------------------------------------
// Commands of the operating system
// ---------------------------------------------------------------------------

/// A number that is written in decimal is read as that number.
pub proof fn written_numbers_are_read(n: nat, max: int)
    requires
        n <= max,
    ensures
        unsigned_number(decimal(n), 10, max) == Some(n as int),
{
    numbers_read_back(n);
    let d = decimal(n);
    assert(crate::text::unsigned_digits(d) == d) by {
        assert(0x30 <= d[0]);
    }
    assert forall|i: int| 0 <= i < d.len() implies #[trigger] crate::text::digit_value(
        d[i],
        10,
    ) is Some by {
        assert(0x30 <= d[i] <= 0x39);
    }
}

proof fn numbered(params: Seq<Seq<u8>>, n: nat)
    requires
        params.len() > 0,
        params[0] == decimal(n),
        n <= 65535,
    ensures
        osc_number(params) == n,
{
    written_numbers_are_read(n, 65535);
}

proof fn carried_title(g: GridState, params: Seq<Seq<u8>>, n: nat)
    requires
        params.len() > 0,
        params[0] == decimal(n),
        n == 0 || n == 2,
        n <= 65535,
    ensures
        g.osc(params) == g.osc_title(params),
{
    numbered(params, n);
    reveal(GridState::osc);
}

proof fn carried_color(g: GridState, params: Seq<Seq<u8>>)
    requires
        params.len() > 0,
        params[0] == decimal(4),
    ensures
        g.osc(params) == g.osc_color(params),
{
    numbered(params, 4);
    reveal(GridState::osc);
}

proof fn carried_cwd(g: GridState, params: Seq<Seq<u8>>)
    requires
        params.len() > 0,
        params[0] == decimal(7),
    ensures
        g.osc(params) == g.osc_cwd(params),
{
    numbered(params, 7);
    reveal(GridState::osc);
}

proof fn carried_link(g: GridState, params: Seq<Seq<u8>>)
    requires
        params.len() > 0,
        params[0] == decimal(8),
    ensures
        g.osc(params) == g.osc_link(params),
{
    numbered(params, 8);
    reveal(GridState::osc);
}

proof fn carried_notice(g: GridState, params: Seq<Seq<u8>>)
    requires
        params.len() > 0,
        params[0] == decimal(9),
    ensures
        g.osc(params) == g.osc_notify(params),
{
    numbered(params, 9);
    reveal(GridState::osc);
}

proof fn carried_clipboard(g: GridState, params: Seq<Seq<u8>>)
    requires
        params.len() > 0,
        params[0] == decimal(52),
    ensures
        g.osc(params) == g.osc_clipboard(params),
{
    numbered(params, 52);
    reveal(GridState::osc);
}

proof fn carried_shell(g: GridState, params: Seq<Seq<u8>>)
    requires
        params.len() > 0,
        params[0] == decimal(133),
    ensures
        g.osc(params) == g.osc_shell(params),
{
    numbered(params, 133);
    reveal(GridState::osc);
}

proof fn carried_special(g: GridState, params: Seq<Seq<u8>>, which: Special)
    requires
        params.len() > 0,
        params[0] == match which {
            Special::Foreground => decimal(10),
            Special::Background => decimal(11),
            Special::Cursor => decimal(12),
        },
    ensures
        g.osc(params) == g.osc_special(which, params),
{
    match which {
        Special::Foreground => numbered(params, 10),
        Special::Background => numbered(params, 11),
        Special::Cursor => numbered(params, 12),
    }
    reveal(GridState::osc);
}

/// OSC 0 and OSC 2 set the title, and nothing else.
pub proof fn titles_are_set(g: GridState, title: Seq<u8>)
    requires
        valid_utf8(title),
    ensures
        ({
            let t = g.osc(seq![decimal(0), title]);
            &&& g.osc(seq![decimal(2), title]) == t
            &&& t.palette.title == decode_utf8(title)
            &&& t == (GridState {
                palette: super::attrs::PaletteState {
                    title: t.palette.title,
                    ..g.palette
                },
                ..g
            })
        }),
{
    let a = seq![decimal(0), title];
    let b = seq![decimal(2), title];
    carried_title(g, a, 0);
    carried_title(g, b, 2);
    reveal_with_fuel(crate::text::join_from, 3);
    assert(crate::text::join_from(a, 0x3b, 1) =~= title);
    assert(crate::text::join_from(b, 0x3b, 1) =~= title);
}

/// A hexadecimal digit.
pub open spec fn hex_digit(x: int) -> u8 {
    if x < 10 {
        (0x30 + x) as u8
    } else {
        (0x61 + x - 10) as u8
    }
}

/// The two hexadecimal digits of a byte.
pub open spec fn hex2(v: u8) -> Seq<u8> {
    seq![hex_digit(v as int / 16), hex_digit(v as int % 16)]
}

/// The two digits of a byte are read as that byte.
pub proof fn hex2_reads_back(v: u8)
    ensures
        unsigned_number(hex2(v), 16, 255) == Some(v as int),
        hex2(v).len() == 2,
        0x30 <= hex2(v)[0] <= 0x66,
{
    let s = hex2(v);
    let first = s.drop_last();
    assert(first.drop_last() =~= Seq::<u8>::empty());
    reveal_with_fuel(digits_value, 3);
    assert(crate::text::unsigned_digits(s) == s);
    assert(crate::text::digit_value(s[0], 16) == Some(v as int / 16));
    assert(crate::text::digit_value(s[1], 16) == Some(v as int % 16));
    assert(first.last() == s[0]);
    assert forall|i: int| 0 <= i < s.len() implies #[trigger] crate::text::digit_value(
        s[i],
        16,
    ) is Some by {
        assert(i == 0 || i == 1);
    }
}

proof fn pairs_join(r: u8, g: u8, b: u8, x: Seq<u8>, y: Seq<u8>, z: Seq<u8>)
    requires
        x.len() == 2,
        y.len() == 2,
        z.len() == 2,
        x[0] <= 0x66,
        unsigned_number(x, 16, 255) == Some(r as int),
        unsigned_number(y, 16, 255) == Some(g as int),
        unsigned_number(z, 16, 255) == Some(b as int),
    ensures
        color_of(seq![0x23u8] + x + y + z) == Some((r, g, b)),
        color_of(x + y + z) == Some((r, g, b)),
{
    let s = seq![0x23u8] + x + y + z;
    let t = x + y + z;
    assert(s.subrange(1, 3) =~= x && s.subrange(3, 5) =~= y && s.subrange(5, 7) =~= z);
    assert(t.subrange(0, 2) =~= x && t.subrange(2, 4) =~= y && t.subrange(4, 6) =~= z);
    assert(t[0] == x[0]);
}

/// A colour written `#rrggbb` or `rrggbb` is that colour.
pub proof fn colors_read_back(r: u8, g: u8, b: u8)
    ensures
        color_of(seq![0x23u8] + hex2(r) + hex2(g) + hex2(b)) == Some((r, g, b)),
        color_of(hex2(r) + hex2(g) + hex2(b)) == Some((r, g, b)),
{
    hex2_reads_back(r);
    hex2_reads_back(g);
    hex2_reads_back(b);
    pairs_join(r, g, b, hex2(r), hex2(g), hex2(b));
}

/// OSC 4, 10, 11 and 12 set the colour that they name and no other.
pub proof fn colors_are_set(g: GridState, i: int, spec: Seq<u8>, k: int)
    requires
        0 <= i <= 255,
        0 <= k <= 255,
        g.palette.colors.len() == 256,
        color_of(spec) is Some,
        spec != seq![0x3fu8],
    ensures
        ({
            let c = color_of(spec)->0;
            let t = g.osc(seq![decimal(4), decimal(i as nat), spec]);
            let fg = g.osc(seq![decimal(10), spec]);
            let bg = g.osc(seq![decimal(11), spec]);
            let cursor = g.osc(seq![decimal(12), spec]);
            &&& t.palette.colors[k] == if k == i {
                c
            } else {
                g.palette.colors[k]
            }
            &&& t.palette.fg == g.palette.fg && t.palette.bg == g.palette.bg
            &&& fg.palette == (super::attrs::PaletteState { fg: c, ..g.palette })
            &&& bg.palette == (super::attrs::PaletteState { bg: c, ..g.palette })
            &&& cursor.palette == (super::attrs::PaletteState { cursor: c, ..g.palette })
            &&& t.screen == g.screen && fg.screen == g.screen
            &&& t.outbox == g.outbox && fg.outbox == g.outbox
        }),
{
    let a = seq![decimal(4), decimal(i as nat), spec];
    let b = seq![decimal(10), spec];
    let c = seq![decimal(11), spec];
    let d = seq![decimal(12), spec];
    carried_color(g, a);
    carried_special(g, b, Special::Foreground);
    carried_special(g, c, Special::Background);
    carried_special(g, d, Special::Cursor);
    written_numbers_are_read(i as nat, 255);
    if crate::text::is_byte(spec, 0x3f) {
        assert(spec =~= seq![0x3fu8]);
    }
}

/// OSC 104 and OSC 112 bring back the colours of power-up.
pub proof fn colors_are_reset(g: GridState)
    ensures
        ({
            let fresh = GridState::initial(80, 24, 0).palette;
            &&& g.osc(seq![decimal(104)]).palette == (super::attrs::PaletteState {
                colors: fresh.colors,
                ..g.palette
            })
            &&& g.osc(seq![decimal(112)]).palette == (super::attrs::PaletteState {
                cursor: fresh.cursor,
                ..g.palette
            })
        }),
{
    numbered(seq![decimal(104)], 104);
    numbered(seq![decimal(112)], 112);
    reveal(GridState::osc);
}

/// OSC 8 starts a link that what is printed from then on belongs to, and that
/// leads where it says; an empty one ends it.
pub proof fn links_start_and_end(g: GridState, url: Seq<u8>, id: u32)
    requires
        valid_utf8(url),
        decode_utf8(url).len() > 0,
    ensures
        ({
            let t = g.osc(seq![decimal(8), Seq::empty(), url]);
            let e = g.osc(seq![decimal(8), Seq::empty(), Seq::empty()]);
            &&& t.links.active == g.links.next
            &&& t.links.urls.dom().contains(t.links.active)
            &&& t.links.urls[t.links.active] == decode_utf8(url)
            &&& id != t.links.active && g.links.urls.dom().contains(id)
                ==> t.links.urls.dom().contains(id) && t.links.urls[id] == g.links.urls[id]
            &&& g.links.next < u32::MAX ==> t.links.next == g.links.next + 1
            &&& e.links.active == 0 && e.links.urls == g.links.urls
            &&& t.screen == g.screen && t.pen == g.pen
        }),
{
    let a = seq![decimal(8), Seq::empty(), url];
    let b = seq![decimal(8), Seq::empty(), Seq::empty()];
    carried_link(g, a);
    carried_link(g, b);
    let none = Seq::<u8>::empty();
    reveal_with_fuel(crate::text::split_from, 2);
    reveal_with_fuel(super::osc::first_id, 2);
    reveal_with_fuel(crate::text::find_byte, 2);
    assert(crate::text::split(none, 0x3b).len() >= 1);
    assert(super::osc::link_id(none) is None);
    encode_utf8_decode_utf8(Seq::<char>::empty());
    assert(encode_utf8(Seq::<char>::empty()) =~= none);
    assert(super::osc::text_or_empty(none).len() == 0);
}

/// OSC 52 hands over the text that its data carries, and OSC 9 a notification;
/// OSC 7 keeps the working directory.
pub proof fn texts_are_handed_over(g: GridState, which: Seq<u8>, data: Seq<u8>, msg: Seq<u8>)
    requires
        carried_text(data) is Some,
        data.len() > 1,
        valid_utf8(msg),
        decode_utf8(msg).len() > 0,
        msg.len() > 1,
    ensures
        ({
            let t = g.osc(seq![decimal(52), which, data]);
            let n = g.osc(seq![decimal(9), msg]);
            let c = g.osc(seq![decimal(7), msg]);
            let q = g.osc(seq![decimal(52), which, seq![0x3fu8]]);
            &&& t == g.with_outbox(
                OutboxState { clipboard_set: carried_text(data), ..g.outbox },
            )
            &&& n == g.with_outbox(
                OutboxState { notification: Some(decode_utf8(msg)), ..g.outbox },
            )
            &&& c == g.with_outbox(OutboxState { cwd: Some(decode_utf8(msg)), ..g.outbox })
            &&& q == g.with_outbox(OutboxState { clipboard_query: true, ..g.outbox })
        }),
{
    let a = seq![decimal(52), which, data];
    let b = seq![decimal(9), msg];
    let c = seq![decimal(7), msg];
    let d = seq![decimal(52), which, seq![0x3fu8]];
    carried_clipboard(g, a);
    carried_notice(g, b);
    carried_cwd(g, c);
    carried_clipboard(g, d);
}

/// OSC 133 marks the row of the cursor: prompts with 1, commands with 2, and
/// their ends with 3. No other row changes.
pub proof fn prompts_are_marked(g: GridState, kind: u8, r: int)
    requires
        g.wf(),
        0 <= r < g.screen.rows,
        0x41 <= kind <= 0x45,
    ensures
        ({
            let t = g.osc(seq![decimal(133), seq![kind]]);
            let mark: u8 = if kind == 0x41 || kind == 0x45 {
                1
            } else if kind == 0x42 {
                2
            } else {
                3
            };
            &&& t.screen.markers[r] == if r == g.row {
                mark
            } else {
                g.screen.markers[r]
            }
            &&& t == g.with_screen(ScreenState { markers: t.screen.markers, ..g.screen })
        }),
{
    let p = seq![decimal(133), seq![kind]];
    carried_shell(g, p);
}

/// The colour as a reply gives it: four hexadecimal digits a channel, after
/// `rgb:` and with `/` between them.
pub open spec fn told_color(c: (u8, u8, u8)) -> Seq<u8> {
    seq![0x72u8, 0x67, 0x62, 0x3a] + hex2(c.0) + hex2(c.0) + seq![0x2fu8] + hex2(c.1) + hex2(c.1)
        + seq![0x2fu8] + hex2(c.2) + hex2(c.2)
}

proof fn told_as_text(c: (u8, u8, u8))
    ensures
        encode_utf8(super::query::color_text(c.0, c.1, c.2)) == told_color(c),
{
    reveal_strlit("rgb:");
    reveal_strlit("/");
    let t = super::query::color_text(c.0, c.1, c.2);
    let b = told_color(c);
    hex2_reads_back(c.0);
    hex2_reads_back(c.1);
    hex2_reads_back(c.2);
    assert(t.len() == 18 && b.len() == 18);
    assert forall|i: int| 0 <= i < 18 implies #[trigger] t[i] as int == b[i] && b[i] < 128 by {
        assert(b[0] == 0x72 && b[1] == 0x67 && b[2] == 0x62 && b[3] == 0x3a);
        if 4 <= i < 8 {
            assert(t[i] == super::query::hex4(c.0)[i - 4]);
            assert(b[i] == (hex2(c.0) + hex2(c.0))[i - 4]);
        } else if 9 <= i < 13 {
            assert(t[i] == super::query::hex4(c.1)[i - 9]);
            assert(b[i] == (hex2(c.1) + hex2(c.1))[i - 9]);
        } else if 14 <= i < 18 {
            assert(t[i] == super::query::hex4(c.2)[i - 14]);
            assert(b[i] == (hex2(c.2) + hex2(c.2))[i - 14]);
        }
    }
    assert forall|i: int| 0 <= i < 18 implies #[trigger] b[i] < 128 by {
        assert(t[i] as int == b[i]);
    }
    ascii_bytes(t, b);
}

/// A colour of the palette that is asked for is told, and nothing changes.
pub proof fn palette_colors_are_told(g: GridState, i: u8)
    ensures
        replied(
            g,
            g.osc(seq![decimal(4), decimal(i as nat), seq![0x3fu8]]),
            seq![0x1bu8, 0x5d, 0x34, 0x3b] + decimal(i as nat) + seq![0x3bu8] + told_color(
                g.palette.colors[i as int],
            ) + seq![0x1bu8, 0x5c],
        ),
{
    let a = seq![decimal(4), decimal(i as nat), seq![0x3fu8]];
    carried_color(g, a);
    written_numbers_are_read(i as nat, 255);
    told_as_text(g.palette.colors[i as int]);
    assert(crate::text::is_byte(a[2], 0x3f));
    reveal_strlit("\x1b]4;");
    reveal_strlit(";");
    reveal_strlit("\x1b\\");
    ascii_bytes("\x1b]4;"@, seq![0x1bu8, 0x5d, 0x34, 0x3b]);
    ascii_bytes(";"@, seq![0x3bu8]);
    ascii_bytes("\x1b\\"@, seq![0x1bu8, 0x5c]);
    assert(g.osc(a) == g.replying(
        super::osc::color_reply(
            seq![0x1bu8, 0x5d, 0x34, 0x3b] + decimal(i as nat) + seq![0x3bu8],
            g.palette.colors[i as int],
        ),
    ));
}

/// So are the colours of text, background and cursor.
pub proof fn special_colors_are_told(g: GridState, which: Special)
    ensures
        ({
            let (n, digit, color) = match which {
                Special::Foreground => (10nat, 0x30u8, g.palette.fg),
                Special::Background => (11nat, 0x31u8, g.palette.bg),
                Special::Cursor => (12nat, 0x32u8, g.palette.cursor),
            };
            replied(
                g,
                g.osc(seq![decimal(n), seq![0x3fu8]]),
                seq![0x1bu8, 0x5d, 0x31, digit, 0x3b] + told_color(color) + seq![0x1bu8, 0x5c],
            )
        }),
{
    let (n, digit, color) = match which {
        Special::Foreground => (10nat, 0x30u8, g.palette.fg),
        Special::Background => (11nat, 0x31u8, g.palette.bg),
        Special::Cursor => (12nat, 0x32u8, g.palette.cursor),
    };
    let p = seq![decimal(n), seq![0x3fu8]];
    carried_special(g, p, which);
    told_as_text(color);
    reveal_strlit("\x1b]10;");
    reveal_strlit("\x1b]11;");
    reveal_strlit("\x1b]12;");
    reveal_strlit("\x1b\\");
    ascii_bytes("\x1b]10;"@, seq![0x1bu8, 0x5d, 0x31, 0x30, 0x3b]);
    ascii_bytes("\x1b]11;"@, seq![0x1bu8, 0x5d, 0x31, 0x31, 0x3b]);
    ascii_bytes("\x1b]12;"@, seq![0x1bu8, 0x5d, 0x31, 0x32, 0x3b]);
    ascii_bytes("\x1b\\"@, seq![0x1bu8, 0x5c]);
    assert(crate::text::is_byte(p[1], 0x3f));
    assert(super::osc::special_head(which) == seq![0x1bu8, 0x5d, 0x31, digit, 0x3b]);
    assert(g.osc(p) == g.replying(super::osc::color_reply(super::osc::special_head(which), color)));
}

/// A link with a number of its own is known by it, however often it is started.
pub proof fn numbered_links_are_one(g: GridState, n: u32, url: Seq<u8>)
    requires
        valid_utf8(url),
        decode_utf8(url).len() > 0,
    ensures
        ({
            let t = g.osc(seq![decimal(8), seq![0x69u8, 0x64, 0x3d] + decimal(n as nat), url]);
            &&& t.links.active == n
            &&& t.links.urls == g.links.urls.insert(n, decode_utf8(url))
            &&& t.links.next == g.links.next
            &&& t.screen == g.screen
        }),
{
    let id = seq![0x69u8, 0x64, 0x3d] + decimal(n as nat);
    let p = seq![decimal(8), id, url];
    carried_link(g, p);
    numbers_read_back(n as nat);
    written_numbers_are_read(n as nat, 0xffff_ffff);
    assert forall|i: int| 0 <= i < id.len() implies #[trigger] id[i] < 128 && id[i] != 0x3b by {
        if i >= 3 {
            assert(id[i] == decimal(n as nat)[i - 3]);
        }
    }
    let chars = Seq::new(id.len(), |i: int| id[i] as char);
    ascii_bytes(chars, id);
    encode_utf8_valid_utf8(chars);
    crate::text::find_byte_bounds(id, 0x3b, 0);
    assert(crate::text::find_byte(id, 0x3b, 0) == id.len());
    assert(crate::text::split(id, 0x3b) == seq![id]) by {
        reveal_with_fuel(crate::text::split_from, 2);
        assert(id.subrange(0, id.len() as int) =~= id);
    }
    assert(id.subrange(3, id.len() as int) =~= decimal(n as nat));
    reveal_with_fuel(super::osc::first_id, 2);
    assert(super::osc::link_id(id) == Some(n as int));
}

} // verus!
