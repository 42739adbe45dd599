//! Mouse events as control sequences.
use vstd::prelude::*;

use crate::grid::{MouseEncoding, MouseMode};
use crate::text::{decimal, decimal_text, put_number};

verus! {

/// Mouse buttons.
#[derive(Debug, Clone, Copy, PartialEq, Eq, Structural)]
pub enum MouseButton {
    Left,
    Middle,
    Right,
    WheelUp,
    WheelDown,
    WheelLeft,
    WheelRight,
    Other(u16),
}

/// What happened to a button.
#[derive(Debug, Clone, Copy, PartialEq, Eq, Structural)]
pub enum MouseEventType {
    Press,
    Release,
    Motion,
}

/// A mouse event.
#[derive(Debug, Clone, Copy)]
pub struct MouseEvent {
    pub button: MouseButton,
    pub event_type: MouseEventType,
    pub col: u32,
    pub row: u32,
    pub shift: bool,
    pub ctrl: bool,
    pub alt: bool,
}

/// The number of a button.
pub open spec fn button_code(b: MouseButton) -> int {
    match b {
        MouseButton::Left => 0,
        MouseButton::Middle => 1,
        MouseButton::Right => 2,
        MouseButton::WheelUp => 64,
        MouseButton::WheelDown => 65,
        MouseButton::WheelLeft => 66,
        MouseButton::WheelRight => 67,
        MouseButton::Other(n) => n as int,
    }
}

/// A coordinate as far as the legacy encoding reaches.
pub open spec fn capped(v: u32) -> int {
    if v < 223 {
        v as int
    } else {
        223
    }
}

fn cap(v: u32) -> (r: u32)
    ensures
        r == capped(v),
{
    if v < 223 {
        v
    } else {
        223
    }
}

impl MouseEvent {
    /// What motion and the modifiers add to the button.
    pub open spec fn flags(&self) -> int {
        (if self.event_type == MouseEventType::Motion {
            32int
        } else {
            0
        }) + (if self.shift {
            4int
        } else {
            0
        }) + (if self.ctrl {
            8int
        } else {
            0
        }) + (if self.alt {
            16int
        } else {
            0
        })
    }

    /// The button as one byte, with its flags.
    pub open spec fn legacy_code(&self) -> int {
        button_code(self.button) % 256 + self.flags()
    }

    /// The legacy encoding has one byte for the button: it leaves room for the
    /// offset of 32.
    pub open spec fn fits_x10(&self) -> bool {
        &&& self.legacy_code() <= 255
        &&& self.event_type != MouseEventType::Release ==> self.legacy_code() <= 223
    }

    /// The legacy encoding: `CSI M` and three bytes; a release is button 3, and
    /// the coordinates are capped at 223.
    pub open spec fn x10_text(&self) -> Seq<char> {
        let cb = if self.event_type == MouseEventType::Release {
            3
        } else {
            self.legacy_code()
        };
        "\x1b[M"@.push((cb + 32) as char).push((capped(self.col) + 32) as char).push(
            (capped(self.row) + 32) as char,
        )
    }

    /// The SGR encoding: `CSI < Cb ; Cx ; Cy` and `M`, or `m` for a release.
    pub open spec fn sgr_text(&self) -> Seq<char> {
        "\x1b[<"@ + decimal_text((button_code(self.button) + self.flags()) as nat) + ";"@
            + decimal_text(self.col as nat) + ";"@ + decimal_text(self.row as nat) + if self.event_type
            == MouseEventType::Release {
            "m"@
        } else {
            "M"@
        }
    }

    /// The urxvt encoding: `CSI Cb ; Cx ; Cy M`, counting from 1; a release is
    /// button 3.
    pub open spec fn urxvt_text(&self) -> Seq<char> {
        "\x1b["@ + decimal_text(
            (if self.event_type == MouseEventType::Release {
                3
            } else {
                button_code(self.button) + self.flags()
            }) as nat,
        ) + ";"@ + decimal_text((self.col + 1) as nat) + ";"@ + decimal_text((self.row + 1) as nat)
            + "M"@
    }

    /// The event in the given encoding.
    pub open spec fn encoded(&self, encoding: MouseEncoding) -> Seq<char> {
        match encoding {
            MouseEncoding::X10 => self.x10_text(),
            MouseEncoding::SGR => self.sgr_text(),
            MouseEncoding::Urxvt => self.urxvt_text(),
        }
    }

    fn code(&self) -> (r: u32)
        ensures
            r == button_code(self.button),
            r <= 65535,
    {
        match self.button {
            MouseButton::Left => 0,
            MouseButton::Middle => 1,
            MouseButton::Right => 2,
            MouseButton::WheelUp => 64,
            MouseButton::WheelDown => 65,
            MouseButton::WheelLeft => 66,
            MouseButton::WheelRight => 67,
            MouseButton::Other(n) => n as u32,
        }
    }

    fn flag_bits(&self) -> (r: u32)
        ensures
            r == self.flags(),
            r <= 60,
    {
        let motion: u32 = if self.event_type == MouseEventType::Motion {
            32
        } else {
            0
        };
        let shift: u32 = if self.shift {
            4
        } else {
            0
        };
        let ctrl: u32 = if self.ctrl {
            8
        } else {
            0
        };
        let alt: u32 = if self.alt {
            16
        } else {
            0
        };
        motion + shift + ctrl + alt
    }

    /// True when the legacy encoding can write the event.
    pub fn fits(&self) -> (r: bool)
        ensures
            r == self.fits_x10(),
    {
        let code: u32 = self.code() % 256 + self.flag_bits();
        let released = self.event_type == MouseEventType::Release;
        code <= 255 && (released || code <= 223)
    }

    /// The event as a control sequence.
    pub fn encode(&self, encoding: MouseEncoding) -> (r: String)
        requires
            encoding == MouseEncoding::X10 ==> self.fits_x10(),
        ensures
            r@ == self.encoded(encoding),
    {
        match encoding {
            MouseEncoding::X10 => self.encode_x10(),
            MouseEncoding::SGR => self.encode_sgr(),
            MouseEncoding::Urxvt => self.encode_urxvt(),
        }
    }

    fn encode_x10(&self) -> (r: String)
        requires
            self.fits_x10(),
        ensures
            r@ == self.x10_text(),
    {
        let cb: u32 = if self.event_type == MouseEventType::Release {
            3
        } else {
            self.code() % 256 + self.flag_bits()
        };
        let mut r = String::new();
        r.append("\x1b[M");
        proof {
            assert(r@ =~= "\x1b[M"@);
        }
        r.push((cb + 32) as u8 as char);
        r.push((cap(self.col) + 32) as u8 as char);
        r.push((cap(self.row) + 32) as u8 as char);
        r
    }

    fn encode_sgr(&self) -> (r: String)
        ensures
            r@ == self.sgr_text(),
    {
        let cb: u32 = self.code() + self.flag_bits();
        let mut r = String::new();
        r.append("\x1b[<");
        put_number(&mut r, cb as u64);
        r.append(";");
        put_number(&mut r, self.col as u64);
        r.append(";");
        put_number(&mut r, self.row as u64);
        if self.event_type == MouseEventType::Release {
            r.append("m");
        } else {
            r.append("M");
        }
        proof {
            assert(r@ =~= self.sgr_text());
        }
        r
    }

    fn encode_urxvt(&self) -> (r: String)
        ensures
            r@ == self.urxvt_text(),
    {
        let cb: u32 = if self.event_type == MouseEventType::Release {
            3
        } else {
            self.code() + self.flag_bits()
        };
        let mut r = String::new();
        r.append("\x1b[");
        put_number(&mut r, cb as u64);
        r.append(";");
        put_number(&mut r, self.col as u64 + 1);
        r.append(";");
        put_number(&mut r, self.row as u64 + 1);
        r.append("M");
        proof {
            assert(r@ =~= self.urxvt_text());
        }
        r
    }
}

/// The event of a button, where there is a button.
pub fn encode_mouse_event(
    button: Option<MouseButton>,
    event_type: MouseEventType,
    col: u32,
    row: u32,
    shift: bool,
    ctrl: bool,
    alt: bool,
) -> (r: Option<MouseEvent>)
    ensures
        r == match button {
            Some(button) => Some(
                MouseEvent { button, event_type, col, row, shift, ctrl, alt },
            ),
            None => None,
        },
{
    match button {
        Some(button) => Some(MouseEvent { button, event_type, col, row, shift, ctrl, alt }),
        None => None,
    }
}

/// True when the application asked for mouse events.
pub fn is_mouse_tracking_active(mode: MouseMode) -> (r: bool)
    ensures
        r == (mode != MouseMode::Off),
{
    mode != MouseMode::Off
}

/// True when motion is reported: always, while a button is held, or never.
pub fn should_report_motion(mode: MouseMode, button_pressed: bool) -> (r: bool)
    ensures
        r == (mode == MouseMode::AnyEvent || (mode == MouseMode::ButtonEvent && button_pressed)),
{
    match mode {
        MouseMode::Off => false,
        MouseMode::Normal => false,
        MouseMode::ButtonEvent => button_pressed,
        MouseMode::AnyEvent => true,
    }
}

/// The number that a report carries says which button it is about and what was
/// held: one bit each for Shift, Ctrl, Alt and motion, above two for the button
/// and below one for the wheel.
pub open spec fn tells(e: MouseEvent, n: int) -> bool {
    &&& 0 <= n < 128
    &&& (n / 4) % 2 == 1 <==> e.shift
    &&& (n / 8) % 2 == 1 <==> e.ctrl
    &&& (n / 16) % 2 == 1 <==> e.alt
    &&& (n / 32) % 2 == 1 <==> e.event_type == MouseEventType::Motion
    &&& match e.button {
        MouseButton::Left => n % 4 == 0 && n < 64,
        MouseButton::Middle => n % 4 == 1 && n < 64,
        MouseButton::Right => n % 4 == 2 && n < 64,
        MouseButton::WheelUp => n % 4 == 0 && n >= 64,
        MouseButton::WheelDown => n % 4 == 1 && n >= 64,
        MouseButton::WheelLeft => n % 4 == 2 && n >= 64,
        MouseButton::WheelRight => n % 4 == 3 && n >= 64,
        MouseButton::Other(_) => true,
    }
}

proof fn code_tells(e: MouseEvent)
    requires
        e.button !is Other,
    ensures
        tells(e, button_code(e.button) + e.flags()),
{
}

/// The SGR report tells the event: its button and what was held, the column and
/// the row, and by its last letter whether the button was let go.
pub proof fn sgr_reports_tell(e: MouseEvent) -> (n: nat)
    requires
        e.button !is Other,
    ensures
        tells(e, n as int),
        e.encoded(MouseEncoding::SGR) == seq!['\x1b', '[', '<'] + decimal_text(n) + seq![';']
            + decimal_text(e.col as nat) + seq![';'] + decimal_text(e.row as nat) + seq![
            if e.event_type == MouseEventType::Release {
                'm'
            } else {
                'M'
            },
        ],
{
    code_tells(e);
    reveal_strlit("\x1b[<");
    reveal_strlit(";");
    reveal_strlit("m");
    reveal_strlit("M");
    assert("\x1b[<"@ =~= seq!['\x1b', '[', '<']);
    assert(";"@ =~= seq![';']);
    assert("m"@ =~= seq!['m']);
    assert("M"@ =~= seq!['M']);
    (button_code(e.button) + e.flags()) as nat
}

/// The urxvt report tells it too, but of a button that was let go only that.
pub proof fn urxvt_reports_tell(e: MouseEvent) -> (n: nat)
    requires
        e.button !is Other,
    ensures
        if e.event_type == MouseEventType::Release {
            n == 3
        } else {
            tells(e, n as int)
        },
        e.encoded(MouseEncoding::Urxvt) == seq!['\x1b', '['] + decimal_text(n) + seq![';']
            + decimal_text((e.col + 1) as nat) + seq![';'] + decimal_text((e.row + 1) as nat)
            + seq!['M'],
{
    code_tells(e);
    reveal_strlit("\x1b[");
    reveal_strlit(";");
    reveal_strlit("M");
    assert("\x1b["@ =~= seq!['\x1b', '[']);
    assert(";"@ =~= seq![';']);
    assert("M"@ =~= seq!['M']);
    if e.event_type == MouseEventType::Release {
        3
    } else {
        (button_code(e.button) + e.flags()) as nat
    }
}

/// The legacy report has the number, the column and the row as characters, 32
/// further on, as far as cell 223.
pub proof fn x10_reports_tell(e: MouseEvent) -> (n: nat)
    requires
        e.button !is Other,
        e.col <= 223,
        e.row <= 223,
    ensures
        if e.event_type == MouseEventType::Release {
            n == 3
        } else {
            tells(e, n as int)
        },
        e.fits_x10(),
        ({
            let t = e.encoded(MouseEncoding::X10);
            &&& t.len() == 6
            &&& t[0] == '\x1b' && t[1] == '[' && t[2] == 'M'
            &&& t[3] as int == n + 32
            &&& t[4] as int == e.col + 32
            &&& t[5] as int == e.row + 32
        }),
{
    code_tells(e);
    reveal_strlit("\x1b[M");
    if e.event_type == MouseEventType::Release {
        3
    } else {
        (button_code(e.button) + e.flags()) as nat
    }
}

} // verus!
