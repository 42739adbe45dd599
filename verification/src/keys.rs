//! Keyboard events as the bytes sent to the application.
use vstd::prelude::*;
use vstd::utf8::*;

use crate::text::{chars_of, decimal, put_bytes, put_decimal, put_str};

verus! {

/// Kitty keyboard protocol: tell modified keys apart.
pub const KITTY_DISAMBIGUATE: u8 = 1;

/// Kitty keyboard protocol: report repeat and release events.
pub const KITTY_EVENT_TYPES: u8 = 2;

/// Kitty keyboard protocol: report the shifted key too.
pub const KITTY_ALTERNATE: u8 = 4;

/// Kitty keyboard protocol: report every key as an escape code.
pub const KITTY_ALL_KEYS: u8 = 8;

/// Kitty keyboard protocol: report the text a key produces.
pub const KITTY_ASSOC_TEXT: u8 = 16;

/// A key that is not a character.
#[derive(Debug, Clone, Copy, PartialEq, Eq, Structural)]
pub enum NamedKey {
    Enter,
    Tab,
    Space,
    Backspace,
    Escape,
    ArrowUp,
    ArrowDown,
    ArrowRight,
    ArrowLeft,
    Home,
    End,
    PageUp,
    PageDown,
    Insert,
    Delete,
    F1,
    F2,
    F3,
    F4,
    F5,
    F6,
    F7,
    F8,
    F9,
    F10,
    F11,
    F12,
    /// Any other key; none of them sends anything.
    Unmapped,
}

/// What a key press means under the current keyboard layout.
#[derive(Debug)]
pub enum Key {
    /// The key produces this text.
    Character(String),
    /// The key has a name.
    Named(NamedKey),
    /// A dead or unidentified key.
    Unidentified,
}

/// The modifier keys held down.
#[derive(Debug, Clone, Copy, PartialEq, Eq, Structural)]
pub struct ModifiersState {
    pub shift: bool,
    pub alt: bool,
    pub control: bool,
    pub super_key: bool,
}

impl Default for ModifiersState {
    /// No modifier.
    fn default() -> (r: Self)
        ensures
            !r.shift && !r.alt && !r.control && !r.super_key,
    {
        ModifiersState { shift: false, alt: false, control: false, super_key: false }
    }
}

/// True for the C0 and C1 control characters and for DEL.
pub open spec fn is_control(c: char) -> bool {
    c as int <= 0x1f || 0x7f <= c as int <= 0x9f
}

/// True for a control character.
pub fn control_char(c: char) -> (r: bool)
    ensures
        r == is_control(c),
{
    let n: u32 = c as u32;
    n <= 0x1f || (0x7f <= n && n <= 0x9f)
}

/// The code point of a character.
fn char_code(c: char) -> (r: u32)
    ensures
        r == c as int,
{
    c as u32
}

/// An ASCII letter in lower case; anything else as it is.
pub open spec fn lower(c: char) -> int {
    if 0x41 <= c as int <= 0x5a {
        c as int + 32
    } else {
        c as int
    }
}

/// An ASCII letter in upper case; anything else as it is.
pub open spec fn upper(c: char) -> int {
    if 0x61 <= c as int <= 0x7a {
        c as int - 32
    } else {
        c as int
    }
}

/// The control code that Ctrl makes of an ASCII byte: letters `a` to `z` give
/// 1 to 26, and `@ [ \ ] ^ _` give 0 and 27 to 31.
pub open spec fn control_code(b: u8) -> Option<u8> {
    if 0x61 <= b <= 0x7a {
        Some((b - 0x60) as u8)
    } else if b == 0x40 {
        Some(0)
    } else if 0x5b <= b <= 0x5f {
        Some((b - 0x40) as u8)
    } else {
        None
    }
}

/// Map an ASCII byte to its Ctrl-modified C0 control code, or `None` if the
/// byte has no Ctrl combination.
pub fn ctrl_code(b: u8) -> (r: Option<u8>)
    ensures
        r == control_code(b),
{
    if 0x61 <= b && b <= 0x7a {
        Some(b - 0x60)
    } else if b == 0x40 {
        Some(0)
    } else if 0x5b <= b && b <= 0x5f {
        Some(b - 0x40)
    } else {
        None
    }
}

/// One for `true`, zero for `false`.
pub open spec fn bit(b: bool) -> int {
    if b {
        1
    } else {
        0
    }
}

impl ModifiersState {
    /// Shift 1, Alt 2, Ctrl 4, Super 8.
    pub open spec fn kitty_bits(self) -> int {
        bit(self.shift) + 2 * bit(self.alt) + 4 * bit(self.control) + 8 * bit(self.super_key)
    }

    /// One plus Shift 1, Alt 2, Ctrl 4.
    pub open spec fn xterm_param(self) -> int {
        1 + bit(self.shift) + 2 * bit(self.alt) + 4 * bit(self.control)
    }
}

fn bit_value(b: bool) -> (r: u8)
    ensures
        r == bit(b),
        r <= 1,
{
    if b {
        1
    } else {
        0
    }
}

/// Kitty modifier bits: shift=1, alt=2, ctrl=4, super=8.
pub fn kitty_modifier_bits(m: &ModifiersState) -> (r: u8)
    ensures
        r == m.kitty_bits(),
        r <= 15,
{
    bit_value(m.shift) + 2 * bit_value(m.alt) + 4 * bit_value(m.control) + 8 * bit_value(
        m.super_key,
    )
}

/// Kitty modifier parameter = 1 + the modifier bit-field.
pub fn kitty_modifier(m: &ModifiersState) -> (r: u8)
    ensures
        r == 1 + m.kitty_bits(),
{
    1 + kitty_modifier_bits(m)
}

/// Modifier parameter for CSI sequences (1 = no modifier).
pub fn modifier_param(m: &ModifiersState) -> (r: u8)
    ensures
        r == m.xterm_param(),
{
    1 + bit_value(m.shift) + 2 * bit_value(m.alt) + 4 * bit_value(m.control)
}

/// The text of an associated-text field: the code points of the characters
/// that are no controls, after a `;` and with `:` between them.
pub open spec fn text_field(t: Seq<char>) -> Seq<u8>
    decreases t.len(),
{
    if t.len() == 0 {
        Seq::<u8>::empty()
    } else {
        let rest = text_field(t.drop_last());
        if is_control(t.last()) {
            rest
        } else {
            rest.push(
                if rest.len() == 0 {
                    0x3bu8
                } else {
                    0x3au8
                },
            ) + decimal(t.last() as nat)
        }
    }
}

/// The modifier field, needed when a modifier is held or the event is not a
/// press: `;mod`, and `:event` for a reported event.
pub open spec fn modifier_field(kmod: u8, event_type: u8, flags: u8) -> Seq<u8> {
    let event = flags & KITTY_EVENT_TYPES != 0 && event_type != 1;
    if kmod != 1 || event {
        seq![0x3bu8] + decimal(kmod as nat) + if event {
            seq![0x3au8] + decimal(event_type as nat)
        } else {
            Seq::<u8>::empty()
        }
    } else {
        Seq::<u8>::empty()
    }
}

/// `CSI code[:shifted][;mod[:event]][;text] u`.
pub open spec fn csi_u(
    code: u32,
    shifted: Option<u32>,
    kmod: u8,
    event_type: u8,
    flags: u8,
    text: Option<Seq<char>>,
) -> Seq<u8> {
    seq![0x1bu8, 0x5bu8] + decimal(code as nat) + (match shifted {
        Some(sh) => seq![0x3au8] + decimal(sh as nat),
        None => Seq::<u8>::empty(),
    }) + modifier_field(kmod, event_type, flags) + (match text {
        Some(t) => if flags & KITTY_ASSOC_TEXT != 0 {
            text_field(t)
        } else {
            Seq::<u8>::empty()
        },
        None => Seq::<u8>::empty(),
    }) + seq![0x75u8]
}

/// The characters of an optional text.
pub open spec fn text_view(text: Option<&str>) -> Option<Seq<char>> {
    match text {
        Some(t) => Some(t@),
        None => None,
    }
}

fn put_modifier_field(out: &mut Vec<u8>, kmod: u8, event_type: u8, flags: u8)
    ensures
        final(out)@ == old(out)@ + modifier_field(kmod, event_type, flags),
{
    let event = flags & KITTY_EVENT_TYPES != 0 && event_type != 1;
    if kmod != 1 || event {
        out.push(0x3b);
        put_decimal(out, kmod as u64);
        if event {
            out.push(0x3a);
            put_decimal(out, event_type as u64);
        }
    }
    proof {
        assert(out@ =~= old(out)@ + modifier_field(kmod, event_type, flags));
    }
}

fn put_text_field(out: &mut Vec<u8>, text: &str)
    ensures
        final(out)@ == old(out)@ + text_field(text@),
{
    let chars = chars_of(text);
    let n: usize = chars.len();
    let mut first = true;
    let mut i: usize = 0;
    proof {
        assert(chars@.take(0) =~= Seq::<char>::empty());
        assert(out@ =~= old(out)@ + text_field(chars@.take(0)));
    }
    while i < n
        invariant
            i <= n,
            n == chars@.len(),
            chars@ == text@,
            out@ == old(out)@ + text_field(chars@.take(i as int)),
            first == (text_field(chars@.take(i as int)).len() == 0),
        decreases n - i,
    {
        let ghost before = out@;
        let c = chars[i];
        proof {
            assert(chars@.take(i + 1).drop_last() =~= chars@.take(i as int));
            assert(chars@.take(i + 1).last() == c);
        }
        if !control_char(c) {
            out.push(
                if first {
                    0x3b
                } else {
                    0x3a
                },
            );
            put_decimal(out, char_code(c) as u64);
            first = false;
            proof {
                assert(out@ =~= old(out)@ + text_field(chars@.take(i + 1)));
            }
        }
        i += 1;
    }
    proof {
        assert(chars@.take(n as int) =~= text@);
    }
}

/// Build a kitty `CSI ... u` escape code.
///
/// `code` is the unshifted code point (or a functional key code); `shifted` is
/// the alternate shifted code point; `text` is the associated text, sent when
/// the flags ask for it.
pub fn kitty_csi_u(
    code: u32,
    shifted: Option<u32>,
    kmod: u8,
    event_type: u8,
    flags: u8,
    text: Option<&str>,
) -> (r: Vec<u8>)
    ensures
        r@ == csi_u(code, shifted, kmod, event_type, flags, text_view(text)),
{
    let mut s: Vec<u8> = Vec::new();
    s.push(0x1b);
    s.push(0x5b);
    put_decimal(&mut s, code as u64);
    if let Some(sh) = shifted {
        s.push(0x3a);
        put_decimal(&mut s, sh as u64);
    }
    put_modifier_field(&mut s, kmod, event_type, flags);
    if flags & KITTY_ASSOC_TEXT != 0 {
        if let Some(t) = text {
            put_text_field(&mut s, t);
        }
    }
    s.push(0x75);
    proof {
        assert(s@ =~= csi_u(code, shifted, kmod, event_type, flags, text_view(text)));
    }
    s
}

/// How the sequence of a functional key ends.
#[derive(Debug, Clone, Copy, PartialEq, Eq, Structural)]
pub enum Ending {
    /// A cursor key: this final byte.
    Cursor(u8),
    /// F1 to F4: this final byte.
    Function(u8),
    /// This number and `~`.
    Tilde(u16),
}

/// The ending of a functional key.
pub open spec fn ending(named: NamedKey) -> Option<Ending> {
    match named {
        NamedKey::ArrowUp => Some(Ending::Cursor(0x41)),
        NamedKey::ArrowDown => Some(Ending::Cursor(0x42)),
        NamedKey::ArrowRight => Some(Ending::Cursor(0x43)),
        NamedKey::ArrowLeft => Some(Ending::Cursor(0x44)),
        NamedKey::Home => Some(Ending::Cursor(0x48)),
        NamedKey::End => Some(Ending::Cursor(0x46)),
        NamedKey::F1 => Some(Ending::Function(0x50)),
        NamedKey::F2 => Some(Ending::Function(0x51)),
        NamedKey::F3 => Some(Ending::Function(0x52)),
        NamedKey::F4 => Some(Ending::Function(0x53)),
        NamedKey::Insert => Some(Ending::Tilde(2)),
        NamedKey::Delete => Some(Ending::Tilde(3)),
        NamedKey::PageUp => Some(Ending::Tilde(5)),
        NamedKey::PageDown => Some(Ending::Tilde(6)),
        NamedKey::F5 => Some(Ending::Tilde(15)),
        NamedKey::F6 => Some(Ending::Tilde(17)),
        NamedKey::F7 => Some(Ending::Tilde(18)),
        NamedKey::F8 => Some(Ending::Tilde(19)),
        NamedKey::F9 => Some(Ending::Tilde(20)),
        NamedKey::F10 => Some(Ending::Tilde(21)),
        NamedKey::F11 => Some(Ending::Tilde(23)),
        NamedKey::F12 => Some(Ending::Tilde(24)),
        _ => None,
    }
}

fn ending_of(named: NamedKey) -> (r: Option<Ending>)
    ensures
        r == ending(named),
{
    match named {
        NamedKey::ArrowUp => Some(Ending::Cursor(0x41)),
        NamedKey::ArrowDown => Some(Ending::Cursor(0x42)),
        NamedKey::ArrowRight => Some(Ending::Cursor(0x43)),
        NamedKey::ArrowLeft => Some(Ending::Cursor(0x44)),
        NamedKey::Home => Some(Ending::Cursor(0x48)),
        NamedKey::End => Some(Ending::Cursor(0x46)),
        NamedKey::F1 => Some(Ending::Function(0x50)),
        NamedKey::F2 => Some(Ending::Function(0x51)),
        NamedKey::F3 => Some(Ending::Function(0x52)),
        NamedKey::F4 => Some(Ending::Function(0x53)),
        NamedKey::Insert => Some(Ending::Tilde(2)),
        NamedKey::Delete => Some(Ending::Tilde(3)),
        NamedKey::PageUp => Some(Ending::Tilde(5)),
        NamedKey::PageDown => Some(Ending::Tilde(6)),
        NamedKey::F5 => Some(Ending::Tilde(15)),
        NamedKey::F6 => Some(Ending::Tilde(17)),
        NamedKey::F7 => Some(Ending::Tilde(18)),
        NamedKey::F8 => Some(Ending::Tilde(19)),
        NamedKey::F9 => Some(Ending::Tilde(20)),
        NamedKey::F10 => Some(Ending::Tilde(21)),
        NamedKey::F11 => Some(Ending::Tilde(23)),
        NamedKey::F12 => Some(Ending::Tilde(24)),
        _ => None,
    }
}

/// A functional key in the kitty form: `CSI LETTER` or `CSI num ~`, with the
/// modifier field after a `1` or the number.
pub open spec fn functional_bytes(e: Ending, kmod: u8, event_type: u8, flags: u8) -> Seq<u8> {
    let m = modifier_field(kmod, event_type, flags);
    match e {
        Ending::Tilde(n) => seq![0x1bu8, 0x5bu8] + decimal(n as nat) + m + seq![0x7eu8],
        Ending::Cursor(x) | Ending::Function(x) => seq![0x1bu8, 0x5bu8] + (if m.len() > 0 {
            seq![0x31u8] + m
        } else {
            m
        }) + seq![x],
    }
}

/// Encode a functional (named) key in kitty canonical form:
/// `CSI 1;mod LETTER` (arrows, Home, End, F1 to F4) or `CSI num;mod ~` (the
/// rest); `None` for a key that has no such form.
pub fn kitty_functional_key(named: &NamedKey, kmod: u8, event_type: u8, flags: u8) -> (r: Option<
    Vec<u8>,
>)
    ensures
        r is Some <==> ending(*named) is Some,
        r matches Some(v) ==> v@ == functional_bytes(ending(*named)->0, kmod, event_type, flags),
{
    let mut s: Vec<u8> = Vec::new();
    s.push(0x1b);
    s.push(0x5b);
    match ending_of(*named) {
        None => None,
        Some(Ending::Tilde(n)) => {
            put_decimal(&mut s, n as u64);
            put_modifier_field(&mut s, kmod, event_type, flags);
            s.push(0x7e);
            proof {
                assert(s@ =~= functional_bytes(ending(*named)->0, kmod, event_type, flags));
            }
            Some(s)
        },
        Some(Ending::Cursor(x)) | Some(Ending::Function(x)) => {
            let mut m: Vec<u8> = Vec::new();
            put_modifier_field(&mut m, kmod, event_type, flags);
            if m.len() > 0 {
                s.push(0x31);
                put_bytes(&mut s, m.as_slice());
            }
            s.push(x);
            proof {
                assert(m@ =~= modifier_field(kmod, event_type, flags));
                assert(s@ =~= functional_bytes(ending(*named)->0, kmod, event_type, flags));
            }
            Some(s)
        },
    }
}

/// An arrow, Home or End: `CSI X`, or `CSI 1;P X` with a modifier.
pub open spec fn cursor_bytes(final_byte: u8, p: u8) -> Seq<u8> {
    if p == 1 {
        seq![0x1bu8, 0x5bu8, final_byte]
    } else {
        seq![0x1bu8, 0x5bu8, 0x31u8, 0x3bu8] + decimal(p as nat) + seq![final_byte]
    }
}

/// Arrow key: unmodified `ESC [ X`, modified `ESC [ 1 ; P X`.
pub fn modified_csi(final_byte: u8, p: u8) -> (r: Vec<u8>)
    ensures
        r@ == cursor_bytes(final_byte, p),
{
    let mut v: Vec<u8> = Vec::new();
    v.push(0x1b);
    v.push(0x5b);
    if p != 1 {
        v.push(0x31);
        v.push(0x3b);
        put_decimal(&mut v, p as u64);
    }
    v.push(final_byte);
    proof {
        assert(v@ =~= cursor_bytes(final_byte, p));
    }
    v
}

/// Home/End: unmodified `ESC [ H`/`ESC [ F`, modified `ESC [ 1 ; P H/F`.
pub fn home_end(final_byte: u8, p: u8) -> (r: Vec<u8>)
    ensures
        r@ == cursor_bytes(final_byte, p),
{
    modified_csi(final_byte, p)
}

/// A tilde key: `CSI N ~`, or `CSI N;P ~` with a modifier.
pub open spec fn tilde_bytes(code: u16, p: u8) -> Seq<u8> {
    seq![0x1bu8, 0x5bu8] + decimal(code as nat) + (if p != 1 {
        seq![0x3bu8] + decimal(p as nat)
    } else {
        Seq::<u8>::empty()
    }) + seq![0x7eu8]
}

/// Tilde-terminated key: unmodified `ESC [ N ~`, modified `ESC [ N ; P ~`.
pub fn tilde_seq(code: u16, p: u8) -> (r: Vec<u8>)
    ensures
        r@ == tilde_bytes(code, p),
{
    let mut v: Vec<u8> = Vec::new();
    v.push(0x1b);
    v.push(0x5b);
    put_decimal(&mut v, code as u64);
    if p != 1 {
        v.push(0x3b);
        put_decimal(&mut v, p as u64);
    }
    v.push(0x7e);
    proof {
        assert(v@ =~= tilde_bytes(code, p));
    }
    v
}

/// F1 to F4: `SS3 X`, or `CSI 1;P X` with a modifier.
pub open spec fn function_bytes(x: u8, p: u8) -> Seq<u8> {
    if p == 1 {
        seq![0x1bu8, 0x4fu8, x]
    } else {
        cursor_bytes(x, p)
    }
}

/// Function key F1–F4: unmodified SS3 `ESC O X`, modified CSI `ESC [ 1 ; P X`.
pub fn fn_key(x: u8, p: u8) -> (r: Vec<u8>)
    ensures
        r@ == function_bytes(x, p),
{
    if p == 1 {
        let mut v: Vec<u8> = Vec::new();
        v.push(0x1b);
        v.push(0x4f);
        v.push(x);
        proof {
            assert(v@ =~= function_bytes(x, p));
        }
        v
    } else {
        modified_csi(x, p)
    }
}

/// What a named key sends without any protocol enhancement.
pub open spec fn named_bytes(named: NamedKey, m: ModifiersState) -> Seq<u8> {
    let p = m.xterm_param() as u8;
    match named {
        NamedKey::Enter => seq![0x0du8],
        NamedKey::Backspace => seq![0x7fu8],
        NamedKey::Tab => if m.shift {
            seq![0x1bu8, 0x5bu8, 0x5au8]
        } else {
            seq![0x09u8]
        },
        NamedKey::Escape => seq![0x1bu8],
        NamedKey::Space => seq![0x20u8],
        _ => match ending(named) {
            Some(Ending::Cursor(x)) => cursor_bytes(x, p),
            Some(Ending::Function(x)) => function_bytes(x, p),
            Some(Ending::Tilde(n)) => tilde_bytes(n, p),
            None => Seq::<u8>::empty(),
        },
    }
}

/// What a key sends without any protocol enhancement: a character sends its
/// text, after an ESC when Alt is held.
pub open spec fn key_bytes(key: Key, m: ModifiersState) -> Seq<u8> {
    match key {
        Key::Character(s) => if m.alt {
            seq![0x1bu8] + encode_utf8(s@)
        } else {
            encode_utf8(s@)
        },
        Key::Named(named) => named_bytes(named, m),
        Key::Unidentified => Seq::<u8>::empty(),
    }
}

fn one_byte(b: u8) -> (r: Vec<u8>)
    ensures
        r@ == seq![b],
{
    let mut v: Vec<u8> = Vec::new();
    v.push(b);
    proof {
        assert(v@ =~= seq![b]);
    }
    v
}

fn back_tab() -> (r: Vec<u8>)
    ensures
        r@ == seq![0x1bu8, 0x5bu8, 0x5au8],
{
    let mut v: Vec<u8> = Vec::new();
    v.push(0x1b);
    v.push(0x5b);
    v.push(0x5a);
    proof {
        assert(v@ =~= seq![0x1bu8, 0x5bu8, 0x5au8]);
    }
    v
}

/// Encode a key into the bytes sent to the application, in the xterm form.
///
/// With Shift, Alt or Ctrl held, navigation keys send modified CSI sequences
/// (`ESC [ 1 ; P A` for Ctrl+Up) with P = 1 + (Shift?1) + (Alt?2) + (Ctrl?4).
/// Alt with a character sends an `ESC` in front of it.
pub fn encode_key(key: &Key, modifiers: &ModifiersState) -> (r: Vec<u8>)
    ensures
        r@ == key_bytes(*key, *modifiers),
{
    let p: u8 = modifier_param(modifiers);
    match key {
        Key::Character(s) => {
            let mut b: Vec<u8> = Vec::new();
            if modifiers.alt {
                b.push(0x1b);
            }
            put_str(&mut b, s.as_str());
            proof {
                assert(b@ =~= key_bytes(*key, *modifiers));
            }
            b
        },
        Key::Named(named) => match named {
            NamedKey::Enter => one_byte(0x0d),
            NamedKey::Backspace => one_byte(0x7f),
            NamedKey::Tab => if modifiers.shift {
                back_tab()
            } else {
                one_byte(0x09)
            },
            NamedKey::Escape => one_byte(0x1b),
            NamedKey::Space => one_byte(0x20),
            _ => match ending_of(*named) {
                Some(Ending::Cursor(x)) => if x == 0x48 || x == 0x46 {
                    home_end(x, p)
                } else {
                    modified_csi(x, p)
                },
                Some(Ending::Function(x)) => fn_key(x, p),
                Some(Ending::Tilde(n)) => tilde_seq(n, p),
                None => Vec::new(),
            },
        },
        Key::Unidentified => Vec::new(),
    }
}

/// The code of Enter, Tab, Backspace and Escape in the kitty form.
pub open spec fn escape_code(named: NamedKey) -> Option<u32> {
    match named {
        NamedKey::Enter => Some(13),
        NamedKey::Tab => Some(9),
        NamedKey::Backspace => Some(127),
        NamedKey::Escape => Some(27),
        _ => None,
    }
}

/// True when one of those four keys is reported by its code: every key when all
/// keys are, Escape also when keys are told apart, and a modified Tab unless
/// Shift is held.
pub open spec fn escaped_named(named: NamedKey, m: ModifiersState, flags: u8) -> bool {
    ||| flags & KITTY_ALL_KEYS != 0
    ||| flags & KITTY_DISAMBIGUATE != 0 && named == NamedKey::Escape
    ||| flags & KITTY_DISAMBIGUATE != 0 && named == NamedKey::Tab && !m.shift && m.kitty_bits()
        != 0
}

/// The shifted code point reported beside the plain one.
pub open spec fn alternate(ch: char, m: ModifiersState, flags: u8) -> Option<u32> {
    if flags & KITTY_ALTERNATE != 0 && m.shift && upper(ch) != lower(ch) {
        Some(upper(ch) as u32)
    } else {
        None
    }
}

/// What a character key sends under the negotiated enhancements.
pub open spec fn character_bytes(
    s: Seq<char>,
    key: Key,
    m: ModifiersState,
    text: Option<Seq<char>>,
    flags: u8,
    event_type: u8,
    modify_other_keys: u8,
) -> Seq<u8> {
    if s.len() == 0 {
        key_bytes(key, m)
    } else if flags & KITTY_ALL_KEYS != 0 || (flags & KITTY_DISAMBIGUATE != 0 && m.kitty_bits()
        != 0) {
        csi_u(
            lower(s[0]) as u32,
            alternate(s[0], m, flags),
            (1 + m.kitty_bits()) as u8,
            event_type,
            flags,
            text,
        )
    } else if modify_other_keys > 0 && m.xterm_param() != 1 {
        seq![0x1bu8, 0x5bu8, 0x32u8, 0x37u8, 0x3bu8] + decimal(m.xterm_param() as nat)
            + seq![0x3bu8] + decimal(lower(s[0]) as nat) + seq![0x7eu8]
    } else {
        key_bytes(key, m)
    }
}

/// What a key sends under the negotiated enhancements.
pub open spec fn protocol_bytes(
    key: Key,
    m: ModifiersState,
    text: Option<Seq<char>>,
    flags: u8,
    event_type: u8,
    modify_other_keys: u8,
) -> Seq<u8> {
    let kmod = (1 + m.kitty_bits()) as u8;
    let active = flags & KITTY_DISAMBIGUATE != 0 || flags & KITTY_ALL_KEYS != 0;
    match key {
        Key::Character(s) => character_bytes(
            s@,
            key,
            m,
            text,
            flags,
            event_type,
            modify_other_keys,
        ),
        Key::Named(named) => match escape_code(named) {
            Some(code) => if escaped_named(named, m, flags) {
                csi_u(code, None, kmod, event_type, flags, text)
            } else {
                key_bytes(key, m)
            },
            None => match ending(named) {
                Some(e) => if active {
                    functional_bytes(e, kmod, event_type, flags)
                } else {
                    key_bytes(key, m)
                },
                None => key_bytes(key, m),
            },
        },
        Key::Unidentified => key_bytes(key, m),
    }
}

fn encode_character(
    s: &String,
    key: &Key,
    modifiers: &ModifiersState,
    text: Option<&str>,
    flags: u8,
    event_type: u8,
    modify_other_keys: u8,
) -> (r: Vec<u8>)
    ensures
        r@ == character_bytes(
            s@,
            *key,
            *modifiers,
            text_view(text),
            flags,
            event_type,
            modify_other_keys,
        ),
{
    let chars = chars_of(s.as_str());
    if chars.len() == 0 {
        return encode_key(key, modifiers);
    }
    let n: u32 = char_code(chars[0]);
    let code: u32 = if 0x41 <= n && n <= 0x5a {
        n + 32
    } else {
        n
    };
    let capital: u32 = if 0x61 <= n && n <= 0x7a {
        n - 32
    } else {
        n
    };
    let shifted: Option<u32> = if flags & KITTY_ALTERNATE != 0 && modifiers.shift && capital
        != code {
        Some(capital)
    } else {
        None
    };
    let kmod: u8 = kitty_modifier(modifiers);
    if flags & KITTY_ALL_KEYS != 0 || (flags & KITTY_DISAMBIGUATE != 0 && kmod != 1) {
        return kitty_csi_u(code, shifted, kmod, event_type, flags, text);
    }
    let xmod: u8 = modifier_param(modifiers);
    if modify_other_keys > 0 && xmod != 1 {
        let mut v: Vec<u8> = Vec::new();
        v.push(0x1b);
        v.push(0x5b);
        v.push(0x32);
        v.push(0x37);
        v.push(0x3b);
        put_decimal(&mut v, xmod as u64);
        v.push(0x3b);
        put_decimal(&mut v, code as u64);
        v.push(0x7e);
        proof {
            assert(v@ =~= seq![0x1bu8, 0x5bu8, 0x32u8, 0x37u8, 0x3bu8] + decimal(
                modifiers.xterm_param() as nat,
            ) + seq![0x3bu8] + decimal(lower(s@[0]) as nat) + seq![0x7eu8]);
        }
        return v;
    }
    encode_key(key, modifiers)
}

/// Encode a key event, honoring the negotiated kitty keyboard enhancements and
/// xterm's modifyOtherKeys, and in the xterm form otherwise.
///
/// `event_type` is 1 (press), 2 (repeat) or 3 (release); it is only reported
/// when the event-types enhancement is active.
pub fn encode_protocol_key(
    key: &Key,
    modifiers: &ModifiersState,
    text: Option<&str>,
    flags: u8,
    event_type: u8,
    modify_other_keys: u8,
) -> (r: Vec<u8>)
    ensures
        r@ == protocol_bytes(
            *key,
            *modifiers,
            text_view(text),
            flags,
            event_type,
            modify_other_keys,
        ),
{
    let disambig = flags & KITTY_DISAMBIGUATE != 0;
    let all_keys = flags & KITTY_ALL_KEYS != 0;
    let kmod: u8 = kitty_modifier(modifiers);
    match key {
        Key::Character(s) => encode_character(
            s,
            key,
            modifiers,
            text,
            flags,
            event_type,
            modify_other_keys,
        ),
        Key::Named(named) => match named {
            NamedKey::Enter => if all_keys {
                kitty_csi_u(13, None, kmod, event_type, flags, text)
            } else {
                one_byte(0x0d)
            },
            NamedKey::Tab => if all_keys {
                kitty_csi_u(9, None, kmod, event_type, flags, text)
            } else if modifiers.shift {
                back_tab()
            } else if disambig && kmod != 1 {
                kitty_csi_u(9, None, kmod, event_type, flags, text)
            } else {
                one_byte(0x09)
            },
            NamedKey::Backspace => if all_keys {
                kitty_csi_u(127, None, kmod, event_type, flags, text)
            } else {
                one_byte(0x7f)
            },
            NamedKey::Escape => if disambig || all_keys {
                kitty_csi_u(27, None, kmod, event_type, flags, text)
            } else {
                one_byte(0x1b)
            },
            other => {
                if disambig || all_keys {
                    if let Some(bytes) = kitty_functional_key(other, kmod, event_type, flags) {
                        return bytes;
                    }
                }
                encode_key(key, modifiers)
            },
        },
        Key::Unidentified => encode_key(key, modifiers),
    }
}

/// A plain cursor key sequence in the application form; anything else as it is.
pub open spec fn remapped(bytes: Seq<u8>) -> Seq<u8> {
    if bytes.len() == 3 && bytes[0] == 0x1b && bytes[1] == 0x5b && (0x41 <= bytes[2] <= 0x44
        || bytes[2] == 0x48 || bytes[2] == 0x46) {
        bytes.update(1, 0x4f)
    } else {
        bytes
    }
}

/// Application cursor keys (DECCKM): arrows, Home and End switch from CSI
/// (`ESC [`) to SS3 (`ESC O`).
pub fn app_cursor_remap(bytes: &mut Vec<u8>)
    ensures
        final(bytes)@ == remapped(old(bytes)@),
{
    if bytes.len() == 3 && bytes[0] == 0x1b && bytes[1] == 0x5b {
        let b: u8 = bytes[2];
        if (0x41 <= b && b <= 0x44) || b == 0x48 || b == 0x46 {
            bytes.set(1, 0x4f);
        }
    }
}

/// How the application wants its keys, as the grid holds it.
#[derive(Debug, Clone, Copy)]
pub struct KeyProtocol {
    pub kitty_flags: u8,
    pub modify_other_keys: u8,
    pub application_cursor_keys: bool,
}

/// True when neither enhancement that replaces the legacy forms is on.
pub open spec fn legacy(flags: u8) -> bool {
    flags & KITTY_DISAMBIGUATE == 0 && flags & KITTY_ALL_KEYS == 0
}

/// What Ctrl makes of the bytes of a key.
pub open spec fn controlled(bytes: Seq<u8>, m: ModifiersState) -> Seq<u8> {
    if m.control && !m.shift && bytes.len() == 1 && control_code(bytes[0]) is Some {
        seq![control_code(bytes[0])->0]
    } else {
        bytes
    }
}

/// What a key press sends: in legacy mode Ctrl with a letter is a control
/// code, and the cursor keys follow the application cursor mode.
pub open spec fn press_bytes(
    key: Key,
    m: ModifiersState,
    text: Option<Seq<char>>,
    repeat: bool,
    protocol: KeyProtocol,
) -> Seq<u8> {
    let bytes = protocol_bytes(
        key,
        m,
        text,
        protocol.kitty_flags,
        if repeat {
            2
        } else {
            1
        },
        protocol.modify_other_keys,
    );
    if !legacy(protocol.kitty_flags) {
        bytes
    } else if protocol.application_cursor_keys {
        remapped(controlled(bytes, m))
    } else {
        controlled(bytes, m)
    }
}

/// The bytes that a key press sends to the application.
pub fn pressed_key(
    key: &Key,
    modifiers: &ModifiersState,
    text: Option<&str>,
    repeat: bool,
    protocol: KeyProtocol,
) -> (r: Vec<u8>)
    ensures
        r@ == press_bytes(*key, *modifiers, text_view(text), repeat, protocol),
{
    let event_type: u8 = if repeat {
        2
    } else {
        1
    };
    let flags: u8 = protocol.kitty_flags;
    let mut bytes = encode_protocol_key(
        key,
        modifiers,
        text,
        flags,
        event_type,
        protocol.modify_other_keys,
    );
    if flags & KITTY_DISAMBIGUATE == 0 && flags & KITTY_ALL_KEYS == 0 {
        let ghost plain = bytes@;
        if modifiers.control && !modifiers.shift && bytes.len() == 1 {
            if let Some(code) = ctrl_code(bytes[0]) {
                bytes.set(0, code);
            }
        }
        proof {
            assert(bytes@ =~= controlled(plain, *modifiers));
        }
        if protocol.application_cursor_keys {
            app_cursor_remap(&mut bytes);
        }
    }
    bytes
}

/// What a key release sends: nothing unless event types are reported and the
/// release has an escape code.
pub open spec fn release_bytes(
    key: Key,
    m: ModifiersState,
    text: Option<Seq<char>>,
    protocol: KeyProtocol,
) -> Option<Seq<u8>> {
    let bytes = protocol_bytes(
        key,
        m,
        text,
        protocol.kitty_flags,
        3,
        protocol.modify_other_keys,
    );
    if protocol.kitty_flags & KITTY_EVENT_TYPES != 0 && bytes.len() > 1 && bytes[0] == 0x1b {
        Some(bytes)
    } else {
        None
    }
}

/// The bytes that a key release sends to the application, if any.
pub fn released_key(
    key: &Key,
    modifiers: &ModifiersState,
    text: Option<&str>,
    protocol: KeyProtocol,
) -> (r: Option<Vec<u8>>)
    ensures
        r is Some <==> release_bytes(*key, *modifiers, text_view(text), protocol) is Some,
        r matches Some(v) ==> release_bytes(*key, *modifiers, text_view(text), protocol) == Some(
            v@,
        ),
{
    if protocol.kitty_flags & KITTY_EVENT_TYPES != 0 {
        let bytes = encode_protocol_key(
            key,
            modifiers,
            text,
            protocol.kitty_flags,
            3,
            protocol.modify_other_keys,
        );
        if bytes.len() > 1 && bytes[0] == 0x1b {
            return Some(bytes);
        }
    }
    None
}

/// Without the enhancements that replace the legacy forms and without
/// modifyOtherKeys, a key sends what the xterm encoding says.
pub proof fn plain_keys_are_legacy(
    key: Key,
    m: ModifiersState,
    text: Option<Seq<char>>,
    flags: u8,
    event_type: u8,
)
    requires
        legacy(flags),
    ensures
        protocol_bytes(key, m, text, flags, event_type, 0) == key_bytes(key, m),
{
}

/// The application cursor form of a key is remapped only once.
pub proof fn remapping_twice_is_once(bytes: Seq<u8>)
    ensures
        remapped(remapped(bytes)) == remapped(bytes),
{
}

/// With every key reported as an escape code, a character never sends its text
/// alone: what it sends begins with CSI and ends with `u`.
pub proof fn all_keys_are_escapes(
    s: String,
    m: ModifiersState,
    text: Option<Seq<char>>,
    flags: u8,
    event_type: u8,
    modify_other_keys: u8,
)
    requires
        s@.len() > 0,
        flags & KITTY_ALL_KEYS != 0,
    ensures
        ({
            let bytes = protocol_bytes(
                Key::Character(s),
                m,
                text,
                flags,
                event_type,
                modify_other_keys,
            );
            bytes.len() >= 3 && bytes[0] == 0x1b && bytes[1] == 0x5b && bytes.last() == 0x75
        }),
{
}

/// The digit of the xterm modifier parameter: 1, and 1 more for Shift, 2 for
/// Alt, 4 for Ctrl.
pub open spec fn modifier_digit(m: ModifiersState) -> u8 {
    match (m.shift, m.alt, m.control) {
        (false, false, false) => 0x31,
        (true, false, false) => 0x32,
        (false, true, false) => 0x33,
        (true, true, false) => 0x34,
        (false, false, true) => 0x35,
        (true, false, true) => 0x36,
        (false, true, true) => 0x37,
        (true, true, true) => 0x38,
    }
}

/// The modifier parameters have the values that applications know: in the xterm
/// form Shift adds 1, Alt 2 and Ctrl 4 to 1; in the kitty form Super adds 8.
pub proof fn modifier_values(m: ModifiersState)
    ensures
        m.xterm_param() + 0x30 == modifier_digit(m),
        m.kitty_bits() == modifier_digit(m) - 0x31 + (if m.super_key {
            8int
        } else {
            0
        }),
{
}

/// The cursor keys send CSI and their letter, with `1;` and the modifiers before
/// it where any is held.
pub proof fn cursor_keys(m: ModifiersState, named: NamedKey)
    ensures
        ({
            let bytes = key_bytes(Key::Named(named), m);
            let letter: u8 = match named {
                NamedKey::ArrowUp => 0x41,
                NamedKey::ArrowDown => 0x42,
                NamedKey::ArrowRight => 0x43,
                NamedKey::ArrowLeft => 0x44,
                NamedKey::Home => 0x48,
                NamedKey::End => 0x46,
                NamedKey::F1 => 0x50,
                NamedKey::F2 => 0x51,
                NamedKey::F3 => 0x52,
                NamedKey::F4 => 0x53,
                _ => 0,
            };
            let held = m.shift || m.alt || m.control;
            let function = 0x50 <= letter <= 0x53;
            letter != 0 ==> bytes == if held {
                seq![0x1bu8, 0x5b, 0x31, 0x3b, modifier_digit(m), letter]
            } else if function {
                seq![0x1bu8, 0x4f, letter]
            } else {
                seq![0x1bu8, 0x5b, letter]
            }
        }),
{
    let p = m.xterm_param() as nat;
    assert(decimal(p) =~= seq![modifier_digit(m)]);
    let bytes = key_bytes(Key::Named(named), m);
    if m.shift || m.alt || m.control {
        let last = bytes.last();
        assert(seq![0x1bu8, 0x5bu8, 0x31u8, 0x3bu8] + decimal(p) + seq![last] =~= seq![
            0x1bu8,
            0x5b,
            0x31,
            0x3b,
            modifier_digit(m),
            last,
        ]);
    }
}

/// The other keys of the navigation and function blocks send CSI, their number,
/// the modifiers where any is held, and `~`.
pub proof fn numbered_keys(m: ModifiersState, named: NamedKey)
    ensures
        ({
            let bytes = key_bytes(Key::Named(named), m);
            let number: Seq<u8> = match named {
                NamedKey::Insert => seq![0x32u8],
                NamedKey::Delete => seq![0x33u8],
                NamedKey::PageUp => seq![0x35u8],
                NamedKey::PageDown => seq![0x36u8],
                NamedKey::F5 => seq![0x31u8, 0x35],
                NamedKey::F6 => seq![0x31u8, 0x37],
                NamedKey::F7 => seq![0x31u8, 0x38],
                NamedKey::F8 => seq![0x31u8, 0x39],
                NamedKey::F9 => seq![0x32u8, 0x30],
                NamedKey::F10 => seq![0x32u8, 0x31],
                NamedKey::F11 => seq![0x32u8, 0x33],
                NamedKey::F12 => seq![0x32u8, 0x34],
                _ => Seq::empty(),
            };
            let held = m.shift || m.alt || m.control;
            number.len() > 0 ==> bytes == if held {
                seq![0x1bu8, 0x5b] + number + seq![0x3bu8, modifier_digit(m), 0x7e]
            } else {
                seq![0x1bu8, 0x5b] + number + seq![0x7eu8]
            }
        }),
{
    let p = m.xterm_param() as nat;
    assert(decimal(p) =~= seq![modifier_digit(m)]);
    if let Some(Ending::Tilde(n)) = ending(named) {
        reveal_with_fuel(decimal, 3);
        let number = decimal(n as nat);
        assert(number =~= if n < 10 {
            seq![(48 + n) as u8]
        } else {
            seq![(48 + n / 10) as u8, (48 + n % 10) as u8]
        });
        assert(seq![0x1bu8, 0x5bu8] + number + (seq![0x3bu8] + decimal(p)) + seq![0x7eu8] =~= seq![
            0x1bu8,
            0x5b,
        ] + number + seq![0x3bu8, modifier_digit(m), 0x7e]);
        assert(seq![0x1bu8, 0x5bu8] + number + Seq::<u8>::empty() + seq![0x7eu8] =~= seq![
            0x1bu8,
            0x5b,
        ] + number + seq![0x7eu8]);
    }
}

/// Enter, Tab, Backspace, Escape and Space send their control characters, and
/// Tab with Shift the sequence to tab back.
pub proof fn control_keys(m: ModifiersState)
    ensures
        key_bytes(Key::Named(NamedKey::Enter), m) == seq![0x0du8],
        key_bytes(Key::Named(NamedKey::Backspace), m) == seq![0x7fu8],
        key_bytes(Key::Named(NamedKey::Escape), m) == seq![0x1bu8],
        key_bytes(Key::Named(NamedKey::Space), m) == seq![0x20u8],
        key_bytes(Key::Named(NamedKey::Tab), m) == if m.shift {
            seq![0x1bu8, 0x5b, 0x5a]
        } else {
            seq![0x09u8]
        },
        key_bytes(Key::Named(NamedKey::Unmapped), m).len() == 0,
        key_bytes(Key::Unidentified, m).len() == 0,
{
}

/// A character sends its text, with Alt an ESC before it; in legacy mode Ctrl
/// makes a control code of a small letter, which is its place in the alphabet.
pub proof fn character_keys(
    s: String,
    m: ModifiersState,
    text: Option<Seq<char>>,
    repeat: bool,
    application: bool,
)
    ensures
        ({
            let none = KeyProtocol {
                kitty_flags: 0,
                modify_other_keys: 0,
                application_cursor_keys: application,
            };
            let sent = press_bytes(Key::Character(s), m, text, repeat, none);
            let plain = encode_utf8(s@);
            &&& key_bytes(Key::Character(s), m) == if m.alt {
                seq![0x1bu8] + plain
            } else {
                plain
            }
            &&& !m.alt && !m.control && plain.len() == 1 ==> sent == plain
            &&& m.control && !m.shift && !m.alt && plain.len() == 1 && 0x61 <= plain[0] <= 0x7a
                ==> sent.len() == 1 && sent[0] + 0x60 == plain[0]
            &&& m.control && !m.shift && !m.alt && plain.len() == 1 && 0x30 <= plain[0] <= 0x39
                ==> sent == plain
        }),
{
    assert(0u8 & 1 == 0 && 0u8 & 8 == 0) by (bit_vector);
}

/// The application cursor keys begin with SS3 in place of CSI, where no modifier
/// is held; with one they do not change.
pub proof fn application_cursor_keys(m: ModifiersState, named: NamedKey, repeat: bool)
    requires
        named == NamedKey::ArrowUp || named == NamedKey::ArrowDown || named == NamedKey::ArrowRight
            || named == NamedKey::ArrowLeft || named == NamedKey::Home || named == NamedKey::End,
    ensures
        ({
            let on = KeyProtocol {
                kitty_flags: 0,
                modify_other_keys: 0,
                application_cursor_keys: true,
            };
            let off = KeyProtocol {
                kitty_flags: 0,
                modify_other_keys: 0,
                application_cursor_keys: false,
            };
            let a = press_bytes(Key::Named(named), m, None, repeat, on);
            let b = press_bytes(Key::Named(named), m, None, repeat, off);
            &&& b == key_bytes(Key::Named(named), m)
            &&& if m.shift || m.alt || m.control {
                a == b
            } else {
                a == seq![0x1bu8, 0x4f, b[2]] && b.len() == 3
            }
        }),
{
    assert(0u8 & 1 == 0 && 0u8 & 8 == 0) by (bit_vector);
    cursor_keys(m, named);
    let b = key_bytes(Key::Named(named), m);
    if !(m.shift || m.alt || m.control) {
        assert(b.update(1, 0x4f) =~= seq![0x1bu8, 0x4f, b[2]]);
    }
}

proof fn code_point(c: char)
    ensures
        0 <= c as int <= 0x10ffff,
{
}

/// Under the kitty protocol, told to tell keys apart, a character with a
/// modifier sends its code point in lower case, the modifiers and `u`; without
/// one it sends its text.
pub proof fn kitty_characters(s: String, m: ModifiersState, text: Option<Seq<char>>)
    requires
        s@.len() > 0,
    ensures
        ({
            let bytes = protocol_bytes(Key::Character(s), m, text, 1, 1, 0);
            let c = s@[0] as int;
            let code = if 0x41 <= c <= 0x5a {
                c + 0x20
            } else {
                c
            };
            let bits = modifier_digit(m) - 0x31 + (if m.super_key {
                8int
            } else {
                0
            });
            if bits > 0 {
                bytes == seq![0x1bu8, 0x5b] + decimal(code as nat) + seq![0x3bu8] + decimal(
                    (bits + 1) as nat,
                ) + seq![0x75u8]
            } else {
                bytes == encode_utf8(s@)
            }
        }),
{
    assert(1u8 & 1 != 0 && 1u8 & 2 == 0 && 1u8 & 4 == 0 && 1u8 & 8 == 0 && 1u8 & 16 == 0) by (
    bit_vector);
    code_point(s@[0]);
    let code = lower(s@[0]) as nat;
    let k = (1 + m.kitty_bits()) as nat;
    assert(seq![0x1bu8, 0x5bu8] + decimal(code) + Seq::<u8>::empty() + (seq![0x3bu8] + decimal(k)
        + Seq::<u8>::empty()) + Seq::<u8>::empty() + seq![0x75u8] =~= seq![0x1bu8, 0x5b] + decimal(
        code,
    ) + seq![0x3bu8] + decimal(k) + seq![0x75u8]);
}

/// The kitty form of a functional key is the xterm form, where Super is not
/// held; only F1 to F4 begin with CSI in it even without modifiers.
pub proof fn kitty_functional_keys(m: ModifiersState, named: NamedKey)
    requires
        ending(named) is Some,
        !m.super_key,
        !(ending(named)->0 is Function) || m.shift || m.alt || m.control,
    ensures
        protocol_bytes(Key::Named(named), m, None, 1, 1, 0) == key_bytes(Key::Named(named), m),
        protocol_bytes(Key::Named(named), m, None, 8, 1, 0) == key_bytes(Key::Named(named), m),
{
    assert(1u8 & 1 != 0 && 1u8 & 2 == 0 && 8u8 & 2 == 0 && 8u8 & 8 != 0) by (bit_vector);
    let p = m.xterm_param() as nat;
    match ending(named)->0 {
        Ending::Cursor(x) => {
            assert(seq![0x1bu8, 0x5bu8] + (seq![0x31u8] + (seq![0x3bu8] + decimal(p) + Seq::<
                u8,
            >::empty())) + seq![x] =~= seq![0x1bu8, 0x5bu8, 0x31u8, 0x3bu8] + decimal(p) + seq![x]);
            assert(seq![0x1bu8, 0x5bu8] + Seq::<u8>::empty() + seq![x] =~= seq![0x1bu8, 0x5bu8, x]);
        },
        Ending::Function(x) => {
            assert(seq![0x1bu8, 0x5bu8] + (seq![0x31u8] + (seq![0x3bu8] + decimal(p) + Seq::<
                u8,
            >::empty())) + seq![x] =~= seq![0x1bu8, 0x5bu8, 0x31u8, 0x3bu8] + decimal(p) + seq![x]);
        },
        Ending::Tilde(n) => {
            assert(seq![0x3bu8] + decimal(p) + Seq::<u8>::empty() =~= seq![0x3bu8] + decimal(p));
        },
    }
}

/// Releases are told only to applications that ask for event types, and then
/// with the number 3 after the modifiers; repeats have the number 2.
pub proof fn kitty_events(m: ModifiersState, text: Option<Seq<char>>, mok: u8)
    ensures
        ({
            let bytes = release_bytes(
                Key::Named(NamedKey::ArrowUp),
                m,
                text,
                KeyProtocol { kitty_flags: 3, modify_other_keys: mok, application_cursor_keys: false },
            );
            let again = press_bytes(
                Key::Named(NamedKey::ArrowUp),
                m,
                text,
                true,
                KeyProtocol { kitty_flags: 3, modify_other_keys: mok, application_cursor_keys: false },
            );
            let k = (1 + m.kitty_bits()) as nat;
            let told = |e: u8|
                seq![0x1bu8, 0x5b, 0x31, 0x3b] + decimal(k) + seq![0x3au8, e, 0x41];
            &&& bytes == Some(told(0x33))
            &&& again == told(0x32)
        }),
        forall|key: Key, flags: u8|
            flags & 2 == 0 ==> #[trigger] release_bytes(
                key,
                m,
                text,
                KeyProtocol {
                    kitty_flags: flags,
                    modify_other_keys: mok,
                    application_cursor_keys: false,
                },
            ) is None,
{
    assert(3u8 & 1 != 0 && 3u8 & 2 != 0) by (bit_vector);
    let k = (1 + m.kitty_bits()) as nat;
    assert(decimal(3) =~= seq![0x33u8] && decimal(2) =~= seq![0x32u8]);
    assert(seq![0x1bu8, 0x5bu8] + (seq![0x31u8] + (seq![0x3bu8] + decimal(k) + (seq![0x3au8]
        + decimal(3)))) + seq![0x41u8] =~= seq![0x1bu8, 0x5b, 0x31, 0x3b] + decimal(k) + seq![
        0x3au8,
        0x33,
        0x41,
    ]);
    assert(seq![0x1bu8, 0x5bu8] + (seq![0x31u8] + (seq![0x3bu8] + decimal(k) + (seq![0x3au8]
        + decimal(2)))) + seq![0x41u8] =~= seq![0x1bu8, 0x5b, 0x31, 0x3b] + decimal(k) + seq![
        0x3au8,
        0x32,
        0x41,
    ]);
}

/// Under modifyOtherKeys a character with a modifier sends `CSI 27`, the
/// modifiers, its code point in lower case and `~`; without one it sends its
/// text.
pub proof fn other_keys(s: String, m: ModifiersState, text: Option<Seq<char>>, level: u8)
    requires
        s@.len() > 0,
        level > 0,
    ensures
        ({
            let bytes = protocol_bytes(Key::Character(s), m, text, 0, 1, level);
            let c = s@[0] as int;
            let code = if 0x41 <= c <= 0x5a {
                c + 0x20
            } else {
                c
            };
            if m.shift || m.alt || m.control {
                bytes == seq![0x1bu8, 0x5b, 0x32, 0x37, 0x3b, modifier_digit(m), 0x3b] + decimal(
                    code as nat,
                ) + seq![0x7eu8]
            } else {
                bytes == encode_utf8(s@)
            }
        }),
{
    assert(0u8 & 1 == 0 && 0u8 & 8 == 0) by (bit_vector);
    let p = m.xterm_param() as nat;
    assert(decimal(p) =~= seq![modifier_digit(m)]);
    let code = lower(s@[0]) as nat;
    assert(seq![0x1bu8, 0x5bu8, 0x32u8, 0x37u8, 0x3bu8] + decimal(p) + seq![0x3bu8] + decimal(code)
        + seq![0x7eu8] =~= seq![0x1bu8, 0x5b, 0x32, 0x37, 0x3b, modifier_digit(m), 0x3b] + decimal(
        code,
    ) + seq![0x7eu8]);
}

} // verus!
