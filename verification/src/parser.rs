//! The VT/ANSI escape sequence parser: Paul Williams' state machine, driven
//! byte by byte. It hands decoded actions to a [`Perform`].
use vstd::prelude::*;
use vstd::utf8::*;

use crate::grid::params::groups;
use crate::text::{chars_of, copy_bytes, split, split_bytes, utf8_text, views};

verus! {

/// The most parameters that a sequence keeps.
pub const MAX_PARAMS: usize = 32;

/// The most sub-parameters that a parameter keeps.
pub const MAX_SUB_PARAMS: usize = 16;

/// The most intermediate bytes that a sequence keeps.
pub const MAX_INTERMEDIATES: usize = 2;

/// The longest operating system or application program command.
pub const MAX_OSC_LEN: usize = 100_000;

/// What the parser hands to the terminal.
#[allow(inconsistent_fields)]
#[derive(Debug)]
pub enum Action {
    /// A printable character.
    Print(char),
    /// A C0 or C1 control byte.
    Execute(u8),
    /// A control sequence; each parameter comes with its sub-parameters.
    CsiDispatch {
        params: Vec<Vec<u16>>,
        intermediates: Vec<u8>,
        ignore: bool,
        final_byte: u8,
    },
    /// An operating system command, split at `;`.
    OscDispatch { params: Vec<Vec<u8>> },
    /// An application program command.
    ApcDispatch { data: Vec<u8> },
    /// The start of a device control string.
    Hook {
        params: Vec<Vec<u16>>,
        intermediates: Vec<u8>,
        ignore: bool,
        final_byte: u8,
    },
    /// A byte of a device control string.
    Put(u8),
    /// The end of a device control string.
    Unhook,
    /// An escape sequence.
    EscDispatch { intermediates: Vec<u8>, ignore: bool, final_byte: u8 },
}

/// What an action says.
#[allow(inconsistent_fields)]
pub enum ActionState {
    Print(char),
    Execute(u8),
    CsiDispatch {
        params: Seq<Seq<u16>>,
        intermediates: Seq<u8>,
        ignore: bool,
        final_byte: u8,
    },
    OscDispatch { params: Seq<Seq<u8>> },
    ApcDispatch { data: Seq<u8> },
    Hook {
        params: Seq<Seq<u16>>,
        intermediates: Seq<u8>,
        ignore: bool,
        final_byte: u8,
    },
    Put(u8),
    Unhook,
    EscDispatch { intermediates: Seq<u8>, ignore: bool, final_byte: u8 },
}

impl View for Action {
    type V = ActionState;

    open spec fn view(&self) -> ActionState {
        match *self {
            Action::Print(c) => ActionState::Print(c),
            Action::Execute(b) => ActionState::Execute(b),
            Action::CsiDispatch { params, intermediates, ignore, final_byte } =>
                ActionState::CsiDispatch {
                    params: groups(params@),
                    intermediates: intermediates@,
                    ignore,
                    final_byte,
                },
            Action::OscDispatch { params } => ActionState::OscDispatch { params: views(params@) },
            Action::ApcDispatch { data } => ActionState::ApcDispatch { data: data@ },
            Action::Hook { params, intermediates, ignore, final_byte } => ActionState::Hook {
                params: groups(params@),
                intermediates: intermediates@,
                ignore,
                final_byte,
            },
            Action::Put(b) => ActionState::Put(b),
            Action::Unhook => ActionState::Unhook,
            Action::EscDispatch { intermediates, ignore, final_byte } => ActionState::EscDispatch {
                intermediates: intermediates@,
                ignore,
                final_byte,
            },
        }
    }
}

impl Clone for Action {
    fn clone(&self) -> (r: Self)
        ensures
            r@ == self@,
    {
        match self {
            Action::Print(c) => Action::Print(*c),
            Action::Execute(b) => Action::Execute(*b),
            Action::CsiDispatch { params, intermediates, ignore, final_byte } =>
                Action::CsiDispatch {
                    params: copy_groups(params),
                    intermediates: copy_bytes(intermediates.as_slice()),
                    ignore: *ignore,
                    final_byte: *final_byte,
                },
            Action::OscDispatch { params } => Action::OscDispatch { params: copy_strings(params) },
            Action::ApcDispatch { data } => Action::ApcDispatch {
                data: copy_bytes(data.as_slice()),
            },
            Action::Hook { params, intermediates, ignore, final_byte } => Action::Hook {
                params: copy_groups(params),
                intermediates: copy_bytes(intermediates.as_slice()),
                ignore: *ignore,
                final_byte: *final_byte,
            },
            Action::Put(b) => Action::Put(*b),
            Action::Unhook => Action::Unhook,
            Action::EscDispatch { intermediates, ignore, final_byte } => Action::EscDispatch {
                intermediates: copy_bytes(intermediates.as_slice()),
                ignore: *ignore,
                final_byte: *final_byte,
            },
        }
    }
}

/// What carries out the actions of the parser.
pub trait Perform: Sized {
    /// The performer is in a state to take actions.
    spec fn ready(self) -> bool;

    /// The action can leave the performer as `post`.
    spec fn performed(self, action: ActionState, post: Self) -> bool;

    /// Taking the first `n` of `bytes` as text can leave the performer as
    /// `post`.
    spec fn ran(self, bytes: Seq<u8>, n: int, post: Self) -> bool;

    /// Carry out an action.
    fn perform(&mut self, action: Action)
        requires
            old(self).ready(),
        ensures
            final(self).ready(),
            old(self).performed(action@, *final(self)),
    ;

    /// Take a run of text from the start of `bytes`: printable ASCII and LF,
    /// CR, BS, HT. The number of bytes taken; 0 leaves all to `perform`.
    fn print_ascii_run(&mut self, bytes: &[u8]) -> (n: usize)
        requires
            old(self).ready(),
        ensures
            final(self).ready(),
            n <= bytes@.len(),
            old(self).ran(bytes@, n as int, *final(self)),
    ;
}

/// Carrying out `actions` in turn can leave `p` as `q`.
pub open spec fn performs<P: Perform>(p: P, actions: Seq<ActionState>, q: P) -> bool
    decreases actions.len(),
{
    if actions.len() == 0 {
        p == q
    } else if actions.len() == 1 {
        p.performed(actions[0], q)
    } else {
        exists|m: P|
            #![trigger p.performed(actions[0], m)]
            p.performed(actions[0], m) && performs(m, actions.skip(1), q)
    }
}

/// The action for a byte of plain text, where it has one.
pub open spec fn text_action(b: u8) -> Option<ActionState> {
    if b == 0x0a || b == 0x0d || b == 0x08 || b == 0x09 {
        Some(ActionState::Execute(b))
    } else if 0x20 <= b <= 0x7e {
        Some(ActionState::Print(b as char))
    } else {
        None
    }
}

/// How many bytes from index `i` on are plain text.
pub open spec fn text_len(bytes: Seq<u8>, i: int) -> int
    decreases bytes.len() - i,
{
    if 0 <= i < bytes.len() && text_action(bytes[i]) is Some {
        text_len(bytes, i + 1)
    } else {
        i
    }
}

/// Performing the text bytes `i..n` one at a time can leave `p` as `q`.
pub open spec fn each_performed<P: Perform>(p: P, bytes: Seq<u8>, i: int, n: int, q: P) -> bool
    decreases n - i,
{
    if i >= n || i < 0 || n > bytes.len() {
        p == q
    } else {
        exists|m: P|
            #![trigger p.performed(text_action(bytes[i])->0, m)]
            p.performed(text_action(bytes[i])->0, m) && each_performed(m, bytes, i + 1, n, q)
    }
}

/// Take a run of text by performing one action for each byte: a run without a
/// fast path.
pub fn print_each<P: Perform>(performer: &mut P, bytes: &[u8]) -> (n: usize)
    requires
        old(performer).ready(),
    ensures
        final(performer).ready(),
        n <= bytes@.len(),
        n == text_len(bytes@, 0),
        each_performed(*old(performer), bytes@, 0, n as int, *final(performer)),
{
    let mut i: usize = 0;
    let ghost total = text_len(bytes@, 0);
    proof {
        text_len_bounds(bytes@, 0);
    }
    while i < bytes.len()
        invariant
            i <= bytes@.len(),
            i <= total <= bytes@.len(),
            total == text_len(bytes@, 0),
            total == text_len(bytes@, i as int),
            performer.ready(),
            forall|q: P|
                each_performed(*performer, bytes@, i as int, total, q) ==> #[trigger] each_performed(
                    *old(performer),
                    bytes@,
                    0,
                    total,
                    q,
                ),
        decreases bytes@.len() - i,
    {
        let b: u8 = bytes[i];
        let ghost before = *performer;
        if b == 0x0a || b == 0x0d || b == 0x08 || b == 0x09 {
            performer.perform(Action::Execute(b));
        } else if 0x20 <= b && b <= 0x7e {
            performer.perform(Action::Print(b as char));
        } else {
            proof {
                assert(each_performed(*performer, bytes@, i as int, total, *performer));
            }
            return i;
        }
        proof {
            text_len_bounds(bytes@, i + 1);
            assert forall|q: P|
                each_performed(*performer, bytes@, i + 1, total, q) implies #[trigger] each_performed(
                *old(performer),
                bytes@,
                0,
                total,
                q,
            ) by {
                assert(before.performed(text_action(bytes@[i as int])->0, *performer));
                assert(each_performed(before, bytes@, i as int, total, q));
            }
        }
        i += 1;
    }
    proof {
        assert(each_performed(*performer, bytes@, i as int, total, *performer));
    }
    i
}

/// A run of text lies within the bytes.
pub proof fn text_len_bounds(bytes: Seq<u8>, i: int)
    requires
        0 <= i <= bytes.len(),
    ensures
        i <= text_len(bytes, i) <= bytes.len(),
    decreases bytes.len() - i,
{
    if i < bytes.len() && text_action(bytes[i]) is Some {
        text_len_bounds(bytes, i + 1);
    }
}

// ---------------------------------------------------------------------------
// The state machine
// ---------------------------------------------------------------------------

/// The states of the parser.
#[derive(Debug, Clone, Copy, PartialEq, Eq, Structural)]
pub enum State {
    Ground,
    Escape,
    EscapeIntermediate,
    CsiEntry,
    CsiParam,
    CsiIntermediate,
    CsiIgnore,
    OscString,
    DcsEntry,
    DcsParam,
    DcsIntermediate,
    DcsIgnore,
    DcsPassthrough,
    /// SOS and PM: absorbed.
    SosPmString,
    ApcString,
    Utf8,
}

/// What the parser remembers.
pub struct ParserState {
    pub state: State,
    /// Parameters with their sub-parameters; the last one is still open.
    pub params: Seq<Seq<u16>>,
    /// The number whose digits are being read.
    pub current: u16,
    pub intermediates: Seq<u8>,
    /// More intermediates came than are kept.
    pub ignore: bool,
    pub osc: Seq<u8>,
    pub apc: Seq<u8>,
    /// The bytes of a character so far, and how many are still to come.
    pub utf8: Seq<u8>,
    pub remaining: int,
}

/// A C0 control other than CAN, SUB and ESC.
pub open spec fn is_c0(b: u8) -> bool {
    b <= 0x17 || b == 0x19 || 0x1c <= b <= 0x1f
}

/// `n` with one more decimal digit, as far as 16 bits reach.
pub open spec fn with_digit(n: u16, d: int) -> u16 {
    let tens = if n * 10 > 65535 {
        65535
    } else {
        n * 10
    };
    if tens + d > 65535 {
        65535
    } else {
        (tens + d) as u16
    }
}

impl ParserState {
    /// The parser at the start.
    pub open spec fn initial() -> ParserState {
        ParserState {
            state: State::Ground,
            params: seq![Seq::empty()],
            current: 0,
            intermediates: Seq::empty(),
            ignore: false,
            osc: Seq::empty(),
            apc: Seq::empty(),
            utf8: Seq::empty(),
            remaining: 0,
        }
    }

    /// What the parser remembers is bounded.
    pub open spec fn wf(self) -> bool {
        &&& 1 <= self.params.len() <= MAX_PARAMS
        &&& forall|i: int|
            0 <= i < self.params.len() ==> (#[trigger] self.params[i]).len() <= MAX_SUB_PARAMS
        &&& self.intermediates.len() <= MAX_INTERMEDIATES
        &&& self.osc.len() <= MAX_OSC_LEN
        &&& self.apc.len() <= MAX_OSC_LEN
        &&& self.state == State::Utf8 ==> 1 <= self.remaining <= 3 && 1 <= self.utf8.len()
            && self.utf8.len() + self.remaining <= 4
    }

    /// A state entered; some begin with nothing collected.
    pub open spec fn to(self, next: State) -> ParserState {
        let fresh = next == State::Escape || next == State::CsiEntry || next == State::DcsEntry;
        ParserState {
            state: next,
            params: if fresh {
                seq![Seq::empty()]
            } else {
                self.params
            },
            current: if fresh {
                0
            } else {
                self.current
            },
            intermediates: if fresh {
                Seq::empty()
            } else {
                self.intermediates
            },
            ignore: !fresh && self.ignore,
            osc: if next == State::OscString {
                Seq::empty()
            } else {
                self.osc
            },
            apc: if next == State::ApcString {
                Seq::empty()
            } else {
                self.apc
            },
            ..self
        }
    }

    /// An intermediate byte collected.
    pub open spec fn collected(self, b: u8) -> ParserState {
        if self.intermediates.len() < MAX_INTERMEDIATES {
            ParserState { intermediates: self.intermediates.push(b), ..self }
        } else {
            ParserState { ignore: true, ..self }
        }
    }

    /// A digit of a parameter.
    pub open spec fn digit(self, b: u8) -> ParserState {
        ParserState { current: with_digit(self.current, b - 0x30), ..self }
    }

    /// The number that was being read added to the open parameter.
    pub open spec fn flushed(self) -> ParserState {
        let last = self.params.last();
        ParserState {
            params: if last.len() < MAX_SUB_PARAMS {
                self.params.update(self.params.len() - 1, last.push(self.current))
            } else {
                self.params
            },
            current: 0,
            ..self
        }
    }

    /// The next parameter opened.
    pub open spec fn separated(self) -> ParserState {
        let s = self.flushed();
        if s.params.len() < MAX_PARAMS {
            ParserState { params: s.params.push(Seq::empty()), ..s }
        } else {
            s
        }
    }

    pub open spec fn esc_action(self, b: u8) -> ActionState {
        ActionState::EscDispatch {
            intermediates: self.intermediates,
            ignore: self.ignore,
            final_byte: b,
        }
    }

    pub open spec fn csi_action(self, b: u8) -> ActionState {
        ActionState::CsiDispatch {
            params: self.params,
            intermediates: self.intermediates,
            ignore: self.ignore,
            final_byte: b,
        }
    }

    pub open spec fn hook_action(self, b: u8) -> ActionState {
        ActionState::Hook {
            params: self.params,
            intermediates: self.intermediates,
            ignore: self.ignore,
            final_byte: b,
        }
    }

    pub open spec fn osc_action(self) -> ActionState {
        ActionState::OscDispatch { params: split(self.osc, 0x3b) }
    }

    /// The action of a complete control string that is being left.
    pub open spec fn exit_actions(self) -> Seq<ActionState> {
        if self.state == State::DcsPassthrough {
            seq![ActionState::Unhook]
        } else if self.state == State::ApcString {
            seq![ActionState::ApcDispatch { data: self.apc }]
        } else {
            Seq::empty()
        }
    }

    /// The first byte of a character of several bytes.
    pub open spec fn utf8_begun(self, b: u8, remaining: int) -> ParserState {
        ParserState { utf8: seq![b], remaining, state: State::Utf8, ..self }
    }

    pub open spec fn ground(self, b: u8) -> (ParserState, Seq<ActionState>) {
        if is_c0(b) {
            (self, seq![ActionState::Execute(b)])
        } else if 0x20 <= b <= 0x7e {
            (self, seq![ActionState::Print(b as char)])
        } else if 0xc0 <= b <= 0xdf {
            (self.utf8_begun(b, 1), Seq::empty())
        } else if 0xe0 <= b <= 0xef {
            (self.utf8_begun(b, 2), Seq::empty())
        } else if 0xf0 <= b <= 0xf7 {
            (self.utf8_begun(b, 3), Seq::empty())
        } else {
            (self, Seq::empty())
        }
    }

    pub open spec fn escape(self, b: u8) -> (ParserState, Seq<ActionState>) {
        if is_c0(b) {
            (self, seq![ActionState::Execute(b)])
        } else if 0x20 <= b <= 0x2f {
            (self.collected(b).to(State::EscapeIntermediate), Seq::empty())
        } else if b == 0x50 {
            (self.to(State::DcsEntry), Seq::empty())
        } else if b == 0x58 || b == 0x5e {
            (self.to(State::SosPmString), Seq::empty())
        } else if b == 0x5f {
            (self.to(State::ApcString), Seq::empty())
        } else if b == 0x5b {
            (self.to(State::CsiEntry), Seq::empty())
        } else if b == 0x5d {
            (self.to(State::OscString), Seq::empty())
        } else if 0x30 <= b <= 0x7e {
            (self.to(State::Ground), seq![self.esc_action(b)])
        } else {
            (self, Seq::empty())
        }
    }

    pub open spec fn escape_intermediate(self, b: u8) -> (ParserState, Seq<ActionState>) {
        if is_c0(b) {
            (self, seq![ActionState::Execute(b)])
        } else if 0x20 <= b <= 0x2f {
            (self.collected(b), Seq::empty())
        } else if 0x30 <= b <= 0x7e {
            (self.to(State::Ground), seq![self.esc_action(b)])
        } else {
            (self, Seq::empty())
        }
    }

    pub open spec fn csi_entry(self, b: u8) -> (ParserState, Seq<ActionState>) {
        if is_c0(b) {
            (self, seq![ActionState::Execute(b)])
        } else if 0x20 <= b <= 0x2f {
            (self.collected(b).to(State::CsiIntermediate), Seq::empty())
        } else if 0x30 <= b <= 0x39 {
            (self.digit(b).to(State::CsiParam), Seq::empty())
        } else if b == 0x3a {
            (self.flushed().to(State::CsiParam), Seq::empty())
        } else if b == 0x3b {
            (self.separated().to(State::CsiParam), Seq::empty())
        } else if 0x3c <= b <= 0x3f {
            (self.collected(b).to(State::CsiParam), Seq::empty())
        } else if 0x40 <= b <= 0x7e {
            (self.flushed().to(State::Ground), seq![self.flushed().csi_action(b)])
        } else {
            (self, Seq::empty())
        }
    }

    pub open spec fn csi_param(self, b: u8) -> (ParserState, Seq<ActionState>) {
        if is_c0(b) {
            (self, seq![ActionState::Execute(b)])
        } else if 0x20 <= b <= 0x2f {
            (self.collected(b).to(State::CsiIntermediate), Seq::empty())
        } else if 0x30 <= b <= 0x39 {
            (self.digit(b), Seq::empty())
        } else if b == 0x3a {
            (self.flushed(), Seq::empty())
        } else if b == 0x3b {
            (self.separated(), Seq::empty())
        } else if 0x3c <= b <= 0x3f {
            (self.to(State::CsiIgnore), Seq::empty())
        } else if 0x40 <= b <= 0x7e {
            (self.flushed().to(State::Ground), seq![self.flushed().csi_action(b)])
        } else {
            (self, Seq::empty())
        }
    }

    pub open spec fn csi_intermediate(self, b: u8) -> (ParserState, Seq<ActionState>) {
        if is_c0(b) {
            (self, seq![ActionState::Execute(b)])
        } else if 0x20 <= b <= 0x2f {
            (self.collected(b), Seq::empty())
        } else if 0x30 <= b <= 0x3f {
            (self.to(State::CsiIgnore), Seq::empty())
        } else if 0x40 <= b <= 0x7e {
            (self.flushed().to(State::Ground), seq![self.flushed().csi_action(b)])
        } else {
            (self, Seq::empty())
        }
    }

    pub open spec fn csi_ignore(self, b: u8) -> (ParserState, Seq<ActionState>) {
        if is_c0(b) {
            (self, seq![ActionState::Execute(b)])
        } else if 0x40 <= b <= 0x7e {
            (self.to(State::Ground), Seq::empty())
        } else {
            (self, Seq::empty())
        }
    }

    /// Inside an operating system command, bytes from 0x80 on are data: the
    /// command is UTF-8. It ends with BEL or ESC; CAN and SUB abort it.
    pub open spec fn osc_string(self, b: u8) -> (ParserState, Seq<ActionState>) {
        if b == 0x07 {
            (self.to(State::Ground), seq![self.osc_action()])
        } else if b == 0x1b {
            (self.to(State::Escape), seq![self.osc_action()])
        } else if b == 0x18 || b == 0x1a {
            (self.to(State::Ground), seq![ActionState::Execute(b)])
        } else if b >= 0x20 && self.osc.len() < MAX_OSC_LEN {
            (ParserState { osc: self.osc.push(b), ..self }, Seq::empty())
        } else {
            (self, Seq::empty())
        }
    }

    pub open spec fn dcs_entry(self, b: u8) -> (ParserState, Seq<ActionState>) {
        if 0x20 <= b <= 0x2f {
            (self.collected(b).to(State::DcsIntermediate), Seq::empty())
        } else if 0x30 <= b <= 0x39 {
            (self.digit(b).to(State::DcsParam), Seq::empty())
        } else if b == 0x3b {
            (self.separated().to(State::DcsParam), Seq::empty())
        } else if 0x3c <= b <= 0x3f {
            (self.collected(b).to(State::DcsParam), Seq::empty())
        } else if 0x40 <= b <= 0x7e {
            (self.flushed().to(State::DcsPassthrough), seq![self.flushed().hook_action(b)])
        } else {
            (self, Seq::empty())
        }
    }

    pub open spec fn dcs_param(self, b: u8) -> (ParserState, Seq<ActionState>) {
        if 0x20 <= b <= 0x2f {
            (self.collected(b).to(State::DcsIntermediate), Seq::empty())
        } else if 0x30 <= b <= 0x39 {
            (self.digit(b), Seq::empty())
        } else if b == 0x3b {
            (self.separated(), Seq::empty())
        } else if 0x3c <= b <= 0x3f {
            (self.to(State::DcsIgnore), Seq::empty())
        } else if 0x40 <= b <= 0x7e {
            (self.flushed().to(State::DcsPassthrough), seq![self.flushed().hook_action(b)])
        } else {
            (self, Seq::empty())
        }
    }

    pub open spec fn dcs_intermediate(self, b: u8) -> (ParserState, Seq<ActionState>) {
        if 0x20 <= b <= 0x2f {
            (self.collected(b), Seq::empty())
        } else if 0x30 <= b <= 0x3f {
            (self.to(State::DcsIgnore), Seq::empty())
        } else if 0x40 <= b <= 0x7e {
            (self.flushed().to(State::DcsPassthrough), seq![self.flushed().hook_action(b)])
        } else {
            (self, Seq::empty())
        }
    }

    pub open spec fn dcs_passthrough(self, b: u8) -> (ParserState, Seq<ActionState>) {
        if (is_c0(b) && b != 0x1f) || 0x20 <= b <= 0x7e {
            (self, seq![ActionState::Put(b)])
        } else {
            (self, Seq::empty())
        }
    }

    pub open spec fn apc_string(self, b: u8) -> (ParserState, Seq<ActionState>) {
        if b >= 0x20 && self.apc.len() < MAX_OSC_LEN {
            (ParserState { apc: self.apc.push(b), ..self }, Seq::empty())
        } else {
            (self, Seq::empty())
        }
    }

    /// A byte that acts according to the state.
    pub open spec fn in_state(self, b: u8) -> (ParserState, Seq<ActionState>) {
        match self.state {
            State::Ground => self.ground(b),
            State::Escape => self.escape(b),
            State::EscapeIntermediate => self.escape_intermediate(b),
            State::CsiEntry => self.csi_entry(b),
            State::CsiParam => self.csi_param(b),
            State::CsiIntermediate => self.csi_intermediate(b),
            State::CsiIgnore => self.csi_ignore(b),
            State::DcsEntry => self.dcs_entry(b),
            State::DcsParam => self.dcs_param(b),
            State::DcsIntermediate => self.dcs_intermediate(b),
            State::DcsPassthrough => self.dcs_passthrough(b),
            State::ApcString => self.apc_string(b),
            _ => (self, Seq::empty()),
        }
    }

    /// A byte outside operating system commands and characters of several
    /// bytes: some act the same in every state.
    pub open spec fn anywhere(self, b: u8) -> (ParserState, Seq<ActionState>) {
        if b == 0x18 || b == 0x1a {
            (self.to(State::Ground), seq![ActionState::Execute(b)])
        } else if b == 0x1b {
            (self.to(State::Escape), self.exit_actions())
        } else if 0x80 <= b <= 0x8f || 0x91 <= b <= 0x97 || b == 0x99 || b == 0x9a {
            (self.to(State::Ground), seq![ActionState::Execute(b)])
        } else if b == 0x90 {
            (self.to(State::DcsEntry), Seq::empty())
        } else if b == 0x98 || b == 0x9e {
            (self.to(State::SosPmString), Seq::empty())
        } else if b == 0x9f {
            (self.to(State::ApcString), Seq::empty())
        } else if b == 0x9b {
            (self.to(State::CsiEntry), Seq::empty())
        } else if b == 0x9c {
            (self.to(State::Ground), self.exit_actions())
        } else if b == 0x9d {
            (self.to(State::OscString), Seq::empty())
        } else {
            self.in_state(b)
        }
    }

    /// The character whose bytes are `bytes`, U+FFFD where they are none.
    pub open spec fn utf8_char(bytes: Seq<u8>) -> char {
        if valid_utf8(bytes) {
            decode_utf8(bytes)[0]
        } else {
            '\u{FFFD}'
        }
    }

    /// A byte within a character of several bytes.
    pub open spec fn utf8(self, b: u8) -> (ParserState, Seq<ActionState>) {
        let ground = ParserState { state: State::Ground, ..self };
        if 0x80 <= b <= 0xbf {
            let bytes = self.utf8.push(b);
            let next = ParserState { utf8: bytes, remaining: self.remaining - 1, ..self };
            if self.remaining == 1 {
                (
                    ParserState { state: State::Ground, ..next },
                    seq![ActionState::Print(ParserState::utf8_char(bytes))],
                )
            } else {
                (next, Seq::empty())
            }
        } else {
            (
                ground.anywhere(b).0,
                seq![ActionState::Print('\u{FFFD}')] + ground.anywhere(b).1,
            )
        }
    }

    /// One byte taken: the parser after it, and the actions.
    pub open spec fn advanced(self, b: u8) -> (ParserState, Seq<ActionState>) {
        if self.state == State::Utf8 {
            self.utf8(b)
        } else if self.state == State::OscString {
            self.osc_string(b)
        } else {
            self.anywhere(b)
        }
    }
}

/// Taking `bytes` can leave the parser `s` and the performer `p` as `t` and
/// `q`: in the ground state the performer takes what text it will, and every
/// other byte advances the parser.
pub open spec fn fed<P: Perform>(
    s: ParserState,
    p: P,
    bytes: Seq<u8>,
    t: ParserState,
    q: P,
) -> bool
    decreases bytes.len(),
{
    if bytes.len() == 0 {
        s == t && p == q
    } else if s.state == State::Ground {
        exists|n: int, m: P|
            #![trigger p.ran(bytes, n, m)]
            p.ran(bytes, n, m) && 0 <= n <= bytes.len() && if n > 0 {
                fed(s, m, bytes.skip(n), t, q)
            } else {
                exists|k: P|
                    #![trigger performs(m, s.advanced(bytes[0]).1, k)]
                    performs(m, s.advanced(bytes[0]).1, k) && fed(
                        s.advanced(bytes[0]).0,
                        k,
                        bytes.skip(1),
                        t,
                        q,
                    )
            }
    } else {
        exists|k: P|
            #![trigger performs(p, s.advanced(bytes[0]).1, k)]
            performs(p, s.advanced(bytes[0]).1, k) && fed(
                s.advanced(bytes[0]).0,
                k,
                bytes.skip(1),
                t,
                q,
            )
    }
}

// ---------------------------------------------------------------------------
// Executable
// ---------------------------------------------------------------------------

/// The parser.
#[derive(Debug)]
pub struct Parser {
    state: State,
    params: Vec<Vec<u16>>,
    current_param: u16,
    intermediates: Vec<u8>,
    ignore: bool,
    osc_buf: Vec<u8>,
    apc_buf: Vec<u8>,
    utf8_buf: Vec<u8>,
    utf8_remaining: usize,
}

impl View for Parser {
    type V = ParserState;

    closed spec fn view(&self) -> ParserState {
        ParserState {
            state: self.state,
            params: groups(self.params@),
            current: self.current_param,
            intermediates: self.intermediates@,
            ignore: self.ignore,
            osc: self.osc_buf@,
            apc: self.apc_buf@,
            utf8: self.utf8_buf@,
            remaining: self.utf8_remaining as int,
        }
    }
}

fn copy_numbers(v: &Vec<u16>) -> (r: Vec<u16>)
    ensures
        r@ == v@,
{
    let mut r: Vec<u16> = Vec::new();
    let mut i: usize = 0;
    while i < v.len()
        invariant
            i <= v@.len(),
            r@ == v@.take(i as int),
        decreases v@.len() - i,
    {
        r.push(v[i]);
        i += 1;
        proof {
            assert(r@ =~= v@.take(i as int));
        }
    }
    proof {
        assert(v@.take(v@.len() as int) =~= v@);
    }
    r
}

fn copy_strings(v: &Vec<Vec<u8>>) -> (r: Vec<Vec<u8>>)
    ensures
        views(r@) == views(v@),
{
    let mut r: Vec<Vec<u8>> = Vec::new();
    let mut i: usize = 0;
    while i < v.len()
        invariant
            i <= v@.len(),
            views(r@) == views(v@).take(i as int),
        decreases v@.len() - i,
    {
        let ghost before = r@;
        r.push(copy_bytes(v[i].as_slice()));
        i += 1;
        proof {
            assert(views(r@) =~= views(before).push(v@[i - 1]@));
            assert(views(v@).take(i as int) =~= views(v@).take(i - 1).push(v@[i - 1]@));
        }
    }
    proof {
        assert(views(v@).take(v@.len() as int) =~= views(v@));
    }
    r
}

fn copy_groups(v: &Vec<Vec<u16>>) -> (r: Vec<Vec<u16>>)
    ensures
        groups(r@) == groups(v@),
{
    let mut r: Vec<Vec<u16>> = Vec::new();
    let mut i: usize = 0;
    while i < v.len()
        invariant
            i <= v@.len(),
            groups(r@) == groups(v@).take(i as int),
        decreases v@.len() - i,
    {
        let ghost before = r@;
        r.push(copy_numbers(&v[i]));
        i += 1;
        proof {
            assert(groups(r@) =~= groups(before).push(v@[i - 1]@));
            assert(groups(v@).take(i as int) =~= groups(v@).take(i - 1).push(v@[i - 1]@));
        }
    }
    proof {
        assert(groups(v@).take(v@.len() as int) =~= groups(v@));
    }
    r
}

impl Default for Parser {
    fn default() -> (r: Self)
        ensures
            r@ == ParserState::initial(),
            r@.wf(),
    {
        let r = Parser {
            state: State::Ground,
            params: vec![Vec::new()],
            current_param: 0,
            intermediates: Vec::new(),
            ignore: false,
            osc_buf: Vec::new(),
            apc_buf: Vec::new(),
            utf8_buf: Vec::new(),
            utf8_remaining: 0,
        };
        proof {
            assert(r@.params =~= seq![Seq::<u16>::empty()]);
        }
        r
    }
}

impl Parser {
    /// A parser in the ground state.
    pub fn new() -> (r: Self)
        ensures
            r@ == ParserState::initial(),
            r@.wf(),
    {
        Self::default()
    }

    fn transition(&mut self, next: State)
        requires
            old(self)@.wf(),
            next != State::Utf8,
        ensures
            final(self)@ == old(self)@.to(next),
            final(self)@.wf(),
    {
        let fresh = next == State::Escape || next == State::CsiEntry || next == State::DcsEntry;
        if fresh {
            self.params = vec![Vec::new()];
            self.current_param = 0;
            self.intermediates = Vec::new();
            self.ignore = false;
            proof {
                assert(self@.params =~= seq![Seq::<u16>::empty()]);
                assert(self@.intermediates =~= Seq::empty());
            }
        }
        if next == State::OscString {
            self.osc_buf = Vec::new();
            proof {
                assert(self@.osc =~= Seq::empty());
            }
        }
        if next == State::ApcString {
            self.apc_buf = Vec::new();
            proof {
                assert(self@.apc =~= Seq::empty());
            }
        }
        self.state = next;
    }

    fn collect_intermediate(&mut self, byte: u8)
        requires
            old(self)@.wf(),
        ensures
            final(self)@ == old(self)@.collected(byte),
            final(self)@.wf(),
    {
        if self.intermediates.len() < MAX_INTERMEDIATES {
            self.intermediates.push(byte);
        } else {
            self.ignore = true;
        }
    }

    fn param_digit(&mut self, byte: u8)
        requires
            old(self)@.wf(),
            0x30 <= byte <= 0x39,
        ensures
            final(self)@ == old(self)@.digit(byte),
            final(self)@.wf(),
    {
        let tens: u32 = self.current_param as u32 * 10;
        let tens: u32 = if tens > 65535 {
            65535
        } else {
            tens
        };
        let v: u32 = tens + (byte - 0x30) as u32;
        self.current_param = if v > 65535 {
            65535
        } else {
            v as u16
        };
    }

    fn flush_current_param(&mut self)
        requires
            old(self)@.wf(),
        ensures
            final(self)@ == old(self)@.flushed(),
            final(self)@.wf(),
    {
        let i: usize = self.params.len() - 1;
        let ghost before = groups(self.params@);
        let n: u16 = self.current_param;
        proof {
            assert(before[i as int] == self.params@[i as int]@);
        }
        if self.params[i].len() < MAX_SUB_PARAMS {
            self.params[i].push(n);
            proof {
                assert(groups(self.params@) =~= before.update(i as int, before[i as int].push(n)));
            }
        }
        self.current_param = 0;
    }

    fn param_separator(&mut self)
        requires
            old(self)@.wf(),
        ensures
            final(self)@ == old(self)@.separated(),
            final(self)@.wf(),
    {
        self.flush_current_param();
        if self.params.len() < MAX_PARAMS {
            let ghost before = groups(self.params@);
            self.params.push(Vec::new());
            proof {
                assert(groups(self.params@) =~= before.push(Seq::empty()));
            }
        }
    }

    fn dispatch_esc<P: Perform>(&self, performer: &mut P, final_byte: u8)
        requires
            old(performer).ready(),
        ensures
            final(performer).ready(),
            old(performer).performed(self@.esc_action(final_byte), *final(performer)),
    {
        performer.perform(
            Action::EscDispatch {
                intermediates: copy_bytes(self.intermediates.as_slice()),
                ignore: self.ignore,
                final_byte,
            },
        );
    }

    fn dispatch_csi<P: Perform>(&mut self, performer: &mut P, final_byte: u8)
        requires
            old(self)@.wf(),
            old(performer).ready(),
        ensures
            final(self)@ == old(self)@.flushed(),
            final(self)@.wf(),
            final(performer).ready(),
            old(performer).performed(
                old(self)@.flushed().csi_action(final_byte),
                *final(performer),
            ),
    {
        self.flush_current_param();
        performer.perform(
            Action::CsiDispatch {
                params: copy_groups(&self.params),
                intermediates: copy_bytes(self.intermediates.as_slice()),
                ignore: self.ignore,
                final_byte,
            },
        );
    }

    fn dispatch_dcs_hook<P: Perform>(&mut self, performer: &mut P, final_byte: u8)
        requires
            old(self)@.wf(),
            old(performer).ready(),
        ensures
            final(self)@ == old(self)@.flushed(),
            final(self)@.wf(),
            final(performer).ready(),
            old(performer).performed(
                old(self)@.flushed().hook_action(final_byte),
                *final(performer),
            ),
    {
        self.flush_current_param();
        performer.perform(
            Action::Hook {
                params: copy_groups(&self.params),
                intermediates: copy_bytes(self.intermediates.as_slice()),
                ignore: self.ignore,
                final_byte,
            },
        );
    }

    fn dispatch_osc<P: Perform>(&self, performer: &mut P)
        requires
            old(performer).ready(),
        ensures
            final(performer).ready(),
            old(performer).performed(self@.osc_action(), *final(performer)),
    {
        performer.perform(
            Action::OscDispatch { params: split_bytes(self.osc_buf.as_slice(), 0x3b) },
        );
    }

    /// Hand over a complete control string that is being left.
    fn exit_string_states<P: Perform>(&self, performer: &mut P)
        requires
            old(performer).ready(),
        ensures
            final(performer).ready(),
            performs(*old(performer), self@.exit_actions(), *final(performer)),
    {
        if self.state == State::DcsPassthrough {
            performer.perform(Action::Unhook);
        } else if self.state == State::ApcString {
            performer.perform(
                Action::ApcDispatch { data: copy_bytes(self.apc_buf.as_slice()) },
            );
        }
    }

    fn begin_utf8(&mut self, byte: u8, remaining: usize)
        requires
            old(self)@.wf(),
            1 <= remaining <= 3,
        ensures
            final(self)@ == old(self)@.utf8_begun(byte, remaining as int),
            final(self)@.wf(),
    {
        self.utf8_buf = vec![byte];
        proof {
            assert(self@.utf8 =~= seq![byte]);
        }
        self.utf8_remaining = remaining;
        self.state = State::Utf8;
    }

    fn ground<P: Perform>(&mut self, performer: &mut P, byte: u8)
        requires
            old(self)@.wf(),
            old(performer).ready(),
        ensures
            final(self)@ == old(self)@.ground(byte).0,
            final(self)@.wf(),
            final(performer).ready(),
            performs(*old(performer), old(self)@.ground(byte).1, *final(performer)),
    {
        if byte <= 0x17 || byte == 0x19 || (0x1c <= byte && byte <= 0x1f) {
            performer.perform(Action::Execute(byte));
        } else if 0x20 <= byte && byte <= 0x7e {
            performer.perform(Action::Print(byte as char));
        } else if 0xc0 <= byte && byte <= 0xdf {
            self.begin_utf8(byte, 1);
        } else if 0xe0 <= byte && byte <= 0xef {
            self.begin_utf8(byte, 2);
        } else if 0xf0 <= byte && byte <= 0xf7 {
            self.begin_utf8(byte, 3);
        }
    }

    fn escape<P: Perform>(&mut self, performer: &mut P, byte: u8)
        requires
            old(self)@.wf(),
            old(performer).ready(),
        ensures
            final(self)@ == old(self)@.escape(byte).0,
            final(self)@.wf(),
            final(performer).ready(),
            performs(*old(performer), old(self)@.escape(byte).1, *final(performer)),
    {
        if byte <= 0x17 || byte == 0x19 || (0x1c <= byte && byte <= 0x1f) {
            performer.perform(Action::Execute(byte));
        } else if 0x20 <= byte && byte <= 0x2f {
            self.collect_intermediate(byte);
            self.transition(State::EscapeIntermediate);
        } else if byte == 0x50 {
            self.transition(State::DcsEntry);
        } else if byte == 0x58 || byte == 0x5e {
            self.transition(State::SosPmString);
        } else if byte == 0x5f {
            self.transition(State::ApcString);
        } else if byte == 0x5b {
            self.transition(State::CsiEntry);
        } else if byte == 0x5d {
            self.transition(State::OscString);
        } else if 0x30 <= byte && byte <= 0x7e {
            self.dispatch_esc(performer, byte);
            self.transition(State::Ground);
        }
    }

    fn escape_intermediate<P: Perform>(&mut self, performer: &mut P, byte: u8)
        requires
            old(self)@.wf(),
            old(performer).ready(),
        ensures
            final(self)@ == old(self)@.escape_intermediate(byte).0,
            final(self)@.wf(),
            final(performer).ready(),
            performs(*old(performer), old(self)@.escape_intermediate(byte).1, *final(performer)),
    {
        if byte <= 0x17 || byte == 0x19 || (0x1c <= byte && byte <= 0x1f) {
            performer.perform(Action::Execute(byte));
        } else if 0x20 <= byte && byte <= 0x2f {
            self.collect_intermediate(byte);
        } else if 0x30 <= byte && byte <= 0x7e {
            self.dispatch_esc(performer, byte);
            self.transition(State::Ground);
        }
    }

    fn csi_entry<P: Perform>(&mut self, performer: &mut P, byte: u8)
        requires
            old(self)@.wf(),
            old(performer).ready(),
        ensures
            final(self)@ == old(self)@.csi_entry(byte).0,
            final(self)@.wf(),
            final(performer).ready(),
            performs(*old(performer), old(self)@.csi_entry(byte).1, *final(performer)),
    {
        if byte <= 0x17 || byte == 0x19 || (0x1c <= byte && byte <= 0x1f) {
            performer.perform(Action::Execute(byte));
        } else if 0x20 <= byte && byte <= 0x2f {
            self.collect_intermediate(byte);
            self.transition(State::CsiIntermediate);
        } else if 0x30 <= byte && byte <= 0x39 {
            self.param_digit(byte);
            self.transition(State::CsiParam);
        } else if byte == 0x3a {
            self.flush_current_param();
            self.transition(State::CsiParam);
        } else if byte == 0x3b {
            self.param_separator();
            self.transition(State::CsiParam);
        } else if 0x3c <= byte && byte <= 0x3f {
            self.collect_intermediate(byte);
            self.transition(State::CsiParam);
        } else if 0x40 <= byte && byte <= 0x7e {
            self.dispatch_csi(performer, byte);
            self.transition(State::Ground);
        }
    }

    fn csi_param<P: Perform>(&mut self, performer: &mut P, byte: u8)
        requires
            old(self)@.wf(),
            old(performer).ready(),
        ensures
            final(self)@ == old(self)@.csi_param(byte).0,
            final(self)@.wf(),
            final(performer).ready(),
            performs(*old(performer), old(self)@.csi_param(byte).1, *final(performer)),
    {
        if byte <= 0x17 || byte == 0x19 || (0x1c <= byte && byte <= 0x1f) {
            performer.perform(Action::Execute(byte));
        } else if 0x20 <= byte && byte <= 0x2f {
            self.collect_intermediate(byte);
            self.transition(State::CsiIntermediate);
        } else if 0x30 <= byte && byte <= 0x39 {
            self.param_digit(byte);
        } else if byte == 0x3a {
            self.flush_current_param();
        } else if byte == 0x3b {
            self.param_separator();
        } else if 0x3c <= byte && byte <= 0x3f {
            self.transition(State::CsiIgnore);
        } else if 0x40 <= byte && byte <= 0x7e {
            self.dispatch_csi(performer, byte);
            self.transition(State::Ground);
        }
    }

    fn csi_intermediate<P: Perform>(&mut self, performer: &mut P, byte: u8)
        requires
            old(self)@.wf(),
            old(performer).ready(),
        ensures
            final(self)@ == old(self)@.csi_intermediate(byte).0,
            final(self)@.wf(),
            final(performer).ready(),
            performs(*old(performer), old(self)@.csi_intermediate(byte).1, *final(performer)),
    {
        if byte <= 0x17 || byte == 0x19 || (0x1c <= byte && byte <= 0x1f) {
            performer.perform(Action::Execute(byte));
        } else if 0x20 <= byte && byte <= 0x2f {
            self.collect_intermediate(byte);
        } else if 0x30 <= byte && byte <= 0x3f {
            self.transition(State::CsiIgnore);
        } else if 0x40 <= byte && byte <= 0x7e {
            self.dispatch_csi(performer, byte);
            self.transition(State::Ground);
        }
    }

    fn csi_ignore<P: Perform>(&mut self, performer: &mut P, byte: u8)
        requires
            old(self)@.wf(),
            old(performer).ready(),
        ensures
            final(self)@ == old(self)@.csi_ignore(byte).0,
            final(self)@.wf(),
            final(performer).ready(),
            performs(*old(performer), old(self)@.csi_ignore(byte).1, *final(performer)),
    {
        if byte <= 0x17 || byte == 0x19 || (0x1c <= byte && byte <= 0x1f) {
            performer.perform(Action::Execute(byte));
        } else if 0x40 <= byte && byte <= 0x7e {
            self.transition(State::Ground);
        }
    }

    fn osc_string<P: Perform>(&mut self, performer: &mut P, byte: u8)
        requires
            old(self)@.wf(),
            old(performer).ready(),
        ensures
            final(self)@ == old(self)@.osc_string(byte).0,
            final(self)@.wf(),
            final(performer).ready(),
            performs(*old(performer), old(self)@.osc_string(byte).1, *final(performer)),
    {
        if byte == 0x07 {
            self.dispatch_osc(performer);
            self.transition(State::Ground);
        } else if byte == 0x1b {
            self.dispatch_osc(performer);
            self.transition(State::Escape);
        } else if byte == 0x18 || byte == 0x1a {
            performer.perform(Action::Execute(byte));
            self.transition(State::Ground);
        } else if byte >= 0x20 {
            if self.osc_buf.len() < MAX_OSC_LEN {
                self.osc_buf.push(byte);
            }
        }
    }

    fn dcs_entry<P: Perform>(&mut self, performer: &mut P, byte: u8)
        requires
            old(self)@.wf(),
            old(performer).ready(),
        ensures
            final(self)@ == old(self)@.dcs_entry(byte).0,
            final(self)@.wf(),
            final(performer).ready(),
            performs(*old(performer), old(self)@.dcs_entry(byte).1, *final(performer)),
    {
        if 0x20 <= byte && byte <= 0x2f {
            self.collect_intermediate(byte);
            self.transition(State::DcsIntermediate);
        } else if 0x30 <= byte && byte <= 0x39 {
            self.param_digit(byte);
            self.transition(State::DcsParam);
        } else if byte == 0x3b {
            self.param_separator();
            self.transition(State::DcsParam);
        } else if 0x3c <= byte && byte <= 0x3f {
            self.collect_intermediate(byte);
            self.transition(State::DcsParam);
        } else if 0x40 <= byte && byte <= 0x7e {
            self.dispatch_dcs_hook(performer, byte);
            self.transition(State::DcsPassthrough);
        }
    }

    fn dcs_param<P: Perform>(&mut self, performer: &mut P, byte: u8)
        requires
            old(self)@.wf(),
            old(performer).ready(),
        ensures
            final(self)@ == old(self)@.dcs_param(byte).0,
            final(self)@.wf(),
            final(performer).ready(),
            performs(*old(performer), old(self)@.dcs_param(byte).1, *final(performer)),
    {
        if 0x20 <= byte && byte <= 0x2f {
            self.collect_intermediate(byte);
            self.transition(State::DcsIntermediate);
        } else if 0x30 <= byte && byte <= 0x39 {
            self.param_digit(byte);
        } else if byte == 0x3b {
            self.param_separator();
        } else if 0x3c <= byte && byte <= 0x3f {
            self.transition(State::DcsIgnore);
        } else if 0x40 <= byte && byte <= 0x7e {
            self.dispatch_dcs_hook(performer, byte);
            self.transition(State::DcsPassthrough);
        }
    }

    fn dcs_intermediate<P: Perform>(&mut self, performer: &mut P, byte: u8)
        requires
            old(self)@.wf(),
            old(performer).ready(),
        ensures
            final(self)@ == old(self)@.dcs_intermediate(byte).0,
            final(self)@.wf(),
            final(performer).ready(),
            performs(*old(performer), old(self)@.dcs_intermediate(byte).1, *final(performer)),
    {
        if 0x20 <= byte && byte <= 0x2f {
            self.collect_intermediate(byte);
        } else if 0x30 <= byte && byte <= 0x3f {
            self.transition(State::DcsIgnore);
        } else if 0x40 <= byte && byte <= 0x7e {
            self.dispatch_dcs_hook(performer, byte);
            self.transition(State::DcsPassthrough);
        }
    }

    fn dcs_passthrough<P: Perform>(&self, performer: &mut P, byte: u8)
        requires
            old(performer).ready(),
        ensures
            final(performer).ready(),
            self@ == self@.dcs_passthrough(byte).0,
            performs(*old(performer), self@.dcs_passthrough(byte).1, *final(performer)),
    {
        if byte <= 0x17 || byte == 0x19 || (0x1c <= byte && byte <= 0x1e) || (0x20 <= byte && byte
            <= 0x7e) {
            performer.perform(Action::Put(byte));
        }
    }

    fn apc_string(&mut self, byte: u8)
        requires
            old(self)@.wf(),
        ensures
            final(self)@ == old(self)@.apc_string(byte).0,
            final(self)@.wf(),
            old(self)@.apc_string(byte).1 == Seq::<ActionState>::empty(),
    {
        if byte >= 0x20 {
            if self.apc_buf.len() < MAX_OSC_LEN {
                self.apc_buf.push(byte);
            }
        }
    }

    fn in_state<P: Perform>(&mut self, performer: &mut P, byte: u8)
        requires
            old(self)@.wf(),
            old(performer).ready(),
        ensures
            final(self)@ == old(self)@.in_state(byte).0,
            final(self)@.wf(),
            final(performer).ready(),
            performs(*old(performer), old(self)@.in_state(byte).1, *final(performer)),
    {
        match self.state {
            State::Ground => self.ground(performer, byte),
            State::Escape => self.escape(performer, byte),
            State::EscapeIntermediate => self.escape_intermediate(performer, byte),
            State::CsiEntry => self.csi_entry(performer, byte),
            State::CsiParam => self.csi_param(performer, byte),
            State::CsiIntermediate => self.csi_intermediate(performer, byte),
            State::CsiIgnore => self.csi_ignore(performer, byte),
            State::DcsEntry => self.dcs_entry(performer, byte),
            State::DcsParam => self.dcs_param(performer, byte),
            State::DcsIntermediate => self.dcs_intermediate(performer, byte),
            State::DcsPassthrough => self.dcs_passthrough(performer, byte),
            State::ApcString => self.apc_string(byte),
            _ => {},
        }
    }

    fn anywhere<P: Perform>(&mut self, performer: &mut P, byte: u8)
        requires
            old(self)@.wf(),
            old(performer).ready(),
        ensures
            final(self)@ == old(self)@.anywhere(byte).0,
            final(self)@.wf(),
            final(performer).ready(),
            performs(*old(performer), old(self)@.anywhere(byte).1, *final(performer)),
    {
        if byte == 0x18 || byte == 0x1a {
            performer.perform(Action::Execute(byte));
            self.transition(State::Ground);
        } else if byte == 0x1b {
            self.exit_string_states(performer);
            self.transition(State::Escape);
        } else if (0x80 <= byte && byte <= 0x8f) || (0x91 <= byte && byte <= 0x97) || byte == 0x99
            || byte == 0x9a {
            performer.perform(Action::Execute(byte));
            self.transition(State::Ground);
        } else if byte == 0x90 {
            self.transition(State::DcsEntry);
        } else if byte == 0x98 || byte == 0x9e {
            self.transition(State::SosPmString);
        } else if byte == 0x9f {
            self.transition(State::ApcString);
        } else if byte == 0x9b {
            self.transition(State::CsiEntry);
        } else if byte == 0x9c {
            self.exit_string_states(performer);
            self.transition(State::Ground);
        } else if byte == 0x9d {
            self.transition(State::OscString);
        } else {
            self.in_state(performer, byte);
        }
    }

    /// The character whose bytes have been collected.
    fn collected_char(&self) -> (r: char)
        requires
            self@.utf8.len() > 0,
        ensures
            r == ParserState::utf8_char(self@.utf8),
    {
        match utf8_text(self.utf8_buf.as_slice()) {
            Some(s) => {
                let chars = chars_of(s.as_str());
                proof {
                    decode_utf8_encode_utf8(self@.utf8);
                    if chars@.len() == 0 {
                        assert(chars@ =~= Seq::<char>::empty());
                        assert(encode_utf8(Seq::<char>::empty()).len() == 0);
                    }
                }
                chars[0]
            },
            None => '\u{FFFD}',
        }
    }

    fn advance_utf8<P: Perform>(&mut self, performer: &mut P, byte: u8)
        requires
            old(self)@.wf(),
            old(self)@.state == State::Utf8,
            old(performer).ready(),
        ensures
            final(self)@ == old(self)@.utf8(byte).0,
            final(self)@.wf(),
            final(performer).ready(),
            performs(*old(performer), old(self)@.utf8(byte).1, *final(performer)),
    {
        if 0x80 <= byte && byte <= 0xbf {
            self.utf8_buf.push(byte);
            self.utf8_remaining = self.utf8_remaining - 1;
            if self.utf8_remaining == 0 {
                let c = self.collected_char();
                self.state = State::Ground;
                performer.perform(Action::Print(c));
            }
        } else {
            let ghost p0 = *performer;
            performer.perform(Action::Print('\u{FFFD}'));
            let ghost p1 = *performer;
            self.state = State::Ground;
            let ghost rest = self@.anywhere(byte).1;
            self.anywhere(performer, byte);
            proof {
                let all = seq![ActionState::Print('\u{FFFD}')] + rest;
                assert(all.skip(1) =~= rest);
                assert(all[0] == ActionState::Print('\u{FFFD}'));
                assert(p0.performed(all[0], p1));
                if rest.len() == 0 {
                    assert(all =~= seq![ActionState::Print('\u{FFFD}')]);
                }
                assert(performs(p0, all, *performer));
            }
        }
    }

    /// Take one byte, handing the actions that result to `performer`.
    pub fn advance<P: Perform>(&mut self, performer: &mut P, byte: u8)
        requires
            old(self)@.wf(),
            old(performer).ready(),
        ensures
            final(self)@ == old(self)@.advanced(byte).0,
            final(self)@.wf(),
            final(performer).ready(),
            performs(*old(performer), old(self)@.advanced(byte).1, *final(performer)),
    {
        if self.state == State::Utf8 {
            self.advance_utf8(performer, byte);
        } else if self.state == State::OscString {
            self.osc_string(performer, byte);
        } else {
            self.anywhere(performer, byte);
        }
    }

    /// True outside of any sequence.
    pub fn is_ground(&self) -> (r: bool)
        ensures
            r == (self@.state == State::Ground),
    {
        self.state == State::Ground
    }

    /// Take a slice of bytes. In the ground state the performer may take runs
    /// of text at once.
    pub fn advance_bytes<P: Perform>(&mut self, performer: &mut P, bytes: &[u8])
        requires
            old(self)@.wf(),
            old(performer).ready(),
        ensures
            final(self)@.wf(),
            final(performer).ready(),
            fed(old(self)@, *old(performer), bytes@, final(self)@, *final(performer)),
    {
        let mut i: usize = 0;
        let ghost s0 = self@;
        let ghost p0 = *performer;
        proof {
            assert(bytes@.skip(0) =~= bytes@);
        }
        while i < bytes.len()
            invariant
                i <= bytes@.len(),
                self@.wf(),
                performer.ready(),
                forall|t: ParserState, q: P|
                    fed(self@, *performer, bytes@.skip(i as int), t, q) ==> #[trigger] fed(
                        s0,
                        p0,
                        bytes@,
                        t,
                        q,
                    ),
            decreases bytes@.len() - i,
        {
            let ghost rest = bytes@.skip(i as int);
            let ghost s1 = self@;
            let ghost p1 = *performer;
            let mut taken: usize = 0;
            if self.state == State::Ground {
                let remaining = vstd::slice::slice_subrange(bytes, i, bytes.len());
                proof {
                    assert(remaining@ =~= rest);
                }
                taken = performer.print_ascii_run(remaining);
            }
            let ghost p2 = *performer;
            if taken > 0 {
                proof {
                    let n = taken as int;
                    assert(rest.skip(n) =~= bytes@.skip(i + n));
                    assert forall|t: ParserState, q: P|
                        fed(s1, p2, bytes@.skip(i + n), t, q) implies #[trigger] fed(
                        s0,
                        p0,
                        bytes@,
                        t,
                        q,
                    ) by {
                        assert(p1.ran(rest, n, p2));
                        assert(fed(s1, p1, rest, t, q));
                    }
                }
                i += taken;
            } else {
                self.advance(performer, bytes[i]);
                proof {
                    assert(rest.skip(1) =~= bytes@.skip(i + 1));
                    assert(rest[0] == bytes@[i as int]);
                    let p3 = *performer;
                    let s2 = self@;
                    assert(performs(p2, s1.advanced(rest[0]).1, p3));
                    assert forall|t: ParserState, q: P|
                        fed(s2, p3, bytes@.skip(i + 1), t, q) implies #[trigger] fed(
                        s0,
                        p0,
                        bytes@,
                        t,
                        q,
                    ) by {
                        if s1.state == State::Ground {
                            assert(p1.ran(rest, 0, p2));
                        }
                        assert(fed(s1, p1, rest, t, q));
                    }
                }
                i += 1;
            }
        }
        proof {
            assert(bytes@.skip(i as int).len() == 0);
            assert(fed(self@, *performer, bytes@.skip(i as int), self@, *performer));
        }
    }
}

} // verus!
