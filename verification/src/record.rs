//! A performer that keeps the actions of the parser, and what holds of them.
use vstd::prelude::*;
use vstd::utf8::*;

use crate::parser::{
    fed, performs, text_action, text_len, text_len_bounds, Action, ActionState, ParserState,
    Perform, State, MAX_OSC_LEN,
};
use crate::text::split;

verus! {

/// A performer that keeps every action.
#[derive(Debug)]
pub struct ActionLog {
    /// The actions, oldest first.
    pub actions: Vec<Action>,
}

impl View for ActionLog {
    type V = Seq<ActionState>;

    open spec fn view(&self) -> Seq<ActionState> {
        Seq::new(self.actions@.len(), |i: int| self.actions@[i]@)
    }
}

impl ActionLog {
    /// No actions.
    pub fn new() -> (r: Self)
        ensures
            r@.len() == 0,
    {
        ActionLog { actions: Vec::new() }
    }
}

/// The actions of the first `n` bytes, taken as text.
pub open spec fn text_actions(bytes: Seq<u8>, n: int) -> Seq<ActionState> {
    Seq::new(n as nat, |i: int| text_action(bytes[i])->0)
}

impl Perform for ActionLog {
    open spec fn ready(self) -> bool {
        true
    }

    open spec fn performed(self, action: ActionState, post: Self) -> bool {
        post@ == self@.push(action)
    }

    open spec fn ran(self, bytes: Seq<u8>, n: int, post: Self) -> bool {
        n == text_len(bytes, 0) && post@ == self@ + text_actions(bytes, n)
    }

    fn perform(&mut self, action: Action) {
        self.actions.push(action);
        proof {
            assert(self@ =~= old(self)@.push(action@));
        }
    }

    fn print_ascii_run(&mut self, bytes: &[u8]) -> (n: usize) {
        let len: usize = bytes.len();
        let mut i: usize = 0;
        proof {
            text_len_bounds(bytes@, 0);
            assert(self@ =~= old(self)@ + text_actions(bytes@, 0));
        }
        while i < len
            invariant
                i <= len,
                len == bytes@.len(),
                text_len(bytes@, 0) == text_len(bytes@, i as int),
                self@ == old(self)@ + text_actions(bytes@, i as int),
            decreases len - i,
        {
            let b: u8 = bytes[i];
            if b == 0x0a || b == 0x0d || b == 0x08 || b == 0x09 {
                self.perform(Action::Execute(b));
            } else if 0x20 <= b && b <= 0x7e {
                self.perform(Action::Print(b as char));
            } else {
                return i;
            }
            proof {
                assert(text_actions(bytes@, i + 1) =~= text_actions(bytes@, i as int).push(
                    text_action(bytes@[i as int])->0,
                ));
                assert(self@ =~= old(self)@ + text_actions(bytes@, i + 1));
            }
            i += 1;
        }
        i
    }
}

/// Bytes taken one at a time: the parser after them, and their actions.
pub open spec fn parsed(s: ParserState, bytes: Seq<u8>) -> (ParserState, Seq<ActionState>)
    decreases bytes.len(),
{
    if bytes.len() == 0 {
        (s, Seq::empty())
    } else {
        let (t, first) = s.advanced(bytes[0]);
        let (u, rest) = parsed(t, bytes.skip(1));
        (u, first + rest)
    }
}

// ---------------------------------------------------------------------------
// Laws
// ---------------------------------------------------------------------------

/// A byte of plain text in the ground state is one action and leaves the
/// parser as it was: a printable character prints itself.
pub proof fn plain_text_prints(s: ParserState, b: u8)
    requires
        s.state == State::Ground,
        text_action(b) is Some,
    ensures
        s.advanced(b) == (s, seq![text_action(b)->0]),
        0x20 <= b <= 0x7e ==> text_action(b) == Some(ActionState::Print(b as char)),
{
}

proof fn text_parsed(s: ParserState, bytes: Seq<u8>, n: int)
    requires
        s.state == State::Ground,
        0 <= n <= bytes.len(),
        n <= text_len(bytes, 0),
    ensures
        parsed(s, bytes).0 == parsed(s, bytes.skip(n)).0,
        parsed(s, bytes).1 == text_actions(bytes, n) + parsed(s, bytes.skip(n)).1,
    decreases n,
{
    if n == 0 {
        assert(bytes.skip(0) =~= bytes);
        assert(text_actions(bytes, 0) + parsed(s, bytes).1 =~= parsed(s, bytes).1);
    } else {
        text_len_skip(bytes, 0);
        assert(text_action(bytes[0]) is Some);
        plain_text_prints(s, bytes[0]);
        let rest = bytes.skip(1);
        text_parsed(s, rest, n - 1);
        assert(rest.skip(n - 1) =~= bytes.skip(n));
        assert(seq![text_action(bytes[0])->0] + text_actions(rest, n - 1) =~= text_actions(
            bytes,
            n,
        ));
        assert(parsed(s, bytes).1 =~= text_actions(bytes, n) + parsed(s, bytes.skip(n)).1);
    }
}

/// The text from index `i + 1` on is what is left of the text from `i` on.
proof fn text_len_skip(bytes: Seq<u8>, i: int)
    requires
        0 <= i < bytes.len(),
    ensures
        text_action(bytes[i]) is Some ==> text_len(bytes.skip(1), i) == text_len(bytes, i + 1) - 1,
        text_action(bytes[i]) is None ==> text_len(bytes, i) == i,
    decreases bytes.len() - i,
{
    if i + 1 < bytes.len() {
        text_len_skip(bytes, i + 1);
        assert(bytes.skip(1)[i] == bytes[i + 1]);
    }
}

proof fn log_performs(p: ActionLog, actions: Seq<ActionState>, q: ActionLog)
    requires
        performs(p, actions, q),
    ensures
        q@ == p@ + actions,
    decreases actions.len(),
{
    reveal_with_fuel(performs, 2);
    if actions.len() == 0 {
        assert(p@ + actions =~= p@);
    } else if actions.len() == 1 {
        assert(p@.push(actions[0]) =~= p@ + actions);
    } else {
        let m = choose|m: ActionLog|
            #![trigger p.performed(actions[0], m)]
            p.performed(actions[0], m) && performs(m, actions.skip(1), q);
        log_performs(m, actions.skip(1), q);
        assert(p@.push(actions[0]) + actions.skip(1) =~= p@ + actions);
    }
}

/// Bytes taken all at once give the same actions, in the same order, as bytes
/// taken one at a time, and leave the parser in the same state.
pub proof fn runs_change_nothing(s: ParserState, p: ActionLog, bytes: Seq<u8>, t: ParserState, q: ActionLog)
    requires
        fed(s, p, bytes, t, q),
    ensures
        t == parsed(s, bytes).0,
        q@ == p@ + parsed(s, bytes).1,
    decreases bytes.len(),
{
    if bytes.len() == 0 {
        assert(p@ + Seq::<ActionState>::empty() =~= p@);
    } else {
        let step = s.advanced(bytes[0]);
        let rest = parsed(step.0, bytes.skip(1)).1;
        if s.state == State::Ground {
            let (n, m) = choose|n: int, m: ActionLog|
                #![trigger p.ran(bytes, n, m)]
                p.ran(bytes, n, m) && 0 <= n <= bytes.len() && if n > 0 {
                    fed(s, m, bytes.skip(n), t, q)
                } else {
                    exists|k: ActionLog|
                        #![trigger performs(m, step.1, k)]
                        performs(m, step.1, k) && fed(step.0, k, bytes.skip(1), t, q)
                };
            assert(p.ran(bytes, n, m));
            if n > 0 {
                runs_change_nothing(s, m, bytes.skip(n), t, q);
                text_parsed(s, bytes, n);
                assert(q@ =~= p@ + parsed(s, bytes).1);
            } else {
                let k = choose|k: ActionLog|
                    #![trigger performs(m, step.1, k)]
                    performs(m, step.1, k) && fed(step.0, k, bytes.skip(1), t, q);
                log_performs(m, step.1, k);
                assert(m@ =~= p@);
                runs_change_nothing(step.0, k, bytes.skip(1), t, q);
                assert((p@ + step.1) + rest =~= p@ + (step.1 + rest));
            }
        } else {
            let k = choose|k: ActionLog|
                #![trigger performs(p, step.1, k)]
                performs(p, step.1, k) && fed(step.0, k, bytes.skip(1), t, q);
            log_performs(p, step.1, k);
            runs_change_nothing(step.0, k, bytes.skip(1), t, q);
            assert((p@ + step.1) + rest =~= p@ + (step.1 + rest));
        }
    }
}

/// Bytes taken in two pieces give what they give in one.
pub proof fn pieces_join(s: ParserState, a: Seq<u8>, b: Seq<u8>)
    ensures
        parsed(s, a + b).0 == parsed(parsed(s, a).0, b).0,
        parsed(s, a + b).1 == parsed(s, a).1 + parsed(parsed(s, a).0, b).1,
    decreases a.len(),
{
    if a.len() == 0 {
        assert(a + b =~= b);
        assert(Seq::<ActionState>::empty() + parsed(s, b).1 =~= parsed(s, b).1);
    } else {
        let t = s.advanced(a[0]).0;
        assert((a + b)[0] == a[0]);
        assert((a + b).skip(1) =~= a.skip(1) + b);
        pieces_join(t, a.skip(1), b);
        assert(parsed(s, a + b).1 =~= parsed(s, a).1 + parsed(parsed(s, a).0, b).1);
    }
}

/// The bytes of a character of several bytes print that character.
pub proof fn characters_print_themselves(s: ParserState, c: char)
    requires
        s.state == State::Ground,
        c as int >= 0x80,
    ensures
        parsed(s, encode_utf8(seq![c])).0.state == State::Ground,
        parsed(s, encode_utf8(seq![c])).1 == seq![ActionState::Print(c)],
{
    let chars = seq![c];
    let b = encode_utf8(chars);
    encode_utf8_first_scalar(chars);
    encode_utf8_valid_utf8(chars);
    encode_utf8_decode_utf8(chars);
    assert(chars.drop_first() =~= Seq::<char>::empty());
    reveal_with_fuel(encode_utf8, 2);
    assert(b =~= encode_scalar(c as u32));
    reveal_with_fuel(parsed, 5);
    let first = seq![b[0]];
    assert(first.len() == 1);
    let b1 = b.skip(1);
    let b2 = b1.skip(1);
    let b3 = b2.skip(1);
    if b.len() == 2 {
        assert(b1[0] == b[1]);
        assert(first.push(b[1]) =~= b);
        assert(parsed(s, b).1 =~= seq![ActionState::Print(c)]);
    } else if b.len() == 3 {
        assert(b1[0] == b[1] && b2[0] == b[2]);
        assert(first.push(b[1]).push(b[2]) =~= b);
        assert(parsed(s, b).1 =~= seq![ActionState::Print(c)]);
    } else {
        assert(b1[0] == b[1] && b2[0] == b[2] && b3[0] == b[3]);
        assert(first.push(b[1]).push(b[2]).push(b[3]) =~= b);
        assert(parsed(s, b).1 =~= seq![ActionState::Print(c)]);
    }
}

/// CAN and SUB end whatever sequence is open and are executed themselves.
pub proof fn cancel_recovers(s: ParserState, b: u8)
    requires
        b == 0x18 || b == 0x1a,
    ensures
        s.advanced(b).0.state == State::Ground,
        s.advanced(b).1.len() > 0,
        s.advanced(b).1.last() == ActionState::Execute(b),
{
}

proof fn osc_collects(s: ParserState, payload: Seq<u8>)
    requires
        s.state == State::OscString,
        s.osc.len() + payload.len() <= MAX_OSC_LEN,
        forall|i: int| 0 <= i < payload.len() ==> payload[i] >= 0x20,
    ensures
        parsed(s, payload).0 == (ParserState { osc: s.osc + payload, ..s }),
        parsed(s, payload).1.len() == 0,
    decreases payload.len(),
{
    if payload.len() == 0 {
        assert(s.osc + payload =~= s.osc);
    } else {
        let t = s.advanced(payload[0]).0;
        osc_collects(t, payload.skip(1));
        assert(t.osc + payload.skip(1) =~= s.osc + payload);
    }
}

/// An operating system command within the length limit arrives whole: its
/// fields are the payload split at the semicolons.
pub proof fn commands_arrive_whole(s: ParserState, payload: Seq<u8>)
    requires
        payload.len() <= MAX_OSC_LEN,
        forall|i: int| 0 <= i < payload.len() ==> payload[i] >= 0x20,
    ensures
        parsed(s.to(State::OscString), payload.push(0x07)).0.state == State::Ground,
        parsed(s.to(State::OscString), payload.push(0x07)).1 == seq![
            ActionState::OscDispatch { params: split(payload, 0x3b) },
        ],
{
    let open = s.to(State::OscString);
    osc_collects(open, payload);
    assert(open.osc + payload =~= payload);
    assert(payload.push(0x07) =~= payload + seq![0x07u8]);
    pieces_join(open, payload, seq![0x07u8]);
    reveal_with_fuel(parsed, 2);
    let full = parsed(open, payload).0;
    assert(seq![0x07u8].skip(1) =~= Seq::<u8>::empty());
    assert(parsed(full, seq![0x07u8]).1 =~= seq![full.osc_action()]);
    assert(parsed(open, payload.push(0x07)).1 =~= seq![full.osc_action()]);
}

} // verus!
