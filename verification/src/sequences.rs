//! Sequences arrive as they are written.
use vstd::prelude::*;

use crate::parser::{
    ActionState, ParserState, State, MAX_OSC_LEN, MAX_PARAMS, MAX_SUB_PARAMS,
};
use crate::record::{parsed, pieces_join};
use crate::text::decimal;

verus! {

/// A parameter and its sub-parameters, written with colons between them.
pub open spec fn group_text(g: Seq<u16>) -> Seq<u8>
    decreases g.len(),
{
    if g.len() == 0 {
        Seq::empty()
    } else if g.len() == 1 {
        decimal(g[0] as nat)
    } else {
        group_text(g.drop_last()) + seq![0x3au8] + decimal(g.last() as nat)
    }
}

/// Parameters, written with semicolons between them.
pub open spec fn params_text(ps: Seq<Seq<u16>>) -> Seq<u8>
    decreases ps.len(),
{
    if ps.len() == 0 {
        Seq::empty()
    } else if ps.len() == 1 {
        group_text(ps[0])
    } else {
        params_text(ps.drop_last()) + seq![0x3bu8] + group_text(ps.last())
    }
}

proof fn one_byte(s: ParserState, b: u8)
    ensures
        parsed(s, seq![b]) == s.advanced(b),
{
    reveal_with_fuel(parsed, 2);
    assert(seq![b].skip(1) =~= Seq::<u8>::empty());
    assert(s.advanced(b).1 + Seq::<ActionState>::empty() =~= s.advanced(b).1);
}

proof fn read_number(s: ParserState, n: nat)
    requires
        s.state == State::CsiEntry || s.state == State::CsiParam,
        s.current == 0,
        n <= 65535,
    ensures
        parsed(s, decimal(n)).0 == (ParserState {
            state: State::CsiParam,
            current: n as u16,
            ..s
        }),
        parsed(s, decimal(n)).1.len() == 0,
    decreases n,
{
    if n < 10 {
        one_byte(s, (48 + n) as u8);
    } else {
        read_number(s, n / 10);
        let d = (48 + n % 10) as u8;
        assert(decimal(n) =~= decimal(n / 10) + seq![d]);
        pieces_join(s, decimal(n / 10), seq![d]);
        one_byte(parsed(s, decimal(n / 10)).0, d);
    }
}

proof fn read_group(s: ParserState, g: Seq<u16>)
    requires
        s.state == State::CsiEntry || s.state == State::CsiParam,
        s.current == 0,
        s.params.len() > 0,
        s.params.last().len() == 0,
        1 <= g.len() <= MAX_SUB_PARAMS,
    ensures
        parsed(s, group_text(g)).0 == (ParserState {
            state: State::CsiParam,
            current: g.last(),
            params: s.params.update(s.params.len() - 1, g.drop_last()),
            ..s
        }),
        parsed(s, group_text(g)).1.len() == 0,
    decreases g.len(),
{
    let k = s.params.len() - 1;
    if g.len() == 1 {
        read_number(s, g[0] as nat);
        assert(g.drop_last() =~= s.params.last());
        assert(s.params.update(k, g.drop_last()) =~= s.params);
    } else {
        let init = g.drop_last();
        let n = g.last() as nat;
        read_group(s, init);
        let a = parsed(s, group_text(init)).0;
        pieces_join(s, group_text(init), seq![0x3au8]);
        one_byte(a, 0x3a);
        let b = a.advanced(0x3a).0;
        assert(a.params.last() == init.drop_last());
        assert(init.drop_last().push(init.last()) =~= init);
        assert(b.params =~= s.params.update(k, init));
        pieces_join(s, group_text(init) + seq![0x3au8], decimal(n));
        read_number(b, n);
    }
}

proof fn read_params(s: ParserState, ps: Seq<Seq<u16>>)
    requires
        s.state == State::CsiEntry || s.state == State::CsiParam,
        s.current == 0,
        s.params == seq![Seq::<u16>::empty()],
        1 <= ps.len() <= MAX_PARAMS,
        forall|i: int| 0 <= i < ps.len() ==> 1 <= (#[trigger] ps[i]).len() <= MAX_SUB_PARAMS,
    ensures
        parsed(s, params_text(ps)).0 == (ParserState {
            state: State::CsiParam,
            current: ps.last().last(),
            params: ps.drop_last().push(ps.last().drop_last()),
            ..s
        }),
        parsed(s, params_text(ps)).1.len() == 0,
    decreases ps.len(),
{
    let g = ps.last();
    if ps.len() == 1 {
        read_group(s, g);
        assert(s.params.update(0, g.drop_last()) =~= ps.drop_last().push(g.drop_last()));
    } else {
        let init = ps.drop_last();
        assert forall|i: int| 0 <= i < init.len() implies 1 <= (#[trigger] init[i]).len()
            <= MAX_SUB_PARAMS by {
            assert(init[i] == ps[i]);
        }
        read_params(s, init);
        let a = parsed(s, params_text(init)).0;
        pieces_join(s, params_text(init), seq![0x3bu8]);
        one_byte(a, 0x3b);
        let b = a.advanced(0x3b).0;
        assert(init.last() == ps[ps.len() - 2]);
        assert(init.last().drop_last().push(init.last().last()) =~= init.last());
        assert(b.params =~= init.push(Seq::empty()));
        pieces_join(s, params_text(init) + seq![0x3bu8], group_text(g));
        read_group(b, g);
        assert(b.params.update(init.len() as int, g.drop_last()) =~= init.push(g.drop_last()));
    }
}

/// A control sequence arrives with the parameters that are written in it, the
/// private marker and the intermediate byte where it has them, and its final
/// byte; the parser is ready for what follows.
pub proof fn control_sequences_arrive(
    s: ParserState,
    marker: Seq<u8>,
    ps: Seq<Seq<u16>>,
    intermediate: Seq<u8>,
    b: u8,
)
    requires
        s.state == State::Ground,
        1 <= ps.len() <= MAX_PARAMS,
        forall|i: int| 0 <= i < ps.len() ==> 1 <= (#[trigger] ps[i]).len() <= MAX_SUB_PARAMS,
        marker.len() <= 1,
        marker.len() == 1 ==> 0x3c <= marker[0] <= 0x3f,
        intermediate.len() <= 1,
        intermediate.len() == 1 ==> 0x20 <= intermediate[0] <= 0x2f,
        0x40 <= b <= 0x7e,
    ensures
        ({
            let bytes = seq![0x1bu8, 0x5b] + marker + params_text(ps) + intermediate + seq![b];
            &&& parsed(s, bytes).0.state == State::Ground
            &&& parsed(s, bytes).1 == seq![
                ActionState::CsiDispatch {
                    params: ps,
                    intermediates: marker + intermediate,
                    ignore: false,
                    final_byte: b,
                },
            ]
        }),
{
    let head = seq![0x1bu8, 0x5b];
    assert(head =~= seq![0x1bu8] + seq![0x5bu8]);
    pieces_join(s, seq![0x1bu8], seq![0x5bu8]);
    one_byte(s, 0x1b);
    let e = s.advanced(0x1b).0;
    one_byte(e, 0x5b);
    let c = parsed(s, head).0;
    assert(parsed(s, head).1.len() == 0);
    pieces_join(s, head, marker);
    reveal_with_fuel(parsed, 1);
    if marker.len() == 1 {
        assert(marker =~= seq![marker[0]]);
        one_byte(c, marker[0]);
    }
    let m = parsed(c, marker).0;
    assert(m.intermediates =~= marker);
    assert(m.params =~= seq![Seq::<u16>::empty()]);
    pieces_join(s, head + marker, params_text(ps));
    read_params(m, ps);
    let p = parsed(m, params_text(ps)).0;
    pieces_join(s, head + marker + params_text(ps), intermediate);
    if intermediate.len() == 1 {
        assert(intermediate =~= seq![intermediate[0]]);
        one_byte(p, intermediate[0]);
    }
    let i = parsed(p, intermediate).0;
    assert(i.intermediates =~= marker + intermediate);
    pieces_join(s, head + marker + params_text(ps) + intermediate, seq![b]);
    one_byte(i, b);
    assert(ps.last().drop_last().push(ps.last().last()) =~= ps.last());
    assert(i.flushed().params =~= ps);
    let bytes = head + marker + params_text(ps) + intermediate + seq![b];
    assert(parsed(s, bytes).1 =~= seq![i.flushed().csi_action(b)]);
}

/// A control sequence without parameters arrives with the one parameter 0.
pub proof fn bare_sequences_arrive(s: ParserState, b: u8)
    requires
        s.state == State::Ground,
        0x40 <= b <= 0x7e,
    ensures
        parsed(s, seq![0x1bu8, 0x5b, b]).0.state == State::Ground,
        parsed(s, seq![0x1bu8, 0x5b, b]).1 == seq![
            ActionState::CsiDispatch {
                params: seq![seq![0u16]],
                intermediates: Seq::empty(),
                ignore: false,
                final_byte: b,
            },
        ],
{
    let head = seq![0x1bu8, 0x5b];
    assert(head =~= seq![0x1bu8] + seq![0x5bu8]);
    assert(seq![0x1bu8, 0x5b, b] =~= head + seq![b]);
    pieces_join(s, seq![0x1bu8], seq![0x5bu8]);
    one_byte(s, 0x1b);
    one_byte(s.advanced(0x1b).0, 0x5b);
    let c = parsed(s, head).0;
    pieces_join(s, head, seq![b]);
    one_byte(c, b);
    assert(c.flushed().params =~= seq![seq![0u16]]);
    assert(parsed(s, seq![0x1bu8, 0x5b, b]).1 =~= seq![c.flushed().csi_action(b)]);
}

/// An escape sequence arrives with its final byte, and the intermediate byte
/// where it has one.
pub proof fn escape_sequences_arrive(s: ParserState, intermediate: Seq<u8>, b: u8)
    requires
        s.state == State::Ground,
        intermediate.len() <= 1,
        intermediate.len() == 1 ==> 0x20 <= intermediate[0] <= 0x2f,
        0x30 <= b <= 0x7e,
        intermediate.len() == 0 ==> b != 0x50 && b != 0x58 && b != 0x5b && b != 0x5d && b != 0x5e
            && b != 0x5f,
    ensures
        ({
            let bytes = seq![0x1bu8] + intermediate + seq![b];
            &&& parsed(s, bytes).0.state == State::Ground
            &&& parsed(s, bytes).1 == seq![
                ActionState::EscDispatch { intermediates: intermediate, ignore: false, final_byte: b },
            ]
        }),
{
    one_byte(s, 0x1b);
    let e = s.advanced(0x1b).0;
    pieces_join(s, seq![0x1bu8], intermediate);
    reveal_with_fuel(parsed, 1);
    if intermediate.len() == 1 {
        assert(intermediate =~= seq![intermediate[0]]);
        one_byte(e, intermediate[0]);
    }
    let i = parsed(e, intermediate).0;
    assert(i.intermediates =~= intermediate);
    pieces_join(s, seq![0x1bu8] + intermediate, seq![b]);
    one_byte(i, b);
    assert(parsed(s, seq![0x1bu8] + intermediate + seq![b]).1 =~= seq![i.esc_action(b)]);
}

proof fn read_apc(s: ParserState, data: Seq<u8>)
    requires
        s.state == State::ApcString,
        s.apc.len() + data.len() <= MAX_OSC_LEN,
        forall|i: int| 0 <= i < data.len() ==> 0x20 <= #[trigger] data[i] <= 0x7e,
    ensures
        parsed(s, data).0 == (ParserState { apc: s.apc + data, ..s }),
        parsed(s, data).1.len() == 0,
    decreases data.len(),
{
    if data.len() == 0 {
        assert(s.apc + data =~= s.apc);
    } else {
        assert(0x20 <= data[0] <= 0x7e);
        let t = s.advanced(data[0]).0;
        read_apc(t, data.skip(1));
        assert(t.apc + data.skip(1) =~= s.apc + data);
    }
}

/// An application program command of text arrives whole, once it is ended.
pub proof fn program_commands_arrive(s: ParserState, data: Seq<u8>)
    requires
        s.state == State::Ground,
        data.len() <= MAX_OSC_LEN,
        forall|i: int| 0 <= i < data.len() ==> 0x20 <= #[trigger] data[i] <= 0x7e,
    ensures
        ({
            let bytes = seq![0x1bu8, 0x5f] + data + seq![0x1bu8];
            &&& parsed(s, bytes).0.state == State::Escape
            &&& parsed(s, bytes).1 == seq![ActionState::ApcDispatch { data }]
        }),
{
    let head = seq![0x1bu8, 0x5f];
    assert(head =~= seq![0x1bu8] + seq![0x5fu8]);
    pieces_join(s, seq![0x1bu8], seq![0x5fu8]);
    one_byte(s, 0x1b);
    one_byte(s.advanced(0x1b).0, 0x5f);
    let a = parsed(s, head).0;
    pieces_join(s, head, data);
    read_apc(a, data);
    assert(a.apc + data =~= data);
    pieces_join(s, head + data, seq![0x1bu8]);
    let d = parsed(a, data).0;
    one_byte(d, 0x1b);
    assert(parsed(s, head + data + seq![0x1bu8]).1 =~= seq![ActionState::ApcDispatch { data }]);
}

/// The bytes of a device control string.
pub open spec fn put_all(data: Seq<u8>) -> Seq<ActionState> {
    Seq::new(data.len(), |i: int| ActionState::Put(data[i]))
}

proof fn read_dcs(s: ParserState, data: Seq<u8>)
    requires
        s.state == State::DcsPassthrough,
        forall|i: int| 0 <= i < data.len() ==> 0x20 <= #[trigger] data[i] <= 0x7e,
    ensures
        parsed(s, data).0 == s,
        parsed(s, data).1 == put_all(data),
    decreases data.len(),
{
    if data.len() > 0 {
        assert(0x20 <= data[0] <= 0x7e);
        read_dcs(s, data.skip(1));
        assert(parsed(s, data).1 =~= put_all(data));
    } else {
        assert(parsed(s, data).1 =~= put_all(data));
    }
}

/// A device control string without parameters arrives as its start, its bytes
/// in order, and its end.
pub proof fn device_strings_arrive(s: ParserState, b: u8, data: Seq<u8>)
    requires
        s.state == State::Ground,
        0x40 <= b <= 0x7e,
        forall|i: int| 0 <= i < data.len() ==> 0x20 <= #[trigger] data[i] <= 0x7e,
    ensures
        ({
            let bytes = seq![0x1bu8, 0x50, b] + data + seq![0x1bu8];
            &&& parsed(s, bytes).0.state == State::Escape
            &&& parsed(s, bytes).1 == seq![
                ActionState::Hook {
                    params: seq![seq![0u16]],
                    intermediates: Seq::empty(),
                    ignore: false,
                    final_byte: b,
                },
            ] + put_all(data) + seq![ActionState::Unhook]
        }),
{
    let head = seq![0x1bu8, 0x50];
    assert(head =~= seq![0x1bu8] + seq![0x50u8]);
    pieces_join(s, seq![0x1bu8], seq![0x50u8]);
    one_byte(s, 0x1b);
    one_byte(s.advanced(0x1b).0, 0x50);
    let a = parsed(s, head).0;
    let start = seq![0x1bu8, 0x50, b];
    assert(start =~= head + seq![b]);
    pieces_join(s, head, seq![b]);
    one_byte(a, b);
    assert(a.flushed().params =~= seq![seq![0u16]]);
    let d = parsed(s, start).0;
    let hook = ActionState::Hook {
        params: seq![seq![0u16]],
        intermediates: Seq::empty(),
        ignore: false,
        final_byte: b,
    };
    assert(parsed(s, start).1 =~= seq![hook]);
    pieces_join(s, start, data);
    read_dcs(d, data);
    pieces_join(s, start + data, seq![0x1bu8]);
    one_byte(d, 0x1b);
    assert(parsed(s, start + data + seq![0x1bu8]).1 =~= seq![hook] + put_all(data) + seq![
        ActionState::Unhook,
    ]);
}

/// A control character within a control sequence is carried out at once and
/// changes nothing of the sequence.
pub proof fn controls_pass_through(s: ParserState, b: u8)
    requires
        s.state == State::CsiEntry || s.state == State::CsiParam || s.state
            == State::CsiIntermediate || s.state == State::Escape || s.state == State::Ground,
        b <= 0x17 || b == 0x19 || 0x1c <= b <= 0x1f,
    ensures
        s.advanced(b) == (s, seq![ActionState::Execute(b)]),
{
}

/// Each introducer of one byte begins what its two-byte form begins.
pub proof fn introducers_agree(s: ParserState)
    requires
        s.state == State::Ground,
    ensures
        s.advanced(0x9b).0 == s.advanced(0x1b).0.advanced(0x5b).0,
        s.advanced(0x9d).0.state == s.advanced(0x1b).0.advanced(0x5d).0.state,
        s.advanced(0x9d).0.osc.len() == 0 && s.advanced(0x1b).0.advanced(0x5d).0.osc.len() == 0,
        s.advanced(0x90).0 == s.advanced(0x1b).0.advanced(0x50).0,
        s.advanced(0x9f).0.state == s.advanced(0x1b).0.advanced(0x5f).0.state,
        s.advanced(0x9f).0.apc.len() == 0 && s.advanced(0x1b).0.advanced(0x5f).0.apc.len() == 0,
        s.advanced(0x98).0.state == s.advanced(0x1b).0.advanced(0x58).0.state,
        s.advanced(0x9e).0.state == s.advanced(0x1b).0.advanced(0x5e).0.state,
        s.advanced(0x9b).0.state == State::CsiEntry,
        s.advanced(0x9d).0.state == State::OscString,
        s.advanced(0x90).0.state == State::DcsEntry,
        s.advanced(0x9f).0.state == State::ApcString,
        s.advanced(0x9b).1.len() == 0 && s.advanced(0x9d).1.len() == 0 && s.advanced(0x90).1.len()
            == 0 && s.advanced(0x9f).1.len() == 0,
{
}

/// BEL and ESC end a command alike: it is carried out once, and as it stands.
/// CAN and SUB abort it.
pub proof fn commands_end(s: ParserState)
    requires
        s.state == State::OscString,
    ensures
        s.advanced(0x07).1 == s.advanced(0x1b).1,
        s.advanced(0x07).1 == seq![
            ActionState::OscDispatch { params: crate::text::split(s.osc, 0x3b) },
        ],
        s.advanced(0x07).0.state == State::Ground,
        s.advanced(0x1b).0.state == State::Escape,
        s.advanced(0x18).1 == seq![ActionState::Execute(0x18)],
        s.advanced(0x1a).1 == seq![ActionState::Execute(0x1a)],
        s.advanced(0x18).0.state == State::Ground && s.advanced(0x1a).0.state == State::Ground,
{
}

/// A character that breaks off prints the replacement character, and the byte
/// that broke it acts as it does between characters.
pub proof fn broken_characters_are_replaced(s: ParserState, b: u8)
    requires
        s.state == State::Utf8,
        b < 0x80 || 0xc0 <= b,
    ensures
        ({
            let fresh = ParserState { state: State::Ground, ..s };
            &&& s.advanced(b).1 == seq![ActionState::Print('\u{FFFD}')] + fresh.advanced(b).1
            &&& s.advanced(b).0 == fresh.advanced(b).0
        }),
{
}

/// A number beyond what 16 bits hold is the largest that they hold.
pub proof fn numbers_stop_growing(s: ParserState, b: u8)
    requires
        s.state == State::CsiParam,
        0x30 <= b <= 0x39,
    ensures
        ({
            let t = s.advanced(b).0;
            let n = s.current * 10 + (b - 0x30);
            &&& t.current == if n <= 65535 {
                n
            } else {
                65535
            }
            &&& t.params == s.params && t.state == s.state
        }),
{
}

} // verus!
