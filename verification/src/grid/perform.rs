//! The grid as the performer of the parser's actions.
use vstd::prelude::*;

use super::cell::{Cursor, WinSize};
use super::state::{Charsets, DcsState, GridState, Modes, OutboxState};
use super::Grid;
use crate::parser::{
    fed, performs, Action, ActionState, Parser, ParserState, Perform, State, MAX_OSC_LEN,
};
use crate::text::views;

verus! {

/// The longest sixel image; other device control strings are shorter.
pub const MAX_DCS_LEN: usize = 2_000_000;

impl GridState {
    /// A control byte carried out.
    #[verifier::opaque]
    pub open spec fn executed(self, b: u8) -> GridState {
        if b == 0x07 {
            self.with_outbox(OutboxState { bell: true, ..self.outbox })
        } else if b == 0x08 {
            if self.col > 0 {
                self.at(self.row, self.col - 1)
            } else {
                self
            }
        } else if b == 0x09 {
            self.tabbed_forward(1)
        } else if b == 0x0a || b == 0x0b || b == 0x0c {
            self.line_fed()
        } else if b == 0x0d {
            self.at(self.row, 0)
        } else if b == 0x0e {
            GridState { charsets: Charsets { active: 1, ..self.charsets }, ..self }
        } else if b == 0x0f {
            GridState { charsets: Charsets { active: 0, ..self.charsets }, ..self }
        } else {
            self
        }
    }

    /// RIS: everything as at power-up, at the present size.
    #[verifier::opaque]
    pub open spec fn reset(self) -> GridState {
        GridState::initial(self.screen.cols, self.screen.rows, self.screen.capacity)
    }

    /// DECDHL, DECSWL, DECDWL: how the cursor row is presented.
    #[verifier::opaque]
    pub open spec fn line_mode_set(self, mode: u8) -> GridState {
        GridState { line_modes: self.line_modes.update(self.row, mode), ..self }.all_dirty()
    }

    /// An escape sequence that needs no intermediate byte carried out.
    #[verifier::opaque]
    pub open spec fn esc_final(self, b: u8) -> GridState {
        if b == 0x4d {
            self.reverse_indexed()
        } else if b == 0x63 {
            self.reset()
        } else if b == 0x3d {
            self.with_modes(Modes { keypad_app: true, ..self.modes })
        } else if b == 0x3e {
            self.with_modes(Modes { keypad_app: false, ..self.modes })
        } else {
            self
        }
    }

    /// DECSC, DECRC and HTS.
    #[verifier::opaque]
    pub open spec fn esc_cursor(self, b: u8) -> GridState {
        if b == 0x37 {
            self.cursor_saved()
        } else if b == 0x38 {
            self.cursor_restored()
        } else {
            self.stop_set()
        }
    }

    /// A character set designated as G0, or as G1.
    pub open spec fn designated(self, g1: bool, set: u8) -> GridState {
        GridState {
            charsets: if g1 {
                Charsets { g1: set, ..self.charsets }
            } else {
                Charsets { g0: set, ..self.charsets }
            },
            ..self
        }
    }

    /// DECALN and the line presentations.
    #[verifier::opaque]
    pub open spec fn esc_hash(self, b: u8) -> GridState {
        if b == 0x38 {
            self.screen_aligned()
        } else {
            self.line_mode_set((b - 0x30) as u8)
        }
    }

    /// An escape sequence carried out.
    #[verifier::opaque]
    pub open spec fn esc(self, intermediates: Seq<u8>, b: u8) -> GridState {
        let one = intermediates.len() == 1;
        if one && intermediates[0] == 0x23 && (0x33 <= b <= 0x36 || b == 0x38) {
            self.esc_hash(b)
        } else if b == 0x37 || b == 0x38 || b == 0x48 {
            self.esc_cursor(b)
        } else if one && intermediates[0] == 0x28 {
            self.designated(false, b)
        } else if one && intermediates[0] == 0x29 {
            self.designated(true, b)
        } else {
            self.esc_final(b)
        }
    }

    pub open spec fn with_dcs(self, dcs: DcsState) -> GridState {
        GridState { dcs, ..self }
    }

    /// A device control string begun: a DECRQSS request (`1 $ q`), a sixel
    /// image (any other `q`), or one that is passed over.
    #[verifier::opaque]
    pub open spec fn hooked(
        self,
        params: Seq<Seq<u16>>,
        intermediates: Seq<u8>,
        b: u8,
    ) -> GridState {
        let request = params.len() > 0 && params[0].len() > 0 && params[0][0] == 1
            && intermediates.contains(0x24) && b == 0x71;
        self.with_dcs(DcsState { buf: Seq::empty(), request, sixel: b == 0x71 && !request })
    }

    /// A byte of a device control string, as far as there is room.
    #[verifier::opaque]
    pub open spec fn put(self, b: u8) -> GridState {
        let cap = if self.dcs.sixel {
            MAX_DCS_LEN
        } else {
            MAX_OSC_LEN
        };
        if self.dcs.buf.len() < cap {
            self.with_dcs(DcsState { buf: self.dcs.buf.push(b), ..self.dcs })
        } else {
            self
        }
    }

    /// A device control string complete: a request is answered, an image
    /// shown.
    #[verifier::opaque]
    pub open spec fn unhooked(self) -> GridState {
        let s = if self.dcs.request {
            self.replying(self.status_report())
        } else if self.dcs.sixel {
            self.sixel_placed()
        } else {
            self
        };
        s.with_dcs(DcsState { buf: Seq::empty(), request: false, sixel: false })
    }

    /// An action of the parser carried out.
    #[verifier::opaque]
    pub open spec fn performed(self, action: ActionState) -> GridState {
        match action {
            ActionState::Print(c) => self.char_printed(c),
            ActionState::Execute(b) => self.executed(b),
            ActionState::CsiDispatch { params, intermediates, ignore, final_byte } => self.csi(
                params,
                intermediates,
                final_byte,
            ),
            ActionState::OscDispatch { params } => self.osc(params),
            ActionState::ApcDispatch { data } => self.apc(data),
            ActionState::Hook { params, intermediates, ignore, final_byte } => self.hooked(
                params,
                intermediates,
                final_byte,
            ),
            ActionState::Put(b) => self.put(b),
            ActionState::Unhook => self.unhooked(),
            ActionState::EscDispatch { intermediates, ignore, final_byte } => self.esc(
                intermediates,
                final_byte,
            ),
        }
    }

    /// Actions carried out in turn.
    pub open spec fn all_performed(self, actions: Seq<ActionState>) -> GridState
        decreases actions.len(),
    {
        if actions.len() == 0 {
            self
        } else {
            self.performed(actions[0]).all_performed(actions.skip(1))
        }
    }

    /// Bytes taken by a parser in state `s` and this terminal: the state of
    /// both after them.
    pub open spec fn fed(self, s: ParserState, bytes: Seq<u8>) -> (ParserState, GridState)
        decreases bytes.len(),
    {
        let run = self.batched(bytes);
        if bytes.len() == 0 {
            (s, self)
        } else if s.state == State::Ground && 0 < run.1 <= bytes.len() {
            run.0.fed(s, bytes.skip(run.1))
        } else {
            self.all_performed(s.advanced(bytes[0]).1).fed(s.advanced(bytes[0]).0, bytes.skip(1))
        }
    }

    /// Bytes taken as by `fed`, up to the first after which an image file is to
    /// be read: the state of parser and terminal then, and the bytes that are
    /// left.
    pub open spec fn fed_until_file(self, s: ParserState, bytes: Seq<u8>) -> (
        ParserState,
        GridState,
        Seq<u8>,
    )
        decreases bytes.len(),
    {
        let run = self.batched(bytes);
        if bytes.len() == 0 || self.graphics.files.len() > 0 {
            (s, self, bytes)
        } else if s.state == State::Ground && 0 < run.1 <= bytes.len() {
            run.0.fed_until_file(s, bytes.skip(run.1))
        } else {
            self.all_performed(s.advanced(bytes[0]).1).fed_until_file(
                s.advanced(bytes[0]).0,
                bytes.skip(1),
            )
        }
    }
}

// ---------------------------------------------------------------------------
// Laws
// ---------------------------------------------------------------------------

/// What the actions of the parser do to a grid is fixed by what the grid
/// holds, and a well-formed grid stays well formed.
pub proof fn grid_performs(p: Grid, actions: Seq<ActionState>, q: Grid)
    requires
        p.wf(),
        performs(p, actions, q),
    ensures
        q.wf(),
        q@ == p@.all_performed(actions),
    decreases actions.len(),
{
    reveal_with_fuel(GridState::all_performed, 2);
    if actions.len() == 1 {
        assert(p.performed(actions[0], q));
    } else if actions.len() > 1 {
        let m = choose|m: Grid|
            #![trigger p.performed(actions[0], m)]
            p.performed(actions[0], m) && performs(m, actions.skip(1), q);
        grid_performs(m, actions.skip(1), q);
    }
}

/// Whatever bytes a terminal takes, in one piece, the parser and the grid end
/// up as the bytes and their states before determine, and the grid stays well
/// formed: the cursor on the screen, the scroll region within it, the
/// scrollback within its capacity, the images within their limit.
pub proof fn grid_feeds(s: ParserState, p: Grid, bytes: Seq<u8>, t: ParserState, q: Grid)
    requires
        p.wf(),
        fed(s, p, bytes, t, q),
    ensures
        q.wf(),
        (t, q@) == p@.fed(s, bytes),
        q@.row < q@.screen.rows,
        q@.col <= q@.screen.cols,
        q@.margins.top <= q@.margins.bottom < q@.screen.rows,
        q@.screen.scrollback.len() <= q@.screen.capacity,
        q@.screen.images.len() <= crate::sixel::MAX_LIVE_SIXELS,
    decreases bytes.len(),
{
    if bytes.len() > 0 {
        let step = s.advanced(bytes[0]);
        if s.state == State::Ground {
            let (n, m) = choose|n: int, m: Grid|
                #![trigger p.ran(bytes, n, m)]
                p.ran(bytes, n, m) && 0 <= n <= bytes.len() && if n > 0 {
                    fed(s, m, bytes.skip(n), t, q)
                } else {
                    exists|k: Grid|
                        #![trigger performs(m, step.1, k)]
                        performs(m, step.1, k) && fed(step.0, k, bytes.skip(1), t, q)
                };
            assert(p.ran(bytes, n, m));
            if n > 0 {
                grid_feeds(s, m, bytes.skip(n), t, q);
            } else {
                let k = choose|k: Grid|
                    #![trigger performs(m, step.1, k)]
                    performs(m, step.1, k) && fed(step.0, k, bytes.skip(1), t, q);
                super::run::batched_nothing(p@, bytes);
                assert(m@ == p@);
                grid_performs(m, step.1, k);
                grid_feeds(step.0, k, bytes.skip(1), t, q);
            }
        } else {
            let k = choose|k: Grid|
                #![trigger performs(p, step.1, k)]
                performs(p, step.1, k) && fed(step.0, k, bytes.skip(1), t, q);
            grid_performs(p, step.1, k);
            grid_feeds(step.0, k, bytes.skip(1), t, q);
        }
    }
}

/// Stopping at an image file loses nothing: what is left does, after the stop,
/// what it does without one. Where nothing is left, all bytes were taken, and
/// where something is left, a file is to be read.
pub proof fn stops_are_seamless(g: GridState, s: ParserState, bytes: Seq<u8>)
    ensures
        ({
            let (t, h, rest) = g.fed_until_file(s, bytes);
            &&& h.fed(t, rest) == g.fed(s, bytes)
            &&& rest.len() <= bytes.len()
            &&& rest == bytes.skip(bytes.len() - rest.len())
            &&& rest.len() > 0 ==> h.graphics.files.len() > 0
        }),
    decreases bytes.len(),
{
    let run = g.batched(bytes);
    if bytes.len() == 0 || g.graphics.files.len() > 0 {
        assert(bytes.skip(0) =~= bytes);
    } else if s.state == State::Ground && 0 < run.1 <= bytes.len() {
        stops_are_seamless(run.0, s, bytes.skip(run.1));
        let rest = run.0.fed_until_file(s, bytes.skip(run.1)).2;
        assert(bytes.skip(run.1).skip(bytes.len() - run.1 - rest.len()) =~= bytes.skip(
            bytes.len() - rest.len(),
        ));
    } else {
        let (t, h) = (s.advanced(bytes[0]).0, g.all_performed(s.advanced(bytes[0]).1));
        stops_are_seamless(h, t, bytes.skip(1));
        let rest = h.fed_until_file(t, bytes.skip(1)).2;
        assert(bytes.skip(1).skip(bytes.len() - 1 - rest.len()) =~= bytes.skip(
            bytes.len() - rest.len(),
        ));
    }
}

// ---------------------------------------------------------------------------
// Executable
// ---------------------------------------------------------------------------

impl Grid {
    /// Take bytes, up to the first after which an image file is to be read; the
    /// number taken.
    pub fn take_until_file(&mut self, parser: &mut Parser, bytes: &[u8]) -> (n: usize)
        requires
            old(self).wf(),
            old(parser)@.wf(),
        ensures
            final(self).wf(),
            final(parser)@.wf(),
            n <= bytes@.len(),
            (final(parser)@, final(self)@, bytes@.skip(n as int)) == old(self)@.fed_until_file(
                old(parser)@,
                bytes@,
            ),
    {
        let len: usize = bytes.len();
        let ghost goal = self@.fed_until_file(parser@, bytes@);
        let mut i: usize = 0;
        proof {
            assert(bytes@.skip(0) =~= bytes@);
        }
        while i < len && self.graphics.kitty_files.len() == 0
            invariant
                i <= len,
                len == bytes@.len(),
                self.wf(),
                parser@.wf(),
                self@.fed_until_file(parser@, bytes@.skip(i as int)) == goal,
            decreases len - i,
        {
            let ghost rest = bytes@.skip(i as int);
            let ghost before = *self;
            let ghost was = parser@;
            let mut taken: usize = 0;
            proof {
                super::run::batched_nothing(self@, rest);
            }
            if parser.is_ground() {
                let remaining = vstd::slice::slice_subrange(bytes, i, len);
                proof {
                    assert(remaining@ =~= rest);
                }
                taken = self.print_ascii_run(remaining);
            }
            if taken > 0 {
                proof {
                    assert(rest.skip(taken as int) =~= bytes@.skip(i + taken));
                }
                i += taken;
            } else {
                let ghost held = *self;
                parser.advance(self, bytes[i]);
                proof {
                    assert(held@ == before@);
                    grid_performs(held, was.advanced(bytes@[i as int]).1, *self);
                    assert(rest[0] == bytes@[i as int]);
                    assert(rest.skip(1) =~= bytes@.skip(i + 1));
                }
                i += 1;
            }
        }
        i
    }

    /// Carry out a control byte.
    pub fn execute(&mut self, byte: u8)
        requires
            old(self).wf(),
        ensures
            final(self).wf(),
            final(self)@ == old(self)@.executed(byte),
    {
        proof {
            reveal(GridState::executed);
        }
        if byte == 0x07 {
            self.outbox.bell_pending = true;
        } else if byte == 0x08 {
            self.backspace();
        } else if byte == 0x09 {
            self.tab_forward(1);
        } else if byte == 0x0a || byte == 0x0b || byte == 0x0c {
            self.line_feed();
        } else if byte == 0x0d {
            self.carriage_return();
        } else if byte == 0x0e {
            self.charsets = Charsets { active: 1, ..self.charsets };
        } else if byte == 0x0f {
            self.charsets = Charsets { active: 0, ..self.charsets };
        }
    }

    fn reset(&mut self)
        requires
            old(self).wf(),
        ensures
            final(self).wf(),
            final(self)@ == old(self)@.reset(),
    {
        proof {
            reveal(GridState::reset);
        }
        let size = WinSize { cols: self.screen.cols as u16, rows: self.screen.rows as u16 };
        *self = Grid::new(size, self.screen.scrollback_capacity);
    }

    fn set_line_mode(&mut self, mode: u8)
        requires
            old(self).wf(),
        ensures
            final(self).wf(),
            final(self)@ == old(self)@.line_mode_set(mode),
    {
        proof {
            reveal(GridState::line_mode_set);
        }
        let row: usize = self.cursor.row;
        self.line_modes[row] = mode;
        self.mark_all_dirty();
    }

    fn esc_final(&mut self, byte: u8)
        requires
            old(self).wf(),
        ensures
            final(self).wf(),
            final(self)@ == old(self)@.esc_final(byte),
    {
        proof {
            reveal(GridState::esc_final);
        }
        if byte == 0x4d {
            self.reverse_index();
        } else if byte == 0x63 {
            self.reset();
        } else if byte == 0x3d {
            self.modes = Modes { keypad_app: true, ..self.modes };
        } else if byte == 0x3e {
            self.modes = Modes { keypad_app: false, ..self.modes };
        }
    }

    fn esc_cursor(&mut self, byte: u8)
        requires
            old(self).wf(),
        ensures
            final(self).wf(),
            final(self)@ == old(self)@.esc_cursor(byte),
    {
        proof {
            reveal(GridState::esc_cursor);
        }
        if byte == 0x37 {
            self.save_cursor();
        } else if byte == 0x38 {
            self.restore_cursor();
        } else {
            self.set_tab_stop();
        }
    }

    fn esc_hash(&mut self, byte: u8)
        requires
            old(self).wf(),
            byte >= 0x30,
        ensures
            final(self).wf(),
            final(self)@ == old(self)@.esc_hash(byte),
    {
        proof {
            reveal(GridState::esc_hash);
        }
        if byte == 0x38 {
            self.align_screen();
        } else {
            self.set_line_mode(byte - 0x30);
        }
    }

    fn designate(&mut self, g1: bool, set: u8)
        requires
            old(self).wf(),
        ensures
            final(self).wf(),
            final(self)@ == old(self)@.designated(g1, set),
    {
        if g1 {
            self.charsets = Charsets { g1: set, ..self.charsets };
        } else {
            self.charsets = Charsets { g0: set, ..self.charsets };
        }
    }

    /// Carry out an escape sequence.
    pub fn handle_esc(&mut self, intermediates: &Vec<u8>, byte: u8)
        requires
            old(self).wf(),
        ensures
            final(self).wf(),
            final(self)@ == old(self)@.esc(intermediates@, byte),
    {
        proof {
            reveal(GridState::esc);
        }
        let one = intermediates.len() == 1;
        if one && intermediates[0] == 0x23 && ((0x33 <= byte && byte <= 0x36) || byte == 0x38) {
            self.esc_hash(byte);
        } else if byte == 0x37 || byte == 0x38 || byte == 0x48 {
            self.esc_cursor(byte);
        } else if one && intermediates[0] == 0x28 {
            self.designate(false, byte);
        } else if one && intermediates[0] == 0x29 {
            self.designate(true, byte);
        } else {
            self.esc_final(byte);
        }
    }

    fn hook(&mut self, params: &Vec<Vec<u16>>, intermediates: &Vec<u8>, byte: u8)
        requires
            old(self).wf(),
        ensures
            final(self).wf(),
            final(self)@ == old(self)@.hooked(
                super::params::groups(params@),
                intermediates@,
                byte,
            ),
    {
        proof {
            reveal(GridState::hooked);
        }
        let mut dollar = false;
        let mut i: usize = 0;
        while i < intermediates.len()
            invariant
                i <= intermediates@.len(),
                dollar == intermediates@.take(i as int).contains(0x24),
            decreases intermediates@.len() - i,
        {
            let ghost before = intermediates@.take(i as int);
            if intermediates[i] == 0x24 {
                dollar = true;
            }
            i += 1;
            proof {
                let now = intermediates@.take(i as int);
                assert(now =~= before.push(intermediates@[i - 1]));
                if before.contains(0x24) {
                    let j = choose|j: int| 0 <= j < before.len() && before[j] == 0x24;
                    assert(now[j] == 0x24);
                }
                if intermediates@[i - 1] == 0x24 {
                    assert(now[i - 1] == 0x24);
                }
                if now.contains(0x24) {
                    let j = choose|j: int| 0 <= j < now.len() && now[j] == 0x24;
                    if j < i - 1 {
                        assert(before[j] == 0x24);
                    }
                }
            }
        }
        proof {
            assert(intermediates@.take(intermediates@.len() as int) =~= intermediates@);
        }
        let request = params.len() > 0 && params[0].len() > 0 && params[0][0] == 1 && dollar && byte
            == 0x71;
        self.dcs = super::Dcs {
            dcs_buf: Vec::new(),
            dcs_request: request,
            dcs_sixel: byte == 0x71 && !request,
        };
        proof {
            assert(self@.dcs.buf =~= Seq::empty());
        }
    }

    fn put(&mut self, byte: u8)
        requires
            old(self).wf(),
        ensures
            final(self).wf(),
            final(self)@ == old(self)@.put(byte),
    {
        proof {
            reveal(GridState::put);
        }
        let cap: usize = if self.dcs.dcs_sixel {
            MAX_DCS_LEN
        } else {
            MAX_OSC_LEN
        };
        if self.dcs.dcs_buf.len() < cap {
            self.dcs.dcs_buf.push(byte);
        }
    }

    fn unhook(&mut self)
        requires
            old(self).wf(),
        ensures
            final(self).wf(),
            final(self)@ == old(self)@.unhooked(),
    {
        proof {
            reveal(GridState::unhooked);
        }
        if self.dcs.dcs_request {
            self.answer_decrqss();
        } else if self.dcs.dcs_sixel {
            self.place_sixel();
        }
        self.dcs = super::Dcs { dcs_buf: Vec::new(), dcs_request: false, dcs_sixel: false };
        proof {
            assert(self@.dcs.buf =~= Seq::empty());
        }
    }
}

impl Perform for Grid {
    open spec fn ready(self) -> bool {
        self.wf()
    }

    open spec fn performed(self, action: ActionState, post: Self) -> bool {
        post.wf() && post@ == self@.performed(action)
    }

    open spec fn ran(self, bytes: Seq<u8>, n: int, post: Self) -> bool {
        post.wf() && (post@, n) == self@.batched(bytes)
    }

    fn perform(&mut self, action: Action) {
        proof {
            reveal(GridState::performed);
        }
        match action {
            Action::Print(c) => self.print(c),
            Action::Execute(b) => self.execute(b),
            Action::CsiDispatch { params, intermediates, ignore: _, final_byte } => self.handle_csi(
                &params,
                &intermediates,
                final_byte,
            ),
            Action::OscDispatch { params } => self.handle_osc(&params),
            Action::ApcDispatch { data } => self.handle_apc(data.as_slice()),
            Action::Hook { params, intermediates, ignore: _, final_byte } => self.hook(
                &params,
                &intermediates,
                final_byte,
            ),
            Action::Put(b) => self.put(b),
            Action::Unhook => self.unhook(),
            Action::EscDispatch { intermediates, ignore: _, final_byte } => self.handle_esc(
                &intermediates,
                final_byte,
            ),
        }
    }

    fn print_ascii_run(&mut self, bytes: &[u8]) -> (n: usize) {
        self.print_ascii_run(bytes)
    }
}

} // verus!
