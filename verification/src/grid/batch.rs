//! A batch of text does what its bytes do one at a time.
use vstd::prelude::*;

use super::cursor::{stop_from_bounds, stops_forward};
use super::print::line_written;
use super::run::{
    ascii_print_agrees, batch_controls_agree, feeds_end_bounds, is_printable, printable_end,
    printable_end_bounds, scrolled_cols, text_run_bounds,
};
use super::screen::{archived_wf, dirtied_wf, lines_up_wf, put_line_wf};
use super::state::{GridState, ScreenState};

verus! {

/// A byte of text: printable, or LF, CR, BS or HT.
pub open spec fn is_text(b: u8) -> bool {
    is_printable(b) || b == 0x0a || b == 0x0d || b == 0x08 || b == 0x09
}

impl GridState {
    /// The state but for the character that REP would repeat.
    pub open spec fn forgetting(self) -> GridState {
        GridState { last_char: None, ..self }
    }

    /// A byte of text carried out on its own.
    pub open spec fn byte_done(self, b: u8) -> GridState {
        if is_printable(b) {
            self.char_printed(b as char)
        } else {
            self.executed(b)
        }
    }

    /// The bytes `i..n` carried out one at a time.
    pub open spec fn bytes_done(self, bytes: Seq<u8>, i: int, n: int) -> GridState
        decreases n - i,
    {
        if i >= n {
            self
        } else {
            self.byte_done(bytes[i]).bytes_done(bytes, i + 1, n)
        }
    }

    /// The batch path applies, and cells are marked as they are written.
    pub open spec fn ordinary(self) -> bool {
        &&& self.wf()
        &&& self.batchable()
        &&& !self.modes.bulk_output
    }
}

/// Scrolling up by a line keeps the grid well formed.
proof fn scrolled_wf(s: GridState)
    requires
        s.wf(),
    ensures
        s.scrolled_up(s.margins.top, 1).wf(),
        s.scrolled_up(s.margins.top, 1).screen.same_shape(s.screen),
{
    let (top, bot) = (s.margins.top, s.margins.bottom);
    let kept = if !s.screen.alt_active {
        s.screen.archived(top, 1)
    } else {
        s.screen
    };
    archived_wf(s.screen, top, 1);
    lines_up_wf(kept, top, bot, 1);
    dirtied_wf(kept.lines_up(top, bot, 1), top, bot);
}

/// What a byte does does not depend on the character that REP would repeat.
proof fn byte_forgets(s: GridState, b: u8)
    ensures
        s.forgetting().byte_done(b).forgetting() == s.byte_done(b).forgetting(),
{
    reveal(GridState::char_printed);
    reveal(GridState::executed);
}

/// A byte of text leaves an ordinary grid ordinary.
proof fn byte_keeps_ordinary(s: GridState, b: u8)
    requires
        s.ordinary(),
        is_text(b),
    ensures
        s.byte_done(b).ordinary(),
{
    reveal(GridState::executed);
    scrolled_wf(s);
    scrolled_cols(s, s.margins.top, 1);
    if is_printable(b) {
        reveal(GridState::char_printed);
        reveal(ScreenState::filled);
        let w = s.wrapped(1);
        assert(w.screen.wf());
        let line = line_written(
            w.screen.active()[w.row],
            w.col,
            w.printed_cell(b as char, true),
            1,
        );
        put_line_wf(w.screen, w.row, line);
    } else if b == 0x09 {
        reveal_with_fuel(stops_forward, 2);
        stop_from_bounds(s.tabs, s.col + 1);
    }
}

proof fn done_split(s: GridState, bytes: Seq<u8>, i: int, k: int, n: int)
    requires
        i <= k <= n,
    ensures
        s.bytes_done(bytes, i, n) == s.bytes_done(bytes, i, k).bytes_done(bytes, k, n),
    decreases k - i,
{
    if i < k {
        done_split(s.byte_done(bytes[i]), bytes, i + 1, k, n);
    }
}

/// A run of printable bytes agrees.
proof fn run_agrees(s: GridState, u: GridState, bytes: Seq<u8>, i: int, k: int)
    requires
        0 <= i <= k <= bytes.len(),
        s.ordinary(),
        s.forgetting() == u.forgetting(),
        forall|j: int| i <= j < k ==> is_printable(#[trigger] bytes[j]),
    ensures
        s.run_printed(bytes.subrange(i, k)).ordinary(),
        s.run_printed(bytes.subrange(i, k)).forgetting() == u.bytes_done(
            bytes,
            i,
            k,
        ).forgetting(),
    decreases k - i,
{
    let part = bytes.subrange(i, k);
    if i < k {
        let b = bytes[k - 1];
        assert(part.drop_last() =~= bytes.subrange(i, k - 1));
        assert(part.last() == b);
        run_agrees(s, u, bytes, i, k - 1);
        let t = s.run_printed(bytes.subrange(i, k - 1));
        let v = u.bytes_done(bytes, i, k - 1);
        ascii_print_agrees(t, b);
        assert(t.ascii_printed(b) == t.byte_done(b));
        byte_keeps_ordinary(t, b);
        byte_forgets(t, b);
        byte_forgets(v, b);
        done_split(u, bytes, i, k - 1, k);
        assert(v.bytes_done(bytes, k - 1, k) == v.byte_done(b)) by {
            reveal_with_fuel(GridState::bytes_done, 2);
        }
    } else {
        assert(part.len() == 0);
    }
}

proof fn text_agrees(s: GridState, u: GridState, bytes: Seq<u8>, i: int)
    requires
        0 <= i <= bytes.len(),
        s.ordinary(),
        s.forgetting() == u.forgetting(),
        forall|j: int|
            0 <= j < bytes.len() - 1 ==> !(#[trigger] bytes[j] == 0x0a && bytes[j + 1] == 0x0a),
    ensures
        s.text_run(bytes, i).0.forgetting() == u.bytes_done(
            bytes,
            i,
            s.text_run(bytes, i).1,
        ).forgetting(),
    decreases bytes.len() - i,
{
    text_run_bounds(s, bytes, i);
    if i < bytes.len() {
        let b = bytes[i];
        if is_printable(b) {
            printable_end_bounds(bytes, i + 1);
            let e = printable_end(bytes, i + 1);
            run_agrees(s, u, bytes, i, e);
            let t = s.run_printed(bytes.subrange(i, e));
            let v = u.bytes_done(bytes, i, e);
            text_run_bounds(t, bytes, e);
            text_agrees(t, v, bytes, e);
            done_split(u, bytes, i, e, t.text_run(bytes, e).1);
        } else if is_text(b) {
            batch_controls_agree(s);
            byte_keeps_ordinary(s, b);
            byte_forgets(s, b);
            byte_forgets(u, b);
            feeds_end_bounds(bytes, i + 1);
            let t = if b == 0x0a {
                s.lines_fed(1)
            } else {
                s.batch_control(b)
            };
            assert(t == s.byte_done(b).forgetting());
            text_run_bounds(t, bytes, i + 1);
            text_agrees(t, u.byte_done(b), bytes, i + 1);
        }
    }
}

/// A batch of text does to the grid what its bytes do one at a time, but for
/// the character that REP repeats, which a batch forgets at a control character:
/// where no two line feeds follow each other.
pub proof fn batches_agree(s: GridState, bytes: Seq<u8>)
    requires
        s.ordinary(),
        forall|j: int|
            0 <= j < bytes.len() - 1 ==> !(#[trigger] bytes[j] == 0x0a && bytes[j + 1] == 0x0a),
    ensures
        s.batched(bytes).0.forgetting() == s.bytes_done(
            bytes,
            0,
            s.batched(bytes).1,
        ).forgetting(),
{
    reveal(GridState::batched);
    text_agrees(s, s, bytes, 0);
}

} // verus!
