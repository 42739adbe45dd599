//! A visit to the alternate screen leaves the primary one alone.
use vstd::prelude::*;

use super::csi::{csi_of, Csi, Edit, Setting};
use super::state::{GridState, ScreenState};
use crate::parser::ActionState;

verus! {

impl GridState {
    /// This is the alternate screen, entered from `from`: the primary screen,
    /// its history, its cursor and the kitty keyboard state wait unchanged.
    pub open spec fn visits_from(self, from: GridState) -> bool {
        &&& self.screen.alt_active
        &&& self.screen.primary == from.screen.primary
        &&& self.screen.scrollback == from.screen.scrollback
        &&& self.screen.history_markers == from.screen.history_markers
        &&& self.screen.capacity == from.screen.capacity
        &&& self.alt_row == from.row
        &&& self.alt_col == from.col
        &&& self.keyboard == from.keyboard.entering_alt()
    }
}

/// The action draws: it prints, is a control character, moves the cursor, edits
/// the screen but for its history (ED 3), sets how or where characters are
/// printed, or asks a question. Of the escape sequences all but a reset (RIS)
/// do.
pub open spec fn draws(a: ActionState) -> bool {
    match a {
        ActionState::Print(_) => true,
        ActionState::Execute(_) => true,
        ActionState::CsiDispatch { params, intermediates, ignore, final_byte } => match csi_of(
            params,
            intermediates,
            final_byte,
        ) {
            Csi::Move(_) => true,
            Csi::Edit(Edit::EraseDisplay(mode, _)) => mode != 3,
            Csi::Edit(_) => true,
            Csi::Setting(Setting::Sgr) => true,
            Csi::Setting(Setting::Protect(_)) => true,
            Csi::Setting(Setting::CursorShape(_)) => true,
            Csi::Setting(Setting::Region(_, _)) => true,
            Csi::Setting(Setting::Sides(_, _)) => true,
            Csi::Query(_) => true,
            Csi::Nothing => true,
            _ => false,
        },
        ActionState::EscDispatch { intermediates, ignore, final_byte } => final_byte != 0x63,
        _ => false,
    }
}

proof fn scrolling_stays(s: GridState, from: GridState, top: int, n: int)
    requires
        s.visits_from(from),
    ensures
        s.scrolled_up(top, n).visits_from(from),
        s.scrolled_down(top, n).visits_from(from),
        s.lines_deleted(n).visits_from(from),
{
    reveal(ScreenState::lines_up);
    reveal(ScreenState::lines_down);
    reveal(ScreenState::dirtied);
}

proof fn printing_stays(s: GridState, from: GridState, c: char)
    requires
        s.visits_from(from),
    ensures
        s.char_printed(c).visits_from(from),
{
    reveal(GridState::char_printed);
    reveal(ScreenState::put_line);
    scrolling_stays(s, from, s.margins.top, 1);
}

proof fn repeating_stays(s: GridState, from: GridState, c: char, n: nat)
    requires
        s.visits_from(from),
    ensures
        s.repeated(c, n).visits_from(from),
    decreases n,
{
    if n > 0 {
        repeating_stays(s, from, c, (n - 1) as nat);
        printing_stays(s.repeated(c, (n - 1) as nat), from, c);
    }
}

proof fn editing_stays(s: GridState, from: GridState, e: Edit)
    requires
        s.visits_from(from),
        e matches Edit::EraseDisplay(mode, _) ==> mode != 3,
    ensures
        s.edited(e).visits_from(from),
{
    reveal(ScreenState::put_line);
    reveal(ScreenState::map_lines);
    match e {
        Edit::Repeat(n) => {
            if let Some(c) = s.last_char {
                repeating_stays(s, from, c, n as nat);
            }
        },
        Edit::InsertLines(n) => scrolling_stays(s, from, s.row, n as int),
        Edit::DeleteLines(n) => scrolling_stays(s, from, s.row, n as int),
        Edit::ScrollDown(n) => scrolling_stays(s, from, s.margins.top, n as int),
        _ => {},
    }
}

proof fn escaping_stays(s: GridState, from: GridState, intermediates: Seq<u8>, b: u8)
    requires
        s.visits_from(from),
        b != 0x63,
    ensures
        s.esc(intermediates, b).visits_from(from),
{
    reveal(GridState::esc);
    reveal(GridState::esc_final);
    reveal(GridState::esc_cursor);
    reveal(GridState::esc_hash);
    reveal(GridState::line_mode_set);
    reveal(ScreenState::map_lines);
    reveal(ScreenState::put_line);
    reveal(ScreenState::dirtied);
    scrolling_stays(s, from, s.margins.top, 1);
}

proof fn drawing_stays(s: GridState, from: GridState, a: ActionState)
    requires
        s.visits_from(from),
        draws(a),
    ensures
        s.performed(a).visits_from(from),
{
    reveal(GridState::performed);
    match a {
        ActionState::Print(c) => printing_stays(s, from, c),
        ActionState::Execute(_) => {
            reveal(GridState::executed);
            scrolling_stays(s, from, s.margins.top, 1);
        },
        ActionState::CsiDispatch { params, intermediates, ignore, final_byte } => {
            reveal(GridState::csi);
            if let Csi::Edit(e) = csi_of(params, intermediates, final_byte) {
                editing_stays(s, from, e);
            }
        },
        ActionState::EscDispatch { intermediates, ignore, final_byte } => {
            escaping_stays(s, from, intermediates, final_byte);
        },
        _ => {},
    }
}

proof fn all_drawing_stays(s: GridState, from: GridState, actions: Seq<ActionState>)
    requires
        s.visits_from(from),
        forall|i: int| 0 <= i < actions.len() ==> draws(#[trigger] actions[i]),
    ensures
        s.all_performed(actions).visits_from(from),
    decreases actions.len(),
{
    if actions.len() > 0 {
        drawing_stays(s, from, actions[0]);
        let rest = actions.skip(1);
        assert forall|i: int| 0 <= i < rest.len() implies draws(#[trigger] rest[i]) by {
            assert(rest[i] == actions[i + 1]);
        }
        all_drawing_stays(s.performed(actions[0]), from, rest);
    }
}

/// Entering the alternate screen, drawing on it whatever one will, and leaving
/// it again brings back the lines of the primary screen and its history, the
/// cursor, and the kitty keyboard flags and stacks.
pub proof fn alt_round_trip(s: GridState, actions: Seq<ActionState>)
    requires
        !s.screen.alt_active,
        forall|i: int| 0 <= i < actions.len() ==> draws(#[trigger] actions[i]),
    ensures
        ({
            let back = s.alt_entered().all_performed(actions).alt_left();
            &&& s.alt_entered().all_performed(actions).screen.alt_active
            &&& !back.screen.alt_active
            &&& back.screen.primary == s.screen.primary
            &&& back.screen.scrollback == s.screen.scrollback
            &&& back.screen.history_markers == s.screen.history_markers
            &&& back.row == s.row
            &&& back.col == s.col
            &&& back.keyboard.flags == s.keyboard.flags
            &&& back.keyboard.stack == s.keyboard.stack
            &&& back.keyboard.flags_alt == s.keyboard.flags_alt
            &&& back.keyboard.stack_alt == s.keyboard.stack_alt
        }),
{
    all_drawing_stays(s.alt_entered(), s, actions);
}

} // verus!
