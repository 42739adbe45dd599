//! Modes, the alternate screen and the kitty keyboard stacks.
use vstd::prelude::*;

use super::cell::{blank_line, line_view, lines_view, Cursor, MouseEncoding, MouseMode};
use super::params::{groups, param_or, value_or};
use super::screen::Screen;
use super::setup::{flags, repeat_line};
use super::state::{GridState, KeyboardState, Margins, Modes, ScreenState};
use super::{Grid, Keyboard, ScrollMargins};

verus! {

impl KeyboardState {
    /// The alternate screen's flags and stack put in use.
    pub open spec fn entering_alt(self) -> KeyboardState {
        KeyboardState {
            flags: self.flags_alt,
            stack: self.stack_alt,
            flags_primary: self.flags,
            stack_primary: self.stack,
            flags_alt: self.flags_alt,
            stack_alt: Seq::empty(),
        }
    }

    /// The primary screen's flags and stack put in use.
    pub open spec fn leaving_alt(self) -> KeyboardState {
        KeyboardState {
            flags: self.flags_primary,
            stack: self.stack_primary,
            flags_primary: self.flags_primary,
            stack_primary: Seq::empty(),
            flags_alt: self.flags,
            stack_alt: self.stack,
        }
    }

    /// The flags in use pushed and replaced.
    pub open spec fn pushed(self, flags: u8) -> KeyboardState {
        KeyboardState { flags, stack: self.stack.push(self.flags), ..self }
    }

    /// `n` entries popped; below an empty stack the flags are 0.
    pub open spec fn popped(self, n: nat) -> KeyboardState
        decreases n,
    {
        if n == 0 {
            self
        } else {
            let once = if self.stack.len() > 0 {
                KeyboardState { flags: self.stack.last(), stack: self.stack.drop_last(), ..self }
            } else {
                KeyboardState { flags: 0, ..self }
            };
            once.popped((n - 1) as nat)
        }
    }

    /// `CSI = flags ; mode u`: 2 sets the given bits, 3 clears them, anything
    /// else replaces all flags.
    pub open spec fn changed(self, flags: u8, mode: u16) -> KeyboardState {
        KeyboardState {
            flags: if mode == 2 {
                self.flags | flags
            } else if mode == 3 {
                self.flags & !flags
            } else {
                flags
            },
            ..self
        }
    }
}

impl Modes {
    /// The flag that DEC private mode `n` stands for set or reset.
    #[verifier::opaque]
    pub open spec fn changed(self, n: u16, set: bool) -> Modes {
        Modes {
            cursor_visible: if n == 25 {
                set
            } else {
                self.cursor_visible
            },
            origin_mode: if n == 6 {
                set
            } else {
                self.origin_mode
            },
            autowrap: if n == 7 {
                set
            } else {
                self.autowrap
            },
            screen_reverse: if n == 5 {
                set
            } else {
                self.screen_reverse
            },
            insert_mode: self.insert_mode,
            cursor_shape: self.cursor_shape,
            application_cursor_keys: if n == 1 {
                set
            } else {
                self.application_cursor_keys
            },
            keypad_app: if n == 66 {
                set
            } else {
                self.keypad_app
            },
            backarrow_del: if n == 67 {
                set
            } else {
                self.backarrow_del
            },
            bracketed_paste: if n == 2004 {
                set
            } else {
                self.bracketed_paste
            },
            focus_reporting: if n == 1004 {
                set
            } else {
                self.focus_reporting
            },
            synchronized_output: if n == 2026 {
                set
            } else {
                self.synchronized_output
            },
            in_band_resize: if n == 2048 {
                set
            } else {
                self.in_band_resize
            },
            bulk_output: self.bulk_output,
            mouse_mode: if n == 1000 || n == 1002 || n == 1003 {
                if !set {
                    MouseMode::Off
                } else if n == 1000 {
                    MouseMode::Normal
                } else if n == 1002 {
                    MouseMode::ButtonEvent
                } else {
                    MouseMode::AnyEvent
                }
            } else {
                self.mouse_mode
            },
            mouse_encoding: if n == 1006 || n == 1015 {
                if !set {
                    MouseEncoding::X10
                } else if n == 1006 {
                    MouseEncoding::SGR
                } else {
                    MouseEncoding::Urxvt
                }
            } else {
                self.mouse_encoding
            },
            modify_other_keys: self.modify_other_keys,
        }
    }

    /// The flag that mode `mode` stands for.
    #[verifier::opaque]
    pub open spec fn flag(self, mode: u16) -> Option<bool> {
        if mode == 1 {
            Some(self.application_cursor_keys)
        } else if mode == 4 {
            Some(self.insert_mode)
        } else if mode == 5 {
            Some(self.screen_reverse)
        } else if mode == 6 {
            Some(self.origin_mode)
        } else if mode == 7 {
            Some(self.autowrap)
        } else if mode == 25 {
            Some(self.cursor_visible)
        } else if mode == 66 {
            Some(self.keypad_app)
        } else if mode == 67 {
            Some(self.backarrow_del)
        } else if mode == 1000 {
            Some(self.mouse_mode == MouseMode::Normal)
        } else if mode == 1002 {
            Some(self.mouse_mode == MouseMode::ButtonEvent)
        } else if mode == 1003 {
            Some(self.mouse_mode == MouseMode::AnyEvent)
        } else if mode == 1004 {
            Some(self.focus_reporting)
        } else if mode == 1006 {
            Some(self.mouse_encoding == MouseEncoding::SGR)
        } else if mode == 2004 {
            Some(self.bracketed_paste)
        } else if mode == 2026 {
            Some(self.synchronized_output)
        } else if mode == 2048 {
            Some(self.in_band_resize)
        } else {
            None
        }
    }

    /// The modes with the flag that DEC private mode `n` stands for set or
    /// reset.
    pub fn with_private(self, n: u16, set: bool) -> (r: Modes)
        ensures
            r == self.changed(n, set),
    {
        proof {
            reveal(Modes::changed);
        }
        Modes {
            cursor_visible: if n == 25 {
                set
            } else {
                self.cursor_visible
            },
            origin_mode: if n == 6 {
                set
            } else {
                self.origin_mode
            },
            autowrap: if n == 7 {
                set
            } else {
                self.autowrap
            },
            screen_reverse: if n == 5 {
                set
            } else {
                self.screen_reverse
            },
            insert_mode: self.insert_mode,
            cursor_shape: self.cursor_shape,
            application_cursor_keys: if n == 1 {
                set
            } else {
                self.application_cursor_keys
            },
            keypad_app: if n == 66 {
                set
            } else {
                self.keypad_app
            },
            backarrow_del: if n == 67 {
                set
            } else {
                self.backarrow_del
            },
            bracketed_paste: if n == 2004 {
                set
            } else {
                self.bracketed_paste
            },
            focus_reporting: if n == 1004 {
                set
            } else {
                self.focus_reporting
            },
            synchronized_output: if n == 2026 {
                set
            } else {
                self.synchronized_output
            },
            in_band_resize: if n == 2048 {
                set
            } else {
                self.in_band_resize
            },
            bulk_output: self.bulk_output,
            mouse_mode: if n == 1000 || n == 1002 || n == 1003 {
                if !set {
                    MouseMode::Off
                } else if n == 1000 {
                    MouseMode::Normal
                } else if n == 1002 {
                    MouseMode::ButtonEvent
                } else {
                    MouseMode::AnyEvent
                }
            } else {
                self.mouse_mode
            },
            mouse_encoding: if n == 1006 || n == 1015 {
                if !set {
                    MouseEncoding::X10
                } else if n == 1006 {
                    MouseEncoding::SGR
                } else {
                    MouseEncoding::Urxvt
                }
            } else {
                self.mouse_encoding
            },
            modify_other_keys: self.modify_other_keys,
        }
    }
}

impl ScreenState {
    /// A blank alternate screen shown.
    pub open spec fn alt_shown(self) -> ScreenState {
        ScreenState {
            alt_active: true,
            alt: Seq::new(self.rows as nat, |r: int| blank_line(self.cols)),
            is_blank: Seq::new(self.rows as nat, |r: int| true),
            blank_dirty: Seq::new(self.rows as nat, |r: int| true),
            images: Seq::empty(),
            ..self
        }
    }

    /// The primary screen shown again, no row of it taken to be blank.
    pub open spec fn alt_hidden(self) -> ScreenState {
        ScreenState {
            alt_active: false,
            is_blank: Seq::new(self.rows as nat, |r: int| false),
            blank_dirty: Seq::new(self.rows as nat, |r: int| false),
            images: Seq::empty(),
            ..self
        }
    }
}

impl GridState {
    /// Mode 1049 set: the alternate screen, unless it is shown already.
    pub open spec fn alt_entered(self) -> GridState {
        if self.screen.alt_active {
            self
        } else {
            GridState {
                screen: self.screen.alt_shown(),
                row: 0,
                col: 0,
                alt_row: self.row,
                alt_col: self.col,
                keyboard: self.keyboard.entering_alt(),
                ..self
            }
        }
    }

    /// Mode 1049 reset: the primary screen with its cursor.
    pub open spec fn alt_left(self) -> GridState {
        if self.screen.alt_active {
            GridState {
                screen: self.screen.alt_hidden(),
                row: self.alt_row,
                col: self.alt_col,
                keyboard: self.keyboard.leaving_alt(),
                ..self
            }
        } else {
            self
        }
    }

    /// DEC private mode `n` set or reset.
    pub open spec fn private_mode(self, n: u16, set: bool) -> GridState {
        let s = self.with_modes(self.modes.changed(n, set));
        if n == 3 {
            self.columns_set(
                if set {
                    80
                } else {
                    132
                },
            )
        } else if n == 5 {
            s.all_dirty()
        } else if n == 6 {
            s.at(
                if set {
                    self.margins.top
                } else {
                    0
                },
                if set {
                    self.left_margin()
                } else {
                    0
                },
            )
        } else if n == 69 {
            self.with_margins(
                if set {
                    Margins { horizontal: true, ..self.margins }
                } else {
                    Margins {
                        horizontal: false,
                        left: 0,
                        right: self.screen.cols - 1,
                        ..self.margins
                    }
                },
            )
        } else if n == 1049 {
            if set {
                self.alt_entered()
            } else {
                self.alt_left()
            }
        } else {
            s
        }
    }

    /// The private modes of groups `i` and later set or reset in order.
    pub open spec fn private_modes(self, params: Seq<Seq<u16>>, i: int, set: bool) -> GridState
        decreases params.len() - i,
    {
        if i < 0 || i >= params.len() {
            self
        } else {
            self.private_mode(value_or(params, i, 0), set).private_modes(params, i + 1, set)
        }
    }

    /// ANSI modes set or reset: only IRM (4) is known.
    pub open spec fn ansi_modes(self, params: Seq<Seq<u16>>, set: bool) -> GridState {
        if exists|i: int| 0 <= i < params.len() && #[trigger] value_or(params, i, 0) == 4 {
            self.with_modes(Modes { insert_mode: set, ..self.modes })
        } else {
            self
        }
    }

    /// The value that DECRQM reports of a mode: 1 set, 2 reset, 0 unknown.
    pub open spec fn mode_state(self, mode: u16) -> u8 {
        let known = if mode == 69 {
            Some(self.margins.horizontal)
        } else if mode == 1049 {
            Some(self.screen.alt_active)
        } else {
            self.modes.flag(mode)
        };
        match known {
            None => 0,
            Some(set) => on_off(set),
        }
    }
}

// ---------------------------------------------------------------------------
// Laws
// ---------------------------------------------------------------------------

/// The kitty keyboard state of a screen survives a visit to the other one,
/// whatever is done to the flags and the stack there.
pub proof fn keyboard_is_per_screen(k: KeyboardState, flags: u8, stack: Seq<u8>)
    ensures
        (KeyboardState { flags, stack, ..k.entering_alt() }).leaving_alt().flags == k.flags,
        (KeyboardState { flags, stack, ..k.entering_alt() }).leaving_alt().stack == k.stack,
        (KeyboardState { flags, stack, ..k.entering_alt() }).leaving_alt().flags_alt == flags,
        (KeyboardState { flags, stack, ..k.entering_alt() }).leaving_alt().stack_alt == stack,
{
}

/// A push followed by a pop leaves the kitty keyboard state as it was.
pub proof fn pop_undoes_push(k: KeyboardState, flags: u8)
    ensures
        k.pushed(flags).popped(1) == k,
{
    assert(k.stack.push(k.flags).drop_last() =~= k.stack);
    reveal_with_fuel(KeyboardState::popped, 2);
}

/// The DECRQM value of a mode that is on or off.
pub open spec fn on_off(set: bool) -> u8 {
    if set {
        1
    } else {
        2
    }
}

proof fn keys_flags(m: Modes, set: bool)
    ensures
        m.changed(1, set).flag(1) == Some(set),
        m.changed(5, set).flag(5) == Some(set),
        m.changed(6, set).flag(6) == Some(set),
        m.changed(7, set).flag(7) == Some(set),
{
    reveal(Modes::changed);
    reveal(Modes::flag);
}

proof fn wrapping_flags(m: Modes, set: bool)
    ensures
        m.changed(25, set).flag(25) == Some(set),
        m.changed(66, set).flag(66) == Some(set),
        m.changed(67, set).flag(67) == Some(set),
        m.changed(1000, set).flag(1000) == Some(set),
{
    reveal(Modes::changed);
    reveal(Modes::flag);
}

proof fn pointer_flags(m: Modes, set: bool)
    ensures
        m.changed(1002, set).flag(1002) == Some(set),
        m.changed(1003, set).flag(1003) == Some(set),
        m.changed(1004, set).flag(1004) == Some(set),
        m.changed(1006, set).flag(1006) == Some(set),
{
    reveal(Modes::changed);
    reveal(Modes::flag);
}

proof fn reports_flags(m: Modes, set: bool)
    ensures
        m.changed(2004, set).flag(2004) == Some(set),
        m.changed(2026, set).flag(2026) == Some(set),
        m.changed(2048, set).flag(2048) == Some(set),
{
    reveal(Modes::changed);
    reveal(Modes::flag);
}

proof fn known_flags(m: Modes, mode: u16)
    requires
        m.flag(mode) is Some,
        mode != 4,
    ensures
        mode == 1 || mode == 5 || mode == 6 || mode == 7 || mode == 25 || mode == 66 || mode == 67 || mode == 1000 || mode == 1002 || mode == 1003 || mode == 1004 || mode == 1006 || mode == 2004 || mode == 2026 || mode == 2048,
{
    reveal(Modes::flag);
}

proof fn changed_flag(m: Modes, mode: u16, set: bool)
    requires
        m.flag(mode) is Some,
        mode != 4,
    ensures
        m.changed(mode, set).flag(mode) == Some(set),
{
    known_flags(m, mode);
    keys_flags(m, set);
    wrapping_flags(m, set);
    pointer_flags(m, set);
    reports_flags(m, set);
}

/// Every mode that can be both set and queried reports what was set last.
pub proof fn mode_set_is_reported(s: GridState, mode: u16, set: bool)
    requires
        s.wf(),
        s.mode_state(mode) != 0,
        mode != 4,
    ensures
        s.private_mode(mode, set).mode_state(mode) == on_off(set),
{
    let t = s.private_mode(mode, set);
    if mode == 69 {
        assert(t.margins.horizontal == set);
    } else if mode == 1049 {
        assert(t.screen.alt_active == set);
    } else {
        known_flags(s.modes, mode);
        changed_flag(s.modes, mode, set);
        assert(t.modes == s.modes.changed(mode, set));
    }
}

/// Setting a mode by ANSI parameter 4 is reported too.
pub proof fn insert_mode_is_reported(s: GridState, set: bool)
    ensures
        s.ansi_modes(seq![seq![4u16]], set).mode_state(4) == on_off(set),
{
    let p = seq![seq![4u16]];
    assert(value_or(p, 0, 0) == 4);
    reveal(Modes::flag);
}

// ---------------------------------------------------------------------------
// Executable
// ---------------------------------------------------------------------------

impl Keyboard {
    /// Put the alternate screen's state in use.
    pub fn enter_alt(&mut self)
        ensures
            final(self)@ == old(self)@.entering_alt(),
    {
        let mut stack: Vec<u8> = Vec::new();
        core::mem::swap(&mut stack, &mut self.kitty_stack_alt);
        core::mem::swap(&mut stack, &mut self.kitty_stack);
        self.kitty_stack_primary = stack;
        self.kitty_flags_primary = self.kitty_flags;
        self.kitty_flags = self.kitty_flags_alt;
    }

    /// Put the primary screen's state in use.
    pub fn leave_alt(&mut self)
        ensures
            final(self)@ == old(self)@.leaving_alt(),
    {
        let mut stack: Vec<u8> = Vec::new();
        core::mem::swap(&mut stack, &mut self.kitty_stack_primary);
        core::mem::swap(&mut stack, &mut self.kitty_stack);
        self.kitty_stack_alt = stack;
        self.kitty_flags_alt = self.kitty_flags;
        self.kitty_flags = self.kitty_flags_primary;
    }

    /// Push the flags in use and replace them.
    pub fn push(&mut self, flags: u8)
        ensures
            final(self)@ == old(self)@.pushed(flags),
    {
        self.kitty_stack.push(self.kitty_flags);
        self.kitty_flags = flags;
    }

    /// Pop `n` entries.
    pub fn pop(&mut self, n: usize)
        ensures
            final(self)@ == old(self)@.popped(n as nat),
    {
        let mut i: usize = 0;
        while i < n
            invariant
                i <= n,
                self@.popped((n - i) as nat) == old(self)@.popped(n as nat),
            decreases n - i,
        {
            self.kitty_flags =
            match self.kitty_stack.pop() {
                Some(f) => f,
                None => 0,
            };
            i += 1;
        }
    }

    /// Set, clear or replace flags.
    pub fn change(&mut self, flags: u8, mode: u16)
        ensures
            final(self)@ == old(self)@.changed(flags, mode),
    {
        self.kitty_flags =
        if mode == 2 {
            self.kitty_flags | flags
        } else if mode == 3 {
            self.kitty_flags & !flags
        } else {
            flags
        };
    }
}

impl Screen {
    /// Show a blank alternate screen.
    pub fn show_alt(&mut self)
        requires
            old(self).wf(),
        ensures
            final(self).wf(),
            final(self)@ == old(self)@.alt_shown(),
    {
        proof {
            reveal(ScreenState::filled);
        }
        let rows: usize = self.rows;
        self.cells_alt = repeat_line(&self.blank_row, rows);
        self.row_is_blank = flags(rows, true);
        self.row_blank_dirty = flags(rows, true);
        self.sixel_images = Vec::new();
        self.alt_active = true;
        proof {
            assert(self@.alt =~= old(self)@.alt_shown().alt);
            assert(self@.images =~= Seq::empty());
        }
    }

    /// Show the primary screen.
    pub fn hide_alt(&mut self)
        requires
            old(self).wf(),
        ensures
            final(self).wf(),
            final(self)@ == old(self)@.alt_hidden(),
    {
        proof {
            reveal(ScreenState::filled);
        }
        let rows: usize = self.rows;
        self.row_is_blank = flags(rows, false);
        self.row_blank_dirty = flags(rows, false);
        self.sixel_images = Vec::new();
        self.alt_active = false;
        proof {
            assert(self@.images =~= Seq::empty());
        }
    }
}

impl Grid {
    /// Switch to the alternate screen.
    pub fn enter_alt_screen(&mut self)
        requires
            old(self).wf(),
        ensures
            final(self).wf(),
            final(self)@ == old(self)@.alt_entered(),
    {
        if !self.screen.alt_active {
            self.alt_saved_cursor = self.cursor;
            self.screen.show_alt();
            self.cursor = Cursor { row: 0, col: 0 };
            self.keyboard.enter_alt();
        }
    }

    /// Switch back to the primary screen.
    pub fn leave_alt_screen(&mut self)
        requires
            old(self).wf(),
        ensures
            final(self).wf(),
            final(self)@ == old(self)@.alt_left(),
    {
        if self.screen.alt_active {
            self.cursor = self.alt_saved_cursor;
            self.screen.hide_alt();
            self.keyboard.leave_alt();
        }
    }

    fn set_mode_flags(&mut self, modes: Modes)
        requires
            old(self).wf(),
        ensures
            final(self).wf(),
            final(self)@ == old(self)@.with_modes(modes),
    {
        self.modes = modes;
    }

    /// Set or reset DEC private mode `n`.
    pub fn set_private_mode(&mut self, n: u16, set: bool)
        requires
            old(self).wf(),
        ensures
            final(self).wf(),
            final(self)@ == old(self)@.private_mode(n, set),
    {
        if n == 3 {
            self.set_columns(
                if set {
                    80
                } else {
                    132
                },
            );
        } else if n == 69 {
            self.margins = if set {
                ScrollMargins { horizontal: true, ..self.margins }
            } else {
                ScrollMargins {
                    horizontal: false,
                    left: 0,
                    right: self.screen.cols - 1,
                    ..self.margins
                }
            };
        } else if n == 1049 {
            if set {
                self.enter_alt_screen();
            } else {
                self.leave_alt_screen();
            }
        } else {
            let left: usize = self.left_margin();
            let m = self.modes.with_private(n, set);
            self.set_mode_flags(m);
            if n == 5 {
                self.mark_all_dirty();
            } else if n == 6 {
                self.cursor = if set {
                    Cursor { row: self.margins.top, col: left }
                } else {
                    Cursor { row: 0, col: 0 }
                };
            }
        }
    }

    /// Set or reset the DEC private modes that the parameters name.
    pub fn set_private_modes(&mut self, params: &Vec<Vec<u16>>, set: bool)
        requires
            old(self).wf(),
        ensures
            final(self).wf(),
            final(self)@ == old(self)@.private_modes(groups(params@), 0, set),
    {
        let ghost gs = groups(params@);
        let mut i: usize = 0;
        while i < params.len()
            invariant
                self.wf(),
                i <= params@.len(),
                gs == groups(params@),
                self@.private_modes(gs, i as int, set) == old(self)@.private_modes(gs, 0, set),
            decreases params@.len() - i,
        {
            let n: u16 = param_or(params, i, 0);
            self.set_private_mode(n, set);
            i += 1;
        }
    }

    /// Set or reset the ANSI modes that the parameters name.
    pub fn set_ansi_modes(&mut self, params: &Vec<Vec<u16>>, set: bool)
        requires
            old(self).wf(),
        ensures
            final(self).wf(),
            final(self)@ == old(self)@.ansi_modes(groups(params@), set),
    {
        let ghost gs = groups(params@);
        let mut i: usize = 0;
        while i < params.len()
            invariant
                *self == *old(self),
                self.wf(),
                i <= params@.len(),
                gs == groups(params@),
                forall|k: int| 0 <= k < i ==> #[trigger] value_or(gs, k, 0) != 4,
            decreases params@.len() - i,
        {
            if param_or(params, i, 0) == 4 {
                proof {
                    assert(value_or(gs, i as int, 0) == 4);
                }
                self.set_mode_flags(Modes { insert_mode: set, ..self.modes });
                return ;
            }
            i += 1;
        }
    }

    /// The value that DECRQM reports of a mode.
    pub fn mode_state(&self, mode: u16) -> (r: u8)
        ensures
            r == self@.mode_state(mode),
    {
        proof {
            reveal(Modes::flag);
        }
        let set = match mode {
            1 => self.modes.application_cursor_keys,
            4 => self.modes.insert_mode,
            5 => self.modes.screen_reverse,
            6 => self.modes.origin_mode,
            7 => self.modes.autowrap,
            25 => self.modes.cursor_visible,
            66 => self.modes.keypad_app,
            67 => self.modes.backarrow_del,
            69 => self.margins.horizontal,
            1000 => self.modes.mouse_mode == MouseMode::Normal,
            1002 => self.modes.mouse_mode == MouseMode::ButtonEvent,
            1003 => self.modes.mouse_mode == MouseMode::AnyEvent,
            1006 => self.modes.mouse_encoding == MouseEncoding::SGR,
            1049 => self.screen.alt_active,
            2004 => self.modes.bracketed_paste,
            1004 => self.modes.focus_reporting,
            2026 => self.modes.synchronized_output,
            2048 => self.modes.in_band_resize,
            _ => return 0,
        };
        if set {
            1
        } else {
            2
        }
    }
}

} // verus!
