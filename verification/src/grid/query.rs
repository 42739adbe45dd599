//! Device queries and the replies to them.
use vstd::prelude::*;

use super::state::{max, min, monus, DcsState, GridState, OutboxState};
use super::{Grid, Outbox};
use crate::text::{
    decimal, hex_digit, lit, lossy_text, put_bytes, put_decimal, put_str, utf8_lossy, views,
};
use vstd::utf8::*;

verus! {

impl GridState {
    /// The row that cursor reports give: in origin mode it counts from the top
    /// margin.
    pub open spec fn reported_row(self) -> int {
        if self.modes.origin_mode {
            min(
                monus(self.row, self.margins.top),
                monus(self.margins.bottom, self.margins.top),
            ) + 1
        } else {
            self.row + 1
        }
    }

    /// CPR: the cursor position.
    pub open spec fn cursor_report(self) -> Seq<u8> {
        lit("\x1b[") + decimal(self.reported_row() as nat) + lit(";") + decimal(
            (self.col + 1) as nat,
        ) + lit("R")
    }

    /// DECXCPR: the cursor position and page 1.
    pub open spec fn extended_cursor_report(self) -> Seq<u8> {
        lit("\x1b[?") + decimal(self.reported_row() as nat) + lit(";") + decimal(
            (self.col + 1) as nat,
        ) + lit(";1R")
    }

    /// DECRPM for a DEC private mode.
    pub open spec fn private_mode_report(self, mode: u16) -> Seq<u8> {
        lit("\x1b[?") + decimal(mode as nat) + lit(";") + decimal(self.mode_state(mode) as nat)
            + lit("$y")
    }

    /// DECRPM for an ANSI mode.
    pub open spec fn ansi_mode_report(self, mode: u16) -> Seq<u8> {
        lit("\x1b[") + decimal(mode as nat) + lit(";") + decimal(self.mode_state(mode) as nat)
            + lit("$y")
    }

    /// The size of the text area in characters.
    pub open spec fn size_report(self) -> Seq<u8> {
        lit("\x1b[4;") + decimal(self.screen.rows as nat) + lit(";") + decimal(
            self.screen.cols as nat,
        ) + lit("t")
    }

    /// The kitty keyboard flags in use.
    pub open spec fn keyboard_report(self) -> Seq<u8> {
        lit("\x1b[?") + decimal(self.keyboard.flags as nat) + lit("u")
    }

    /// DECREPTPARM.
    pub open spec fn params_report(solicited: bool) -> Seq<u8> {
        lit("\x1b[") + decimal(
            if solicited {
                3
            } else {
                2
            },
        ) + lit(";1;1;112;112;1;0x")
    }

    /// The answer to DECRQSS: the request, echoed.
    pub open spec fn status_report(self) -> Seq<u8> {
        lit("\x1bP1$r") + encode_utf8(lossy_text(self.dcs.buf)) + lit("\x1b\\")
    }
}

/// One channel of a colour at 16 bits: four hexadecimal digits.
pub open spec fn hex4(v: u8) -> Seq<char> {
    seq![
        hex_digit(v as int / 16) as char,
        hex_digit(v as int % 16) as char,
        hex_digit(v as int / 16) as char,
        hex_digit(v as int % 16) as char,
    ]
}

/// A colour as replies to colour queries give it: `rgb:rrrr/gggg/bbbb`.
pub open spec fn color_text(r: u8, g: u8, b: u8) -> Seq<char> {
    "rgb:"@ + hex4(r) + "/"@ + hex4(g) + "/"@ + hex4(b)
}

fn put_hex4(s: &mut String, v: u8)
    ensures
        final(s)@ == old(s)@ + hex4(v),
{
    let hi: u8 = v / 16;
    let lo: u8 = v % 16;
    let a: u8 = if hi < 10 {
        48 + hi
    } else {
        87 + hi
    };
    let b: u8 = if lo < 10 {
        48 + lo
    } else {
        87 + lo
    };
    let ghost before = s@;
    s.push(a as char);
    s.push(b as char);
    s.push(a as char);
    s.push(b as char);
    proof {
        assert(s@ =~= before + hex4(v));
    }
}

impl Outbox {
    /// Queue a reply.
    pub fn push(&mut self, bytes: Vec<u8>)
        ensures
            final(self)@ == (OutboxState {
                responses: old(self)@.responses.push(bytes@),
                ..old(self)@
            }),
    {
        let ghost before = self.responses@;
        self.responses.push(bytes);
        proof {
            assert(views(self.responses@) =~= views(before).push(bytes@));
        }
    }

    /// Take all queued replies.
    pub fn take_responses(&mut self) -> (r: Vec<Vec<u8>>)
        ensures
            views(r@) == old(self)@.responses,
            final(self)@ == (OutboxState { responses: Seq::empty(), ..old(self)@ }),
    {
        let mut r: Vec<Vec<u8>> = Vec::new();
        core::mem::swap(&mut r, &mut self.responses);
        proof {
            assert(views(self.responses@) =~= Seq::empty());
        }
        r
    }
}

impl Grid {
    /// Queue a reply to the application.
    pub fn respond(&mut self, data: Vec<u8>)
        requires
            old(self).wf(),
        ensures
            final(self).wf(),
            final(self)@ == old(self)@.replying(data@),
    {
        self.outbox.push(data);
    }

    /// Queue a fixed reply.
    pub fn respond_str(&mut self, data: &str)
        requires
            old(self).wf(),
        ensures
            final(self).wf(),
            final(self)@ == old(self)@.replying(lit(data)),
    {
        let mut out: Vec<u8> = Vec::new();
        put_str(&mut out, data);
        proof {
            assert(out@ =~= lit(data));
        }
        self.respond(out);
    }

    /// The row that cursor reports give.
    pub fn reported_cursor_row(&self) -> (r: usize)
        requires
            self.wf(),
        ensures
            r == self@.reported_row(),
    {
        let row: usize = self.cursor.row;
        let top: usize = self.margins.top;
        if self.modes.origin_mode {
            let up: usize = if row > top {
                row - top
            } else {
                0
            };
            let span: usize = self.margins.bottom - top;
            1 + if up < span {
                up
            } else {
                span
            }
        } else {
            row + 1
        }
    }

    /// Reply to CPR, or to DECXCPR where `extended`.
    pub fn report_cursor(&mut self, extended: bool)
        requires
            old(self).wf(),
        ensures
            final(self).wf(),
            final(self)@ == old(self)@.replying(
                if extended {
                    old(self)@.extended_cursor_report()
                } else {
                    old(self)@.cursor_report()
                },
            ),
    {
        let row: usize = self.reported_cursor_row();
        let col: usize = self.cursor.col + 1;
        let mut out: Vec<u8> = Vec::new();
        if extended {
            put_str(&mut out, "\x1b[?");
        } else {
            put_str(&mut out, "\x1b[");
        }
        put_decimal(&mut out, row as u64);
        put_str(&mut out, ";");
        put_decimal(&mut out, col as u64);
        if extended {
            put_str(&mut out, ";1R");
        } else {
            put_str(&mut out, "R");
        }
        proof {
            assert(extended ==> out@ =~= self@.extended_cursor_report());
            assert(!extended ==> out@ =~= self@.cursor_report());
        }
        self.respond(out);
    }

    /// Reply to DECRQM.
    pub fn report_mode(&mut self, mode: u16, private: bool)
        requires
            old(self).wf(),
        ensures
            final(self).wf(),
            final(self)@ == old(self)@.replying(
                if private {
                    old(self)@.private_mode_report(mode)
                } else {
                    old(self)@.ansi_mode_report(mode)
                },
            ),
    {
        let state: u8 = self.mode_state(mode);
        let mut out: Vec<u8> = Vec::new();
        if private {
            put_str(&mut out, "\x1b[?");
        } else {
            put_str(&mut out, "\x1b[");
        }
        put_decimal(&mut out, mode as u64);
        put_str(&mut out, ";");
        put_decimal(&mut out, state as u64);
        put_str(&mut out, "$y");
        proof {
            assert(private ==> out@ =~= self@.private_mode_report(mode));
            assert(!private ==> out@ =~= self@.ansi_mode_report(mode));
        }
        self.respond(out);
    }

    /// Reply to DECREQTPARM.
    pub fn report_params(&mut self, solicited: bool)
        requires
            old(self).wf(),
        ensures
            final(self).wf(),
            final(self)@ == old(self)@.replying(GridState::params_report(solicited)),
    {
        let mut out: Vec<u8> = Vec::new();
        put_str(&mut out, "\x1b[");
        put_decimal(
            &mut out,
            if solicited {
                3
            } else {
                2
            },
        );
        put_str(&mut out, ";1;1;112;112;1;0x");
        proof {
            assert(out@ =~= GridState::params_report(solicited));
        }
        self.respond(out);
    }

    /// Reply with the kitty keyboard flags.
    pub fn report_keyboard(&mut self)
        requires
            old(self).wf(),
        ensures
            final(self).wf(),
            final(self)@ == old(self)@.replying(old(self)@.keyboard_report()),
    {
        let mut out: Vec<u8> = Vec::new();
        put_str(&mut out, "\x1b[?");
        put_decimal(&mut out, self.keyboard.kitty_flags as u64);
        put_str(&mut out, "u");
        proof {
            assert(out@ =~= self@.keyboard_report());
        }
        self.respond(out);
    }

    /// The terminal has gained the focus: tell the application if it asked.
    pub fn focus_in(&mut self)
        requires
            old(self).wf(),
        ensures
            final(self).wf(),
            final(self)@ == if old(self)@.modes.focus_reporting {
                old(self)@.replying(lit("\x1b[I"))
            } else {
                old(self)@
            },
    {
        if self.modes.focus_reporting {
            self.respond_str("\x1b[I");
        }
    }

    /// The terminal has lost the focus: tell the application if it asked.
    pub fn focus_out(&mut self)
        requires
            old(self).wf(),
        ensures
            final(self).wf(),
            final(self)@ == if old(self)@.modes.focus_reporting {
                old(self)@.replying(lit("\x1b[O"))
            } else {
                old(self)@
            },
    {
        if self.modes.focus_reporting {
            self.respond_str("\x1b[O");
        }
    }

    /// Report the size of the text area, if the application asked for it
    /// (mode 2048).
    pub fn resize_report(&mut self)
        requires
            old(self).wf(),
        ensures
            final(self).wf(),
            final(self)@ == if old(self)@.modes.in_band_resize {
                old(self)@.replying(old(self)@.size_report())
            } else {
                old(self)@
            },
    {
        if self.modes.in_band_resize {
            let mut out: Vec<u8> = Vec::new();
            put_str(&mut out, "\x1b[4;");
            put_decimal(&mut out, self.screen.rows as u64);
            put_str(&mut out, ";");
            put_decimal(&mut out, self.screen.cols as u64);
            put_str(&mut out, "t");
            proof {
                assert(out@ =~= self@.size_report());
            }
            self.respond(out);
        }
    }

    /// Answer a DECRQSS request.
    pub fn answer_decrqss(&mut self)
        requires
            old(self).wf(),
        ensures
            final(self).wf(),
            final(self)@ == old(self)@.replying(old(self)@.status_report()),
    {
        let query = utf8_lossy(self.dcs.dcs_buf.as_slice());
        let mut out: Vec<u8> = Vec::new();
        put_str(&mut out, "\x1bP1$r");
        put_str(&mut out, query.as_str());
        put_str(&mut out, "\x1b\\");
        proof {
            assert(out@ =~= self@.status_report());
        }
        self.respond(out);
    }

    /// A colour in the form that replies to colour queries use.
    pub fn color_spec(r: u8, g: u8, b: u8) -> (s: String)
        ensures
            s@ == color_text(r, g, b),
    {
        let mut s = String::new();
        s.append("rgb:");
        put_hex4(&mut s, r);
        s.append("/");
        put_hex4(&mut s, g);
        s.append("/");
        put_hex4(&mut s, b);
        proof {
            assert(s@ =~= color_text(r, g, b));
        }
        s
    }

    /// Take all queued replies, leaving none.
    pub fn take_responses(&mut self) -> (r: Vec<Vec<u8>>)
        requires
            old(self).wf(),
        ensures
            final(self).wf(),
            views(r@) == old(self)@.outbox.responses,
            final(self)@ == old(self)@.with_outbox(
                (OutboxState { responses: Seq::empty(), ..old(self)@.outbox }),
            ),
    {
        self.outbox.take_responses()
    }

    /// Take the pending bell.
    pub fn take_bell(&mut self) -> (r: bool)
        requires
            old(self).wf(),
        ensures
            final(self).wf(),
            r == old(self)@.outbox.bell,
            final(self)@ == old(self)@.with_outbox(
                (OutboxState { bell: false, ..old(self)@.outbox }),
            ),
    {
        let r = self.outbox.bell_pending;
        self.outbox.bell_pending = false;
        r
    }

    /// Take the pending notification.
    pub fn take_notification(&mut self) -> (r: Option<String>)
        requires
            old(self).wf(),
        ensures
            final(self).wf(),
            super::cell::text_view(r) == old(self)@.outbox.notification,
            final(self)@ == old(self)@.with_outbox(
                (OutboxState { notification: None, ..old(self)@.outbox }),
            ),
    {
        self.outbox.notification.take()
    }
}

} // verus!
