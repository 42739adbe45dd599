//! Control sequences: what they mean, and carrying them out.
use vstd::prelude::*;

use super::attrs::{Attrs, Color, PROTECTED};
use super::cell::Cursor;
use super::erase::{at_least, at_most, below};
use super::params::{field_or, group_or, groups, param_or, value_or};
use super::state::{max, min, monus, GridState, Margins, Modes, Pen};
use super::{Grid, ScrollMargins};
use crate::text::{coded_char, lit};

verus! {

/// The private marker and intermediate bytes of a control sequence.
#[derive(Debug, Clone, Copy, PartialEq, Eq, Structural)]
pub enum Prefix {
    Plain,
    /// `?`
    Question,
    /// `>`
    Greater,
    /// `<`
    Less,
    /// `=`
    Equals,
    /// `$`
    Dollar,
    /// `?` and `$`
    QuestionDollar,
    /// `!`
    Bang,
    /// `"`
    Quote,
    /// `'`
    Apostrophe,
    /// A space.
    Space,
    Other,
}

/// The prefix that the collected bytes make.
pub open spec fn prefix_of(bytes: Seq<u8>) -> Prefix {
    if bytes.len() == 0 {
        Prefix::Plain
    } else if bytes.len() == 1 {
        match bytes[0] {
            0x3f => Prefix::Question,
            0x3e => Prefix::Greater,
            0x3c => Prefix::Less,
            0x3d => Prefix::Equals,
            0x24 => Prefix::Dollar,
            0x21 => Prefix::Bang,
            0x22 => Prefix::Quote,
            0x27 => Prefix::Apostrophe,
            0x20 => Prefix::Space,
            _ => Prefix::Other,
        }
    } else if bytes.len() == 2 && bytes[0] == 0x3f && bytes[1] == 0x24 {
        Prefix::QuestionDollar
    } else {
        Prefix::Other
    }
}

fn read_prefix(bytes: &Vec<u8>) -> (r: Prefix)
    ensures
        r == prefix_of(bytes@),
{
    if bytes.len() == 0 {
        Prefix::Plain
    } else if bytes.len() == 1 {
        match bytes[0] {
            0x3f => Prefix::Question,
            0x3e => Prefix::Greater,
            0x3c => Prefix::Less,
            0x3d => Prefix::Equals,
            0x24 => Prefix::Dollar,
            0x21 => Prefix::Bang,
            0x22 => Prefix::Quote,
            0x27 => Prefix::Apostrophe,
            0x20 => Prefix::Space,
            _ => Prefix::Other,
        }
    } else if bytes.len() == 2 && bytes[0] == 0x3f && bytes[1] == 0x24 {
        Prefix::QuestionDollar
    } else {
        Prefix::Other
    }
}

/// Moves of the cursor, and tab stops.
#[derive(Debug, Clone, Copy, PartialEq, Eq, Structural)]
pub enum Move {
    Up(u16),
    Down(u16),
    Forward(u16),
    Back(u16),
    NextLine(u16),
    PrevLine(u16),
    Column(u16),
    Position(u16, u16),
    Row(u16),
    TabForward(u16),
    TabBack(u16),
    ClearTabs(u16),
    Save,
    Restore,
}

/// Edits of the screen.
#[derive(Debug, Clone, Copy, PartialEq, Eq, Structural)]
pub enum Edit {
    /// ED; DECSED where `true`.
    EraseDisplay(u16, bool),
    /// EL; DECSEL where `true`.
    EraseLine(u16, bool),
    InsertChars(u16),
    DeleteChars(u16),
    EraseChars(u16),
    InsertLines(u16),
    DeleteLines(u16),
    ScrollDown(u16),
    Repeat(u16),
    InsertColumns(u16),
    DeleteColumns(u16),
    /// DECFRA: character, top, left, bottom, right.
    FillRect(u16, u16, u16, u16, u16),
    /// DECERA: top, left, bottom, right; DECSERA where `true`.
    EraseRect(u16, u16, u16, u16, bool),
}

/// Changes of modes, margins and attributes.
#[derive(Debug, Clone, Copy, PartialEq, Eq, Structural)]
pub enum Setting {
    /// DECSTBM.
    Region(u16, u16),
    /// DECSLRM.
    Sides(u16, u16),
    AnsiModes(bool),
    PrivateModes(bool),
    Sgr,
    /// DECSCA.
    Protect(bool),
    CursorShape(u8),
    /// DECSCPP.
    Columns(u16),
    SoftReset,
    ModifyOtherKeys(u8),
    PushKeys(u8),
    PopKeys(u16),
    ChangeKeys(u8, u16),
}

/// Questions that the terminal answers.
#[derive(Debug, Clone, Copy, PartialEq, Eq, Structural)]
pub enum Query {
    /// DA1.
    Attributes,
    /// DA2.
    SecondaryAttributes,
    Status,
    /// CPR; DECXCPR where `true`.
    CursorReport(bool),
    /// DECREQTPARM.
    Params(bool),
    /// DECRQM; for a DEC private mode where `true`.
    Mode(u16, bool),
    Keyboard,
}

/// What a control sequence asks for.
#[derive(Debug, Clone, Copy, PartialEq, Eq, Structural)]
pub enum Csi {
    Move(Move),
    Edit(Edit),
    Setting(Setting),
    Query(Query),
    Nothing,
}

/// The larger of a parameter and 1.
pub open spec fn count(p: u16) -> u16 {
    if p == 0 {
        1
    } else {
        p
    }
}

fn counted(p: u16) -> (r: u16)
    ensures
        r == count(p),
{
    if p == 0 {
        1
    } else {
        p
    }
}

// ---------------------------------------------------------------------------
// Meaning
// ---------------------------------------------------------------------------

/// Sequences that mean the same under any prefix, but for selective erasure.
pub open spec fn common_csi(
    prefix: Prefix,
    params: Seq<Seq<u16>>,
    final_byte: u8,
) -> Option<Csi> {
    let p0 = value_or(params, 0, 0);
    let p1 = value_or(params, 1, 0);
    let n = count(p0);
    match final_byte {
        0x41 => Some(Csi::Move(Move::Up(n))),
        0x42 => Some(Csi::Move(Move::Down(n))),
        0x43 => Some(Csi::Move(Move::Forward(n))),
        0x44 => Some(Csi::Move(Move::Back(n))),
        0x45 => Some(Csi::Move(Move::NextLine(n))),
        0x46 => Some(Csi::Move(Move::PrevLine(n))),
        0x47 => Some(Csi::Move(Move::Column(p0))),
        0x48 => Some(Csi::Move(Move::Position(p0, p1))),
        0x66 => Some(Csi::Move(Move::Position(p0, p1))),
        0x64 => Some(Csi::Move(Move::Row(p0))),
        0x49 => Some(Csi::Move(Move::TabForward(n))),
        0x5a => Some(Csi::Move(Move::TabBack(n))),
        0x67 => Some(Csi::Move(Move::ClearTabs(p0))),
        0x4a => Some(Csi::Edit(Edit::EraseDisplay(p0, prefix == Prefix::Question))),
        0x4b => Some(Csi::Edit(Edit::EraseLine(p0, prefix == Prefix::Question))),
        0x40 => Some(Csi::Edit(Edit::InsertChars(n))),
        0x4c => Some(Csi::Edit(Edit::InsertLines(n))),
        0x4d => Some(Csi::Edit(Edit::DeleteLines(n))),
        0x50 => Some(Csi::Edit(Edit::DeleteChars(n))),
        0x62 => Some(Csi::Edit(Edit::Repeat(n))),
        0x54 => Some(Csi::Edit(Edit::ScrollDown(n))),
        0x58 => Some(Csi::Edit(Edit::EraseChars(n))),
        0x72 => Some(Csi::Setting(Setting::Region(p0, p1))),
        _ => None,
    }
}

/// Sequences without a prefix.
pub open spec fn plain_csi(params: Seq<Seq<u16>>, final_byte: u8) -> Csi {
    let p0 = value_or(params, 0, 0);
    let p1 = value_or(params, 1, 0);
    match final_byte {
        0x6d => Csi::Setting(Setting::Sgr),
        0x73 => if p0 != 0 && params.len() >= 2 {
            Csi::Setting(Setting::Sides(p0, p1))
        } else {
            Csi::Move(Move::Save)
        },
        0x37 => Csi::Move(Move::Save),
        0x38 => Csi::Move(Move::Restore),
        0x75 => Csi::Move(Move::Restore),
        0x68 => Csi::Setting(Setting::AnsiModes(true)),
        0x6c => Csi::Setting(Setting::AnsiModes(false)),
        0x63 => if p0 == 0 {
            Csi::Query(Query::Attributes)
        } else {
            Csi::Nothing
        },
        0x6e => if p0 == 5 {
            Csi::Query(Query::Status)
        } else if p0 == 6 {
            Csi::Query(Query::CursorReport(false))
        } else {
            Csi::Nothing
        },
        0x78 => Csi::Query(Query::Params(p0 == 1)),
        _ => Csi::Nothing,
    }
}

/// Sequences with the prefix `?`.
pub open spec fn question_csi(params: Seq<Seq<u16>>, final_byte: u8) -> Csi {
    match final_byte {
        0x68 => Csi::Setting(Setting::PrivateModes(true)),
        0x6c => Csi::Setting(Setting::PrivateModes(false)),
        0x6e => if value_or(params, 0, 0) == 6 {
            Csi::Query(Query::CursorReport(true))
        } else {
            Csi::Nothing
        },
        0x75 => Csi::Query(Query::Keyboard),
        _ => Csi::Nothing,
    }
}

/// Sequences with the prefix `>`.
pub open spec fn greater_csi(params: Seq<Seq<u16>>, final_byte: u8) -> Csi {
    match final_byte {
        0x63 => if value_or(params, 0, 0) == 0 {
            Csi::Query(Query::SecondaryAttributes)
        } else {
            Csi::Nothing
        },
        0x75 => Csi::Setting(Setting::PushKeys(value_or(params, 0, 0) as u8)),
        0x6d => if value_or(params, 0, 0) == 4 {
            Csi::Setting(
                Setting::ModifyOtherKeys(
                    if group_or(params, 1, 0) < 2 {
                        group_or(params, 1, 0) as u8
                    } else {
                        2
                    },
                ),
            )
        } else {
            Csi::Nothing
        },
        _ => Csi::Nothing,
    }
}

/// Sequences with the intermediate `$`.
pub open spec fn dollar_csi(params: Seq<Seq<u16>>, final_byte: u8) -> Csi {
    match final_byte {
        0x70 => Csi::Query(Query::Mode(value_or(params, 0, 0), false)),
        0x7c => if value_or(params, 0, 0) == 80 || value_or(params, 0, 0) == 132 {
            Csi::Setting(Setting::Columns(value_or(params, 0, 0)))
        } else {
            Csi::Nothing
        },
        0x78 => Csi::Edit(
            Edit::FillRect(
                group_or(params, 0, 0x20),
                group_or(params, 1, 1),
                group_or(params, 2, 1),
                group_or(params, 3, 1),
                group_or(params, 4, 1),
            ),
        ),
        0x7a => Csi::Edit(
            Edit::EraseRect(
                group_or(params, 0, 1),
                group_or(params, 1, 1),
                group_or(params, 2, 1),
                group_or(params, 3, 1),
                false,
            ),
        ),
        0x7b => Csi::Edit(
            Edit::EraseRect(
                group_or(params, 0, 1),
                group_or(params, 1, 1),
                group_or(params, 2, 1),
                group_or(params, 3, 1),
                true,
            ),
        ),
        _ => Csi::Nothing,
    }
}

/// Sequences with any other prefix.
pub open spec fn other_csi(prefix: Prefix, params: Seq<Seq<u16>>, final_byte: u8) -> Csi {
    match prefix {
        Prefix::Less => if final_byte == 0x75 {
            Csi::Setting(Setting::PopKeys(count(value_or(params, 0, 1))))
        } else {
            Csi::Nothing
        },
        Prefix::Equals => if final_byte == 0x75 {
            Csi::Setting(
                Setting::ChangeKeys(group_or(params, 0, 0) as u8, group_or(params, 1, 1)),
            )
        } else {
            Csi::Nothing
        },
        Prefix::QuestionDollar => if final_byte == 0x70 {
            Csi::Query(Query::Mode(value_or(params, 0, 0), true))
        } else {
            Csi::Nothing
        },
        Prefix::Bang => if final_byte == 0x70 {
            Csi::Setting(Setting::SoftReset)
        } else {
            Csi::Nothing
        },
        Prefix::Quote => if final_byte == 0x71 {
            Csi::Setting(Setting::Protect(value_or(params, 0, 0) == 2))
        } else {
            Csi::Nothing
        },
        Prefix::Apostrophe => if final_byte == 0x7d {
            Csi::Edit(Edit::InsertColumns(count(value_or(params, 0, 1))))
        } else if final_byte == 0x7e {
            Csi::Edit(Edit::DeleteColumns(count(value_or(params, 0, 1))))
        } else {
            Csi::Nothing
        },
        Prefix::Space => if final_byte == 0x71 {
            Csi::Setting(
                Setting::CursorShape(
                    if (value_or(params, 0, 0) as u8) < 6 {
                        value_or(params, 0, 0) as u8
                    } else {
                        6
                    },
                ),
            )
        } else {
            Csi::Nothing
        },
        _ => Csi::Nothing,
    }
}

/// What a control sequence asks for.
pub open spec fn csi_of(params: Seq<Seq<u16>>, intermediates: Seq<u8>, final_byte: u8) -> Csi {
    let prefix = prefix_of(intermediates);
    match common_csi(prefix, params, final_byte) {
        Some(c) => c,
        None => match prefix {
            Prefix::Plain => plain_csi(params, final_byte),
            Prefix::Question => question_csi(params, final_byte),
            Prefix::Greater => greater_csi(params, final_byte),
            Prefix::Dollar => dollar_csi(params, final_byte),
            _ => other_csi(prefix, params, final_byte),
        },
    }
}

impl GridState {
    pub open spec fn moved(self, m: Move) -> GridState {
        match m {
            Move::Up(n) => self.cursor_up(n as int),
            Move::Down(n) => self.cursor_down(n as int),
            Move::Forward(n) => self.cursor_forward(n as int),
            Move::Back(n) => self.cursor_back(n as int),
            Move::NextLine(n) => self.next_line(n as int),
            Move::PrevLine(n) => self.prev_line(n as int),
            Move::Column(p) => self.at(self.row, self.target_col(p as int)),
            Move::Position(p, q) => self.at(
                self.target_row(p as int),
                self.target_col(q as int),
            ),
            Move::Row(p) => self.at(min(monus(p as int, 1), self.screen.rows - 1), self.col),
            Move::TabForward(n) => self.tabbed_forward(n as nat),
            Move::TabBack(n) => self.tabbed_back(n as nat),
            Move::ClearTabs(p) => self.stops_cleared(p as int),
            Move::Save => self.cursor_saved(),
            Move::Restore => self.cursor_restored(),
        }
    }

    pub open spec fn edited(self, e: Edit) -> GridState {
        match e {
            Edit::EraseDisplay(p, sel) => self.display_erased(p as int, sel),
            Edit::EraseLine(p, sel) => self.line_erased(p as int, sel),
            Edit::InsertChars(n) => self.chars_inserted(n as int),
            Edit::DeleteChars(n) => self.chars_deleted(n as int),
            Edit::EraseChars(n) => self.chars_erased(n as int),
            Edit::InsertLines(n) => self.lines_inserted(n as int),
            Edit::DeleteLines(n) => self.lines_deleted(n as int),
            Edit::ScrollDown(n) => self.scrolled_down(self.margins.top, n as int),
            Edit::Repeat(n) => match self.last_char {
                Some(c) => self.repeated(c, n as nat),
                None => self,
            },
            Edit::InsertColumns(n) => self.columns_inserted(n as int),
            Edit::DeleteColumns(n) => self.columns_deleted(n as int),
            Edit::FillRect(ch, t, l, b, r) => self.rect_filled(
                t as int,
                l as int,
                b as int,
                r as int,
                coded_char(ch),
                false,
            ),
            Edit::EraseRect(t, l, b, r, sel) => self.with_pen(Pen::plain()).rect_filled(
                t as int,
                l as int,
                b as int,
                r as int,
                ' ',
                sel,
            ).with_pen(self.pen),
        }
    }

    /// DECSTBM: the scroll region, where it has at least two rows; full width
    /// and home cursor in any case.
    pub open spec fn region_set(self, p0: int, p1: int) -> GridState {
        let top = monus(p0, 1);
        let bot = if p1 == 0 {
            self.screen.rows - 1
        } else {
            p1 - 1
        };
        let valid = top < bot && bot < self.screen.rows;
        self.with_margins(
            Margins {
                top: if valid {
                    top
                } else {
                    self.margins.top
                },
                bottom: if valid {
                    bot
                } else {
                    self.margins.bottom
                },
                left: 0,
                right: self.screen.cols - 1,
                horizontal: self.margins.horizontal,
            },
        ).at(0, 0)
    }

    /// DECSLRM: the left and right margins while DECLRMM is set, full width
    /// otherwise; the full height, and the cursor at the top left.
    pub open spec fn sides_set(self, p0: int, p1: int) -> GridState {
        let last = self.screen.cols - 1;
        let left = if self.margins.horizontal {
            min(monus(p0, 1), last)
        } else {
            0
        };
        let right = if self.margins.horizontal {
            max(min(monus(p1, 1), last), left)
        } else {
            last
        };
        self.with_margins(
            Margins {
                top: 0,
                bottom: self.screen.rows - 1,
                left,
                right,
                horizontal: self.margins.horizontal,
            },
        ).at(0, left)
    }

    pub open spec fn set(self, s: Setting, params: Seq<Seq<u16>>) -> GridState {
        match s {
            Setting::Region(p, q) => self.region_set(p as int, q as int),
            Setting::Sides(p, q) => self.sides_set(p as int, q as int),
            Setting::AnsiModes(on) => self.ansi_modes(params, on),
            Setting::PrivateModes(on) => self.private_modes(params, 0, on),
            Setting::Sgr => self.with_pen(self.pen.styled(params, 0)),
            Setting::Protect(on) => self.with_pen(self.pen.with(PROTECTED, on)),
            Setting::CursorShape(n) => self.with_modes(Modes { cursor_shape: n, ..self.modes }),
            Setting::Columns(n) => self.columns_set(n as int),
            Setting::SoftReset => self.soft_reset(),
            Setting::ModifyOtherKeys(n) => self.with_modes(
                Modes { modify_other_keys: n, ..self.modes },
            ),
            Setting::PushKeys(f) => GridState { keyboard: self.keyboard.pushed(f), ..self },
            Setting::PopKeys(n) => GridState { keyboard: self.keyboard.popped(n as nat), ..self },
            Setting::ChangeKeys(f, m) => GridState {
                keyboard: self.keyboard.changed(f, m),
                ..self
            },
        }
    }

    pub open spec fn answer(self, q: Query) -> Seq<u8> {
        match q {
            Query::Attributes => lit("\x1b[?62;22c"),
            Query::SecondaryAttributes => lit("\x1b[>1;20;0c"),
            Query::Status => lit("\x1b[0n"),
            Query::CursorReport(extended) => if extended {
                self.extended_cursor_report()
            } else {
                self.cursor_report()
            },
            Query::Params(solicited) => GridState::params_report(solicited),
            Query::Mode(mode, private) => if private {
                self.private_mode_report(mode)
            } else {
                self.ansi_mode_report(mode)
            },
            Query::Keyboard => self.keyboard_report(),
        }
    }

    /// The control sequence carried out.
    #[verifier::opaque]
    pub open spec fn csi(
        self,
        params: Seq<Seq<u16>>,
        intermediates: Seq<u8>,
        final_byte: u8,
    ) -> GridState {
        match csi_of(params, intermediates, final_byte) {
            Csi::Move(m) => self.moved(m),
            Csi::Edit(e) => self.edited(e),
            Csi::Setting(s) => self.set(s, params),
            Csi::Query(q) => self.replying(self.answer(q)),
            Csi::Nothing => self,
        }
    }
}

// ---------------------------------------------------------------------------
// Executable
// ---------------------------------------------------------------------------

fn read_common(prefix: Prefix, params: &Vec<Vec<u16>>, final_byte: u8) -> (r: Option<Csi>)
    ensures
        r == common_csi(prefix, groups(params@), final_byte),
{
    let p0: u16 = param_or(params, 0, 0);
    let p1: u16 = param_or(params, 1, 0);
    let n: u16 = counted(p0);
    match final_byte {
        0x41 => Some(Csi::Move(Move::Up(n))),
        0x42 => Some(Csi::Move(Move::Down(n))),
        0x43 => Some(Csi::Move(Move::Forward(n))),
        0x44 => Some(Csi::Move(Move::Back(n))),
        0x45 => Some(Csi::Move(Move::NextLine(n))),
        0x46 => Some(Csi::Move(Move::PrevLine(n))),
        0x47 => Some(Csi::Move(Move::Column(p0))),
        0x48 => Some(Csi::Move(Move::Position(p0, p1))),
        0x66 => Some(Csi::Move(Move::Position(p0, p1))),
        0x64 => Some(Csi::Move(Move::Row(p0))),
        0x49 => Some(Csi::Move(Move::TabForward(n))),
        0x5a => Some(Csi::Move(Move::TabBack(n))),
        0x67 => Some(Csi::Move(Move::ClearTabs(p0))),
        0x4a => Some(Csi::Edit(Edit::EraseDisplay(p0, prefix == Prefix::Question))),
        0x4b => Some(Csi::Edit(Edit::EraseLine(p0, prefix == Prefix::Question))),
        0x40 => Some(Csi::Edit(Edit::InsertChars(n))),
        0x4c => Some(Csi::Edit(Edit::InsertLines(n))),
        0x4d => Some(Csi::Edit(Edit::DeleteLines(n))),
        0x50 => Some(Csi::Edit(Edit::DeleteChars(n))),
        0x62 => Some(Csi::Edit(Edit::Repeat(n))),
        0x54 => Some(Csi::Edit(Edit::ScrollDown(n))),
        0x58 => Some(Csi::Edit(Edit::EraseChars(n))),
        0x72 => Some(Csi::Setting(Setting::Region(p0, p1))),
        _ => None,
    }
}

fn read_plain(params: &Vec<Vec<u16>>, final_byte: u8) -> (r: Csi)
    ensures
        r == plain_csi(groups(params@), final_byte),
{
    let p0: u16 = param_or(params, 0, 0);
    let p1: u16 = param_or(params, 1, 0);
    match final_byte {
        0x6d => Csi::Setting(Setting::Sgr),
        0x73 => if p0 != 0 && params.len() >= 2 {
            Csi::Setting(Setting::Sides(p0, p1))
        } else {
            Csi::Move(Move::Save)
        },
        0x37 => Csi::Move(Move::Save),
        0x38 => Csi::Move(Move::Restore),
        0x75 => Csi::Move(Move::Restore),
        0x68 => Csi::Setting(Setting::AnsiModes(true)),
        0x6c => Csi::Setting(Setting::AnsiModes(false)),
        0x63 => if p0 == 0 {
            Csi::Query(Query::Attributes)
        } else {
            Csi::Nothing
        },
        0x6e => if p0 == 5 {
            Csi::Query(Query::Status)
        } else if p0 == 6 {
            Csi::Query(Query::CursorReport(false))
        } else {
            Csi::Nothing
        },
        0x78 => Csi::Query(Query::Params(p0 == 1)),
        _ => Csi::Nothing,
    }
}

fn read_question(params: &Vec<Vec<u16>>, final_byte: u8) -> (r: Csi)
    ensures
        r == question_csi(groups(params@), final_byte),
{
    match final_byte {
        0x68 => Csi::Setting(Setting::PrivateModes(true)),
        0x6c => Csi::Setting(Setting::PrivateModes(false)),
        0x6e => if param_or(params, 0, 0) == 6 {
            Csi::Query(Query::CursorReport(true))
        } else {
            Csi::Nothing
        },
        0x75 => Csi::Query(Query::Keyboard),
        _ => Csi::Nothing,
    }
}

fn read_greater(params: &Vec<Vec<u16>>, final_byte: u8) -> (r: Csi)
    ensures
        r == greater_csi(groups(params@), final_byte),
{
    let p0: u16 = param_or(params, 0, 0);
    match final_byte {
        0x63 => if p0 == 0 {
            Csi::Query(Query::SecondaryAttributes)
        } else {
            Csi::Nothing
        },
        0x75 => Csi::Setting(Setting::PushKeys(p0 as u8)),
        0x6d => if p0 == 4 {
            let level: u16 = field_or(params, 1, 0);
            Csi::Setting(
                Setting::ModifyOtherKeys(
                    if level < 2 {
                        level as u8
                    } else {
                        2
                    },
                ),
            )
        } else {
            Csi::Nothing
        },
        _ => Csi::Nothing,
    }
}

fn read_dollar(params: &Vec<Vec<u16>>, final_byte: u8) -> (r: Csi)
    ensures
        r == dollar_csi(groups(params@), final_byte),
{
    let p0: u16 = param_or(params, 0, 0);
    match final_byte {
        0x70 => Csi::Query(Query::Mode(p0, false)),
        0x7c => if p0 == 80 || p0 == 132 {
            Csi::Setting(Setting::Columns(p0))
        } else {
            Csi::Nothing
        },
        0x78 => Csi::Edit(
            Edit::FillRect(
                field_or(params, 0, 0x20),
                field_or(params, 1, 1),
                field_or(params, 2, 1),
                field_or(params, 3, 1),
                field_or(params, 4, 1),
            ),
        ),
        0x7a => Csi::Edit(
            Edit::EraseRect(
                field_or(params, 0, 1),
                field_or(params, 1, 1),
                field_or(params, 2, 1),
                field_or(params, 3, 1),
                false,
            ),
        ),
        0x7b => Csi::Edit(
            Edit::EraseRect(
                field_or(params, 0, 1),
                field_or(params, 1, 1),
                field_or(params, 2, 1),
                field_or(params, 3, 1),
                true,
            ),
        ),
        _ => Csi::Nothing,
    }
}

fn read_other(prefix: Prefix, params: &Vec<Vec<u16>>, final_byte: u8) -> (r: Csi)
    ensures
        r == other_csi(prefix, groups(params@), final_byte),
{
    match prefix {
        Prefix::Less => if final_byte == 0x75 {
            Csi::Setting(Setting::PopKeys(counted(param_or(params, 0, 1))))
        } else {
            Csi::Nothing
        },
        Prefix::Equals => if final_byte == 0x75 {
            Csi::Setting(
                Setting::ChangeKeys(field_or(params, 0, 0) as u8, field_or(params, 1, 1)),
            )
        } else {
            Csi::Nothing
        },
        Prefix::QuestionDollar => if final_byte == 0x70 {
            Csi::Query(Query::Mode(param_or(params, 0, 0), true))
        } else {
            Csi::Nothing
        },
        Prefix::Bang => if final_byte == 0x70 {
            Csi::Setting(Setting::SoftReset)
        } else {
            Csi::Nothing
        },
        Prefix::Quote => if final_byte == 0x71 {
            Csi::Setting(Setting::Protect(param_or(params, 0, 0) == 2))
        } else {
            Csi::Nothing
        },
        Prefix::Apostrophe => if final_byte == 0x7d {
            Csi::Edit(Edit::InsertColumns(counted(param_or(params, 0, 1))))
        } else if final_byte == 0x7e {
            Csi::Edit(Edit::DeleteColumns(counted(param_or(params, 0, 1))))
        } else {
            Csi::Nothing
        },
        Prefix::Space => if final_byte == 0x71 {
            let shape: u8 = param_or(params, 0, 0) as u8;
            Csi::Setting(
                Setting::CursorShape(
                    if shape < 6 {
                        shape
                    } else {
                        6
                    },
                ),
            )
        } else {
            Csi::Nothing
        },
        _ => Csi::Nothing,
    }
}

/// Read what a control sequence asks for.
pub fn read_csi(params: &Vec<Vec<u16>>, intermediates: &Vec<u8>, final_byte: u8) -> (r: Csi)
    ensures
        r == csi_of(groups(params@), intermediates@, final_byte),
{
    let prefix = read_prefix(intermediates);
    match read_common(prefix, params, final_byte) {
        Some(c) => c,
        None => match prefix {
            Prefix::Plain => read_plain(params, final_byte),
            Prefix::Question => read_question(params, final_byte),
            Prefix::Greater => read_greater(params, final_byte),
            Prefix::Dollar => read_dollar(params, final_byte),
            _ => read_other(prefix, params, final_byte),
        },
    }
}

impl Grid {
    fn do_move(&mut self, m: Move)
        requires
            old(self).wf(),
        ensures
            final(self).wf(),
            final(self)@ == old(self)@.moved(m),
    {
        match m {
            Move::Up(n) => self.cursor_up(n as usize),
            Move::Down(n) => self.cursor_down(n as usize),
            Move::Forward(n) => self.cursor_forward(n as usize),
            Move::Back(n) => self.cursor_back(n as usize),
            Move::NextLine(n) => self.cursor_next_line(n as usize),
            Move::PrevLine(n) => self.cursor_prev_line(n as usize),
            Move::Column(p) => self.cursor_column(p as usize),
            Move::Position(p, q) => self.cursor_position(p as usize, q as usize),
            Move::Row(p) => self.cursor_row(p as usize),
            Move::TabForward(n) => self.tab_forward(n as usize),
            Move::TabBack(n) => self.tab_back(n as usize),
            Move::ClearTabs(p) => self.clear_tab_stops(p as usize),
            Move::Save => self.save_cursor(),
            Move::Restore => self.restore_cursor(),
        }
    }

    /// Erase a rectangle in the default colours (DECERA, DECSERA).
    fn erase_rect(&mut self, top: u16, left: u16, bottom: u16, right: u16, selective: bool)
        requires
            old(self).wf(),
        ensures
            final(self).wf(),
            final(self)@ == old(self)@.with_pen(Pen::plain()).rect_filled(
                top as int,
                left as int,
                bottom as int,
                right as int,
                ' ',
                selective,
            ).with_pen(old(self)@.pen),
    {
        let pen = self.pen;
        self.pen = Pen { fg: Color::Default, bg: Color::Default, attrs: Attrs::default() };
        proof {
            assert(coded_char(0x20) == ' ');
        }
        self.fill_rect(
            top as usize,
            left as usize,
            bottom as usize,
            right as usize,
            0x20,
            selective,
        );
        self.pen = pen;
    }

    fn do_edit(&mut self, e: Edit)
        requires
            old(self).wf(),
        ensures
            final(self).wf(),
            final(self)@ == old(self)@.edited(e),
    {
        match e {
            Edit::EraseDisplay(p, sel) => self.erase_display_impl(p, sel),
            Edit::EraseLine(p, sel) => self.erase_line_impl(p, sel),
            Edit::InsertChars(n) => self.insert_chars(n as usize),
            Edit::DeleteChars(n) => self.delete_chars(n as usize),
            Edit::EraseChars(n) => self.erase_chars(n as usize),
            Edit::InsertLines(n) => self.insert_lines(n as usize),
            Edit::DeleteLines(n) => self.delete_lines(n as usize),
            Edit::ScrollDown(n) => self.scroll_down(n as usize),
            Edit::Repeat(n) => {
                if let Some(ch) = self.last_char {
                    self.repeat_char(ch, n as usize);
                }
            },
            Edit::InsertColumns(n) => self.insert_columns(n as usize),
            Edit::DeleteColumns(n) => self.delete_columns(n as usize),
            Edit::FillRect(ch, t, l, b, r) => self.fill_rect(
                t as usize,
                l as usize,
                b as usize,
                r as usize,
                ch,
                false,
            ),
            Edit::EraseRect(t, l, b, r, sel) => self.erase_rect(t, l, b, r, sel),
        }
    }

    /// DECSTBM.
    pub fn set_region(&mut self, p0: usize, p1: usize)
        requires
            old(self).wf(),
        ensures
            final(self).wf(),
            final(self)@ == old(self)@.region_set(p0 as int, p1 as int),
    {
        let top: usize = below(p0);
        let bot: usize = if p1 == 0 {
            self.screen.rows - 1
        } else {
            p1 - 1
        };
        let valid = top < bot && bot < self.screen.rows;
        self.margins = ScrollMargins {
            top: if valid {
                top
            } else {
                self.margins.top
            },
            bottom: if valid {
                bot
            } else {
                self.margins.bottom
            },
            left: 0,
            right: self.screen.cols - 1,
            horizontal: self.margins.horizontal,
        };
        self.cursor = Cursor { row: 0, col: 0 };
    }

    /// DECSLRM.
    pub fn set_sides(&mut self, p0: usize, p1: usize)
        requires
            old(self).wf(),
        ensures
            final(self).wf(),
            final(self)@ == old(self)@.sides_set(p0 as int, p1 as int),
    {
        let last: usize = self.screen.cols - 1;
        let left: usize = if self.margins.horizontal {
            at_most(below(p0), last)
        } else {
            0
        };
        let right: usize = if self.margins.horizontal {
            at_least(at_most(below(p1), last), left)
        } else {
            last
        };
        self.margins = ScrollMargins {
            top: 0,
            bottom: self.screen.rows - 1,
            left,
            right,
            horizontal: self.margins.horizontal,
        };
        self.cursor = Cursor { row: 0, col: left };
    }

    fn set_protected(&mut self, on: bool)
        requires
            old(self).wf(),
        ensures
            final(self).wf(),
            final(self)@ == old(self)@.with_pen(old(self)@.pen.with(PROTECTED, on)),
    {
        let mut pen = self.pen;
        pen.attrs.set_protected(on);
        self.pen = pen;
    }

    fn do_setting(&mut self, s: Setting, params: &Vec<Vec<u16>>)
        requires
            old(self).wf(),
        ensures
            final(self).wf(),
            final(self)@ == old(self)@.set(s, groups(params@)),
    {
        match s {
            Setting::Region(p, q) => self.set_region(p as usize, q as usize),
            Setting::Sides(p, q) => self.set_sides(p as usize, q as usize),
            Setting::AnsiModes(on) => self.set_ansi_modes(params, on),
            Setting::PrivateModes(on) => self.set_private_modes(params, on),
            Setting::Sgr => self.apply_sgr(params),
            Setting::Protect(on) => self.set_protected(on),
            Setting::CursorShape(n) => self.modes = Modes { cursor_shape: n, ..self.modes },
            Setting::Columns(n) => self.set_columns(n as usize),
            Setting::SoftReset => self.soft_reset(),
            Setting::ModifyOtherKeys(n) => self.modes = Modes {
                modify_other_keys: n,
                ..self.modes
            },
            Setting::PushKeys(f) => self.keyboard.push(f),
            Setting::PopKeys(n) => self.keyboard.pop(n as usize),
            Setting::ChangeKeys(f, m) => self.keyboard.change(f, m),
        }
    }

    fn do_query(&mut self, q: Query)
        requires
            old(self).wf(),
        ensures
            final(self).wf(),
            final(self)@ == old(self)@.replying(old(self)@.answer(q)),
    {
        match q {
            Query::Attributes => self.respond_str("\x1b[?62;22c"),
            Query::SecondaryAttributes => self.respond_str("\x1b[>1;20;0c"),
            Query::Status => self.respond_str("\x1b[0n"),
            Query::CursorReport(extended) => self.report_cursor(extended),
            Query::Params(solicited) => self.report_params(solicited),
            Query::Mode(mode, private) => self.report_mode(mode, private),
            Query::Keyboard => self.report_keyboard(),
        }
    }

    /// Carry out a control sequence.
    pub fn handle_csi(&mut self, params: &Vec<Vec<u16>>, intermediates: &Vec<u8>, final_byte: u8)
        requires
            old(self).wf(),
        ensures
            final(self).wf(),
            final(self)@ == old(self)@.csi(groups(params@), intermediates@, final_byte),
    {
        proof {
            reveal(GridState::csi);
        }
        match read_csi(params, intermediates, final_byte) {
            Csi::Move(m) => self.do_move(m),
            Csi::Edit(e) => self.do_edit(e),
            Csi::Setting(s) => self.do_setting(s, params),
            Csi::Query(q) => self.do_query(q),
            Csi::Nothing => {},
        }
    }
}

} // verus!
