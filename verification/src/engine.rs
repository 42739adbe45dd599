//! The terminal engine of one tab: it owns the grid and the parser, carries out
//! commands, and turns what the application writes into replies and events.
//!
//! The engine does no input or output. A driver hands it commands and the
//! chunks that it has read, and then does what the engine returns: it writes
//! replies, passes on events, publishes a snapshot, waits or stops.
use vstd::prelude::*;

use crate::grid::cell::text_view;
use crate::grid::perform::stops_are_seamless;
use crate::grid::replies::ascii_bytes;
use crate::grid::state::{min, monus, GraphicsState, GridState, OutboxState, Viewport};
use crate::grid::view::{clamped_bits, strings};
use crate::grid::{files_view, Grid, KittyFile, WinSize};
use crate::parser::{Parser, ParserState};
use crate::text::{copy_range, same_text, views};

verus! {

/// What the window asks of an engine.
#[derive(Debug)]
pub enum Command {
    /// Resize the grid and the PTY window.
    Resize(WinSize),
    /// Set the viewport scroll offset directly (page jumps), and the fraction
    /// of a line beyond it by the bits of a single-precision number.
    ScrollTo { offset: usize, fraction: u32 },
    /// Change the scroll offset by `amount` lines (positive = up), clamped
    /// to the scrollback bounds.
    ScrollBy { amount: i32 },
    /// Return the viewport to the live (bottom) position.
    ResetScroll,
    /// The window gained the focus.
    FocusIn,
    /// The window lost the focus.
    FocusOut,
    /// Write raw bytes to the PTY (key input, paste, clipboard replies).
    WriteToPty(Vec<u8>),
    /// Extract all visible lines as strings (search / selection text).
    GetLines,
    /// Resolve the hyperlink at a grid cell.
    GetHyperlinkAt { col: usize, row: usize },
    /// Jump to the previous (`dir <= 0`) or next (`dir > 0`) prompt marker
    /// relative to the shell cursor, scrolling the viewport or moving the
    /// cursor as needed.
    JumpPrompt { dir: i8 },
    /// Stop the engine and drop the tab.
    Quit,
}

/// What the driver has to do for a command.
#[derive(Debug)]
pub enum Reply {
    /// Nothing.
    Done,
    /// Give the PTY this size.
    Resize(WinSize),
    /// Write these to the PTY, one after the other.
    Write(Vec<Vec<u8>>),
    /// Hand these lines back.
    Lines(Vec<String>),
    /// Hand this hyperlink target back.
    Link(Option<String>),
    /// Stop.
    Quit,
}

/// What a reply says.
pub enum ReplyState {
    Done,
    Resize(WinSize),
    Write(Seq<Seq<u8>>),
    Lines(Seq<Seq<char>>),
    Link(Option<Seq<char>>),
    Quit,
}

impl View for Reply {
    type V = ReplyState;

    open spec fn view(&self) -> ReplyState {
        match *self {
            Reply::Done => ReplyState::Done,
            Reply::Resize(size) => ReplyState::Resize(size),
            Reply::Write(v) => ReplyState::Write(views(v@)),
            Reply::Lines(v) => ReplyState::Lines(strings(v@)),
            Reply::Link(s) => ReplyState::Link(text_view(s)),
            Reply::Quit => ReplyState::Quit,
        }
    }
}

/// What happened in the terminal that the window has to know.
#[derive(Debug)]
pub enum Event {
    /// OSC 52 set request, to be gated by the security policy.
    ClipboardSet(String),
    /// OSC 52 query, to be gated by the security policy.
    ClipboardQueryRequested,
    /// Window title changed (OSC 0/2).
    TitleChanged(String),
    /// BEL: flash the window or beep per config.
    Bell,
    /// OSC 9 notification message.
    Notification(String),
    /// DECCOLM/DECSCPP asked for a different column count.
    WindowResizeRequest(WinSize),
    /// The PTY channel closed (shell exited).
    ChannelClosed,
}

/// What an event says.
pub enum EventState {
    ClipboardSet(Seq<char>),
    ClipboardQueryRequested,
    TitleChanged(Seq<char>),
    Bell,
    Notification(Seq<char>),
    WindowResizeRequest(WinSize),
    ChannelClosed,
}

impl View for Event {
    type V = EventState;

    open spec fn view(&self) -> EventState {
        match *self {
            Event::ClipboardSet(s) => EventState::ClipboardSet(s@),
            Event::ClipboardQueryRequested => EventState::ClipboardQueryRequested,
            Event::TitleChanged(s) => EventState::TitleChanged(s@),
            Event::Bell => EventState::Bell,
            Event::Notification(s) => EventState::Notification(s@),
            Event::WindowResizeRequest(size) => EventState::WindowResizeRequest(size),
            Event::ChannelClosed => EventState::ChannelClosed,
        }
    }
}

/// The views of the events.
pub open spec fn events_view(v: Seq<Event>) -> Seq<EventState> {
    Seq::new(v.len(), |i: int| v[i]@)
}

// ---------------------------------------------------------------------------
// Prompts
// ---------------------------------------------------------------------------

/// The last prompt before index `from` of a marker stream.
pub open spec fn prompt_before(stream: Seq<u8>, from: int) -> Option<int>
    decreases from,
{
    if from <= 0 || from > stream.len() {
        None
    } else if stream[from - 1] == 1 {
        Some(from - 1)
    } else {
        prompt_before(stream, from - 1)
    }
}

/// The first prompt after index `from` of a marker stream.
pub open spec fn prompt_after(stream: Seq<u8>, from: int) -> Option<int>
    decreases stream.len() - from,
{
    if from < 0 || from + 1 >= stream.len() {
        None
    } else if stream[from + 1] == 1 {
        Some(from + 1)
    } else {
        prompt_after(stream, from + 1)
    }
}

pub(crate) proof fn prompt_before_is(stream: Seq<u8>, from: int, r: Option<int>)
    requires
        0 <= from <= stream.len(),
        match r {
            Some(i) => 0 <= i < from && stream[i] == 1 && forall|j: int|
                i < j < from ==> stream[j] != 1,
            None => forall|j: int| 0 <= j < from ==> stream[j] != 1,
        },
    ensures
        prompt_before(stream, from) == r,
    decreases from,
{
    if from > 0 && stream[from - 1] != 1 {
        prompt_before_is(stream, from - 1, r);
    }
}

pub(crate) proof fn prompt_after_is(stream: Seq<u8>, from: int, r: Option<int>)
    requires
        0 <= from,
        match r {
            Some(i) => from < i < stream.len() && stream[i] == 1 && forall|j: int|
                from < j < i ==> stream[j] != 1,
            None => forall|j: int| from < j < stream.len() ==> stream[j] != 1,
        },
    ensures
        prompt_after(stream, from) == r,
    decreases stream.len() - from,
{
    if from + 1 < stream.len() && stream[from + 1] != 1 {
        prompt_after_is(stream, from + 1, r);
    }
}

/// Lines can be numbered over the scrollback and the screen together.
pub open spec fn numbered(g: GridState) -> bool {
    g.screen.scrollback.len() + g.screen.rows <= usize::MAX
}

/// The prompt before or after the line of the cursor.
pub open spec fn prompt_target(g: GridState, forward: bool) -> Option<int> {
    let from = g.screen.scrollback.len() + g.row;
    if forward {
        prompt_after(g.screen.marker_stream(), from)
    } else {
        prompt_before(g.screen.marker_stream(), from)
    }
}

/// The prompt before or after the line of the cursor, as an index over the
/// scrollback and then the screen.
pub fn find_prompt(grid: &Grid, forward: bool) -> (r: Option<usize>)
    requires
        grid.wf(),
        numbered(grid@),
    ensures
        r is Some <==> prompt_target(grid@, forward) is Some,
        r matches Some(i) ==> prompt_target(grid@, forward) == Some(i as int) && i
            < grid@.screen.scrollback.len() + grid@.screen.rows,
{
    let from: usize = grid.screen.scrollback.len() + grid.cursor.row;
    let ghost stream = grid@.screen.marker_stream();
    proof {
        assert(stream.len() == grid@.screen.scrollback.len() + grid@.screen.rows);
    }
    if forward {
        let r = grid.next_prompt(from);
        proof {
            prompt_after_is(
                stream,
                from as int,
                match r {
                    Some(i) => Some(i as int),
                    None => None,
                },
            );
        }
        r
    } else {
        let r = grid.prev_prompt(from);
        proof {
            prompt_before_is(
                stream,
                from as int,
                match r {
                    Some(i) => Some(i as int),
                    None => None,
                },
            );
        }
        r
    }
}

// ---------------------------------------------------------------------------
// Commands
// ---------------------------------------------------------------------------

impl GridState {
    /// The terminal with its view moved.
    pub open spec fn scrolled_to(self, offset: int, fraction: u32) -> GridState {
        GridState { view: Viewport { offset, fraction }, ..self }
    }

    /// A jump to the prompt before or after the cursor: one in the scrollback
    /// is scrolled to the top of the view, one on the screen takes the cursor.
    /// With no further prompt, a jump forward returns to the live view.
    pub open spec fn jumped(self, forward: bool) -> GridState {
        let history = self.screen.scrollback.len();
        match prompt_target(self, forward) {
            Some(i) => if i < history {
                self.scrolled_to(history - i, 0)
            } else {
                GridState { row: i - history, ..self.scrolled_to(0, 0) }
            },
            None => if forward {
                self.scrolled_to(0, 0)
            } else {
                self
            },
        }
    }

    /// What a command makes of the terminal.
    pub open spec fn commanded(self, cmd: Command) -> GridState {
        match cmd {
            Command::Resize(size) => self.resized(
                if size.cols == 0 {
                    1
                } else {
                    size.cols as int
                },
                if size.rows == 0 {
                    1
                } else {
                    size.rows as int
                },
            ),
            Command::ScrollTo { offset, fraction } => self.scrolled_to(
                offset as int,
                clamped_bits(fraction),
            ),
            Command::ScrollBy { amount } => self.scrolled_to(
                if amount >= 0 {
                    min(self.view.offset + amount, self.screen.scrollback.len() as int)
                } else {
                    monus(self.view.offset, -amount)
                },
                0,
            ),
            Command::ResetScroll => self.scrolled_to(0, 0),
            Command::FocusIn | Command::FocusOut => self.with_outbox(
                (OutboxState { responses: Seq::empty(), ..self.outbox }),
            ),
            Command::JumpPrompt { dir } => self.jumped(dir > 0),
            Command::WriteToPty(_) => self,
            Command::GetLines => self,
            Command::GetHyperlinkAt { col, row } => self,
            Command::Quit => self,
        }
    }

    /// The hyperlink target of a cell.
    pub open spec fn link_at(self, col: int, row: int) -> Option<Seq<char>> {
        if col < self.screen.cols && row < self.screen.rows {
            let id = self.screen.active()[row][col].hyperlink_id;
            if id != 0 && self.links.urls.dom().contains(id) {
                Some(self.links.urls[id])
            } else {
                None
            }
        } else {
            None
        }
    }

    /// What the driver has to do for a command.
    pub open spec fn reply_to(self, cmd: Command) -> ReplyState {
        match cmd {
            Command::Resize(size) => ReplyState::Resize(size),
            Command::FocusIn => ReplyState::Write(
                if self.modes.focus_reporting {
                    self.outbox.responses.push(crate::text::lit("\x1b[I"))
                } else {
                    self.outbox.responses
                },
            ),
            Command::FocusOut => ReplyState::Write(
                if self.modes.focus_reporting {
                    self.outbox.responses.push(crate::text::lit("\x1b[O"))
                } else {
                    self.outbox.responses
                },
            ),
            Command::WriteToPty(data) => ReplyState::Write(seq![data@]),
            Command::GetLines => ReplyState::Lines(self.screen.texts()),
            Command::GetHyperlinkAt { col, row } => ReplyState::Link(
                self.link_at(col as int, row as int),
            ),
            Command::Quit => ReplyState::Quit,
            _ => ReplyState::Done,
        }
    }
}

/// The commands after which the window has to be drawn again.
pub open spec fn redraws(cmd: Command) -> bool {
    match cmd {
        Command::Resize(_) => true,
        Command::ScrollTo { offset, fraction } => true,
        Command::ScrollBy { amount } => true,
        Command::ResetScroll => true,
        Command::JumpPrompt { dir } => true,
        _ => false,
    }
}

// ---------------------------------------------------------------------------
// Output
// ---------------------------------------------------------------------------

impl GridState {
    /// Chunks of output taken one after the other, up to the first byte after
    /// which an image file is to be read; the state of parser and terminal then,
    /// and what is left of the chunks.
    #[verifier::opaque]
    pub open spec fn fed_all(self, s: ParserState, chunks: Seq<Seq<u8>>) -> (
        ParserState,
        GridState,
        Seq<Seq<u8>>,
    )
        decreases chunks.len(),
    {
        if chunks.len() == 0 {
            (s, self, chunks)
        } else {
            let (t, g, rest) = self.fed_until_file(s, chunks[0]);
            if rest.len() > 0 {
                (t, g, chunks.update(0, rest))
            } else {
                g.fed_all(t, chunks.skip(1))
            }
        }
    }

    /// The terminal with its image files handed over.
    pub open spec fn without_files(self) -> GridState {
        self.with_graphics((GraphicsState { files: Seq::empty(), ..self.graphics }))
    }

    /// Cells are marked one by one, or left to one mark for all.
    pub open spec fn bulk(self, on: bool) -> GridState {
        GridState { modes: crate::grid::Modes { bulk_output: on, ..self.modes }, ..self }
    }

    /// The terminal with everything taken that waited for the window.
    pub open spec fn drained(self) -> GridState {
        self.with_outbox(
            (OutboxState {
                responses: Seq::empty(),
                bell: false,
                clipboard_set: None,
                clipboard_query: false,
                notification: None,
                resize_request: None,
                ..self.outbox
            }),
        )
    }
}

/// The event in a list of its own, where there is one.
pub open spec fn listed(e: Option<EventState>) -> Seq<EventState> {
    match e {
        Some(e) => seq![e],
        None => Seq::empty(),
    }
}

/// The events of a terminal, in order: clipboard, query, column count, bell,
/// notification, and a title that is new and not empty.
#[verifier::opaque]
pub open spec fn events_of(o: OutboxState, title: Seq<char>, last: Seq<char>) -> Seq<EventState> {
    listed(
        match o.clipboard_set {
            Some(s) => Some(EventState::ClipboardSet(s)),
            None => None,
        },
    ) + listed(
        if o.clipboard_query {
            Some(EventState::ClipboardQueryRequested)
        } else {
            None
        },
    ) + listed(
        match o.resize_request {
            Some(size) => Some(EventState::WindowResizeRequest(size)),
            None => None,
        },
    ) + listed(
        if o.bell {
            Some(EventState::Bell)
        } else {
            None
        },
    ) + listed(
        match o.notification {
            Some(s) => Some(EventState::Notification(s)),
            None => None,
        },
    ) + listed(
        if title != last && title.len() > 0 {
            Some(EventState::TitleChanged(title))
        } else {
            None
        },
    )
}

proof fn events_without_replies(o: OutboxState, title: Seq<char>, last: Seq<char>)
    ensures
        events_of((OutboxState { responses: Seq::empty(), ..o }), title, last) == events_of(
            o,
            title,
            last,
        ),
{
    reveal(events_of);
}

proof fn rest_waits_for_files(g: GridState, s: ParserState, chunks: Seq<Seq<u8>>)
    ensures
        g.fed_all(s, chunks).2.len() > 0 ==> g.fed_all(s, chunks).1.graphics.files.len() > 0,
    decreases chunks.len(),
{
    reveal(GridState::fed_all);
    if chunks.len() > 0 {
        stops_are_seamless(g, s, chunks[0]);
        let (t, h, rest) = g.fed_until_file(s, chunks[0]);
        if rest.len() == 0 {
            rest_waits_for_files(h, t, chunks.skip(1));
        }
    }
}

/// What a batch of output leaves for the driver.
#[derive(Debug)]
pub struct Batch {
    /// Image files to read and complete before anything more is parsed.
    pub files: Vec<KittyFile>,
    /// Replies to device queries, for the PTY.
    pub responses: Vec<Vec<u8>>,
    /// Events for the window.
    pub events: Vec<Event>,
}

/// What the driver does after the commands and output of a turn.
#[derive(Debug, Clone, Copy, PartialEq, Eq, Structural)]
pub struct Turn {
    /// Publish a snapshot and wake the window.
    pub publish: bool,
    /// Stop: the shell has exited, and nothing is left to do.
    pub stop: bool,
    /// Nothing happened: wait a moment for output or commands.
    pub idle: bool,
}

/// The engine of one tab.
pub struct Engine {
    pub grid: Grid,
    pub parser: Parser,
    /// The title that was last reported.
    pub last_title: String,
    /// Output received and not yet parsed.
    pub pending: Vec<Vec<u8>>,
    /// Bytes received since the last parse.
    pub taken: usize,
    /// Output was parsed in this turn.
    pub drained: bool,
    /// A command changed what is shown in this turn.
    pub command_dirty: bool,
    /// The shell has exited.
    pub channel_closed: bool,
}

fn push_event(events: &mut Vec<Event>, e: Event)
    ensures
        events_view(final(events)@) == events_view(old(events)@) + seq![e@],
{
    events.push(e);
    proof {
        assert(events_view(events@) =~= events_view(old(events)@) + seq![e@]);
    }
}

impl Engine {
    /// The grid and the parser are well formed.
    pub open spec fn wf(&self) -> bool {
        &&& self.grid.wf()
        &&& self.parser@.wf()
    }

    /// An engine with an empty screen.
    pub fn new(size: WinSize, scrollback: usize, cell_size: (u32, u32)) -> (r: Self)
        requires
            size.cols >= 1,
            size.rows >= 1,
        ensures
            r.wf(),
            ({
                let g = GridState::initial(size.cols as int, size.rows as int, scrollback as int);
                r.grid@ == g.with_graphics(
                    (crate::grid::state::GraphicsState {
                        cell_w: if cell_size.0 == 0 {
                            1
                        } else {
                            cell_size.0
                        },
                        cell_h: if cell_size.1 == 0 {
                            1
                        } else {
                            cell_size.1
                        },
                        ..g.graphics
                    }),
                )
            }),
            r.parser@ == ParserState::initial(),
            r.last_title@.len() == 0,
            r.pending@.len() == 0,
            r.taken == 0,
            !r.drained && !r.command_dirty && !r.channel_closed,
    {
        let mut grid = Grid::new(size, scrollback);
        grid.set_cell_size(cell_size.0, cell_size.1);
        Engine {
            grid,
            parser: Parser::new(),
            last_title: String::new(),
            pending: Vec::new(),
            taken: 0,
            drained: false,
            command_dirty: false,
            channel_closed: false,
        }
    }

    fn jump(&mut self, forward: bool)
        requires
            old(self).wf(),
            numbered(old(self).grid@),
        ensures
            final(self).wf(),
            final(self).grid@ == old(self).grid@.jumped(forward),
            *final(self) == (Engine { grid: final(self).grid, ..*old(self) }),
    {
        let history: usize = self.grid.screen.scrollback.len();
        match find_prompt(&self.grid, forward) {
            Some(i) => {
                if i < history {
                    self.grid.set_scroll_offset(history - i);
                    self.grid.set_scroll_fraction(0);
                } else {
                    self.grid.reset_scroll();
                    self.grid.cursor.row = i - history;
                }
            },
            None => {
                if forward {
                    self.grid.reset_scroll();
                }
            },
        }
    }

    fn scroll_by(&mut self, amount: i32)
        requires
            old(self).wf(),
        ensures
            final(self).wf(),
            final(self).grid@ == old(self).grid@.commanded(Command::ScrollBy { amount }),
            *final(self) == (Engine { grid: final(self).grid, ..*old(self) }),
    {
        let cur: usize = self.grid.scrollback_offset;
        let len: usize = self.grid.screen.scrollback.len();
        let target: usize = if amount >= 0 {
            if cur >= len || amount as usize >= len - cur {
                len
            } else {
                cur + amount as usize
            }
        } else {
            let down: usize = (-(amount as i64)) as usize;
            if cur >= down {
                cur - down
            } else {
                0
            }
        };
        self.grid.set_scroll_offset(target);
        self.grid.set_scroll_fraction(0);
    }

    /// Carry out a command.
    pub fn command(&mut self, cmd: Command) -> (r: Reply)
        requires
            old(self).wf(),
            numbered(old(self).grid@),
        ensures
            final(self).wf(),
            final(self).grid@ == old(self).grid@.commanded(cmd),
            r@ == old(self).grid@.reply_to(cmd),
            final(self).parser@ == old(self).parser@,
            final(self).last_title@ == old(self).last_title@,
            views(final(self).pending@) == views(old(self).pending@),
            final(self).taken == old(self).taken,
            final(self).drained == old(self).drained,
            final(self).command_dirty == (old(self).command_dirty || redraws(cmd)),
            final(self).channel_closed == old(self).channel_closed,
    {
        match cmd {
            Command::Resize(size) => {
                self.grid.resize(size);
                self.command_dirty = true;
                Reply::Resize(size)
            },
            Command::ScrollTo { offset, fraction } => {
                self.grid.set_scroll_offset(offset);
                self.grid.set_scroll_fraction(fraction);
                self.command_dirty = true;
                Reply::Done
            },
            Command::ScrollBy { amount } => {
                self.scroll_by(amount);
                self.command_dirty = true;
                Reply::Done
            },
            Command::ResetScroll => {
                self.grid.reset_scroll();
                self.command_dirty = true;
                Reply::Done
            },
            Command::FocusIn => {
                self.grid.focus_in();
                Reply::Write(self.grid.take_responses())
            },
            Command::FocusOut => {
                self.grid.focus_out();
                Reply::Write(self.grid.take_responses())
            },
            Command::WriteToPty(data) => {
                let mut v: Vec<Vec<u8>> = Vec::new();
                v.push(data);
                proof {
                    assert(views(v@) =~= seq![data@]);
                }
                Reply::Write(v)
            },
            Command::GetLines => Reply::Lines(self.grid.all_lines()),
            Command::GetHyperlinkAt { col, row } => {
                match self.grid.get_hyperlink_at(col, row) {
                    Some(s) => Reply::Link(Some(s.to_owned())),
                    None => Reply::Link(None),
                }
            },
            Command::JumpPrompt { dir } => {
                self.jump(dir > 0);
                self.command_dirty = true;
                Reply::Done
            },
            Command::Quit => Reply::Quit,
        }
    }

    /// Take a chunk of output. Returns true when the budget of bytes for this
    /// turn is used up and the chunks so far are to be parsed.
    pub fn accept(&mut self, chunk: Vec<u8>, budget: usize) -> (r: bool)
        requires
            old(self).wf(),
        ensures
            final(self).wf(),
            final(self).grid@ == old(self).grid@,
            final(self).parser@ == old(self).parser@,
            final(self).last_title@ == old(self).last_title@,
            views(final(self).pending@) == views(old(self).pending@).push(chunk@),
            final(self).taken == min(old(self).taken + chunk@.len(), usize::MAX as int),
            r == (final(self).taken >= budget),
            final(self).drained,
            final(self).command_dirty == old(self).command_dirty,
            final(self).channel_closed == old(self).channel_closed,
    {
        self.taken = self.taken.saturating_add(chunk.len());
        let ghost before = views(self.pending@);
        self.pending.push(chunk);
        proof {
            assert(views(self.pending@) =~= before.push(chunk@));
        }
        self.drained = true;
        self.taken >= budget
    }

    /// The PTY channel has closed.
    pub fn close(&mut self)
        ensures
            *final(self) == (Engine { channel_closed: true, ..*old(self) }),
    {
        self.channel_closed = true;
    }

    fn feed_pending(&mut self)
        requires
            old(self).wf(),
        ensures
            final(self).wf(),
            (final(self).parser@, final(self).grid@, views(final(self).pending@))
                == old(self).grid@.fed_all(old(self).parser@, views(old(self).pending@)),
            final(self).taken == 0,
            final(self).last_title@ == old(self).last_title@,
            final(self).drained == old(self).drained,
            final(self).command_dirty == old(self).command_dirty,
            final(self).channel_closed == old(self).channel_closed,
    {
        let mut chunks: Vec<Vec<u8>> = Vec::new();
        core::mem::swap(&mut chunks, &mut self.pending);
        self.taken = 0;
        let n: usize = chunks.len();
        let mut i: usize = 0;
        let ghost all = views(chunks@);
        let ghost goal = old(self).grid@.fed_all(old(self).parser@, all);
        proof {
            assert(all.skip(0) =~= all);
        }
        while i < n
            invariant
                i <= n,
                n == chunks@.len(),
                all == views(chunks@),
                goal == old(self).grid@.fed_all(old(self).parser@, views(old(self).pending@)),
                self.wf(),
                self.grid@.fed_all(self.parser@, all.skip(i as int)) == goal,
                self.pending@.len() == 0,
                self.taken == 0,
                self.last_title@ == old(self).last_title@,
                self.drained == old(self).drained,
                self.command_dirty == old(self).command_dirty,
                self.channel_closed == old(self).channel_closed,
            decreases n - i,
        {
            let len: usize = chunks[i].len();
            let taken: usize = self.grid.take_until_file(&mut self.parser, chunks[i].as_slice());
            proof {
                reveal(GridState::fed_all);
                assert(all.skip(i as int)[0] == chunks@[i as int]@);
                assert(all.skip(i as int).skip(1) =~= all.skip(i + 1));
            }
            if taken < len {
                let rest = copy_range(chunks[i].as_slice(), taken, len);
                let mut left = chunks.split_off(i);
                proof {
                    assert(rest@ =~= all[i as int].skip(taken as int));
                    assert(views(left@) =~= all.skip(i as int));
                }
                left.set(0, rest);
                proof {
                    assert(views(left@) =~= all.skip(i as int).update(0, rest@));
                }
                self.pending = left;
                return;
            }
            i += 1;
        }
        proof {
            reveal(GridState::fed_all);
            assert(all.skip(n as int) =~= Seq::empty());
            assert(views(self.pending@) =~= Seq::empty());
        }
    }

    fn set_bulk(&mut self, on: bool)
        requires
            old(self).wf(),
        ensures
            final(self).wf(),
            final(self).grid@ == old(self).grid@.bulk(on),
            *final(self) == (Engine { grid: final(self).grid, ..*old(self) }),
    {
        self.grid.modes.bulk_output = on;
    }

    fn feed_in_bulk(&mut self)
        requires
            old(self).wf(),
        ensures
            final(self).wf(),
            ({
                let (s, g, rest) = old(self).grid@.bulk(true).fed_all(
                    old(self).parser@,
                    views(old(self).pending@),
                );
                &&& final(self).parser@ == s
                &&& final(self).grid@ == g.bulk(false)
                &&& views(final(self).pending@) == rest
                &&& rest.len() > 0 ==> g.graphics.files.len() > 0
            }),
            final(self).taken == 0,
            final(self).last_title@ == old(self).last_title@,
            final(self).drained == old(self).drained,
            final(self).command_dirty == old(self).command_dirty,
            final(self).channel_closed == old(self).channel_closed,
    {
        self.set_bulk(true);
        proof {
            rest_waits_for_files(self.grid@, self.parser@, views(self.pending@));
        }
        self.feed_pending();
        self.set_bulk(false);
    }

    fn take_events(&mut self) -> (r: Vec<Event>)
        requires
            old(self).wf(),
        ensures
            final(self).wf(),
            events_view(r@) == events_of(
                old(self).grid@.outbox,
                old(self).grid@.palette.title,
                old(self).last_title@,
            ),
            final(self).grid@ == old(self).grid@.with_outbox(
                (OutboxState {
                    responses: old(self).grid@.outbox.responses,
                    ..old(self).grid@.drained().outbox
                }),
            ),
            final(self).last_title@ == if old(self).grid@.palette.title.len() > 0 {
                old(self).grid@.palette.title
            } else {
                old(self).last_title@
            },
            final(self).parser@ == old(self).parser@,
            final(self).pending@ == old(self).pending@,
            final(self).taken == old(self).taken,
            final(self).drained == old(self).drained,
            final(self).command_dirty == old(self).command_dirty,
            final(self).channel_closed == old(self).channel_closed,
    {
        let mut events: Vec<Event> = Vec::new();
        let ghost o = self.grid@.outbox;
        proof {
            assert(events_view(events@) =~= Seq::empty());
        }
        if let Some(s) = self.grid.outbox.clipboard_set.take() {
            push_event(&mut events, Event::ClipboardSet(s));
        }
        if self.grid.outbox.clipboard_query_requested {
            self.grid.outbox.clipboard_query_requested = false;
            push_event(&mut events, Event::ClipboardQueryRequested);
        }
        if let Some(size) = self.grid.outbox.window_resize_request.take() {
            push_event(&mut events, Event::WindowResizeRequest(size));
        }
        if self.grid.take_bell() {
            push_event(&mut events, Event::Bell);
        }
        if let Some(s) = self.grid.take_notification() {
            push_event(&mut events, Event::Notification(s));
        }
        if self.grid.palette.title.as_str().unicode_len() > 0 {
            if !same_text(self.grid.palette.title.as_str(), self.last_title.as_str()) {
                self.last_title = self.grid.palette.title.clone();
                push_event(&mut events, Event::TitleChanged(self.grid.palette.title.clone()));
            }
        }
        proof {
            reveal(events_of);
            assert(events_view(events@) =~= events_of(
                o,
                old(self).grid@.palette.title,
                old(self).last_title@,
            ));
        }
        events
    }

    /// Parse the chunks taken so far, in order, and take what they leave for
    /// the PTY and the window. Parsing stops where an image file is to be read:
    /// the files are handed over, the rest of the output and what the window is
    /// to know wait until `parse` is called again.
    pub fn parse(&mut self) -> (r: Batch)
        requires
            old(self).wf(),
        ensures
            final(self).wf(),
            ({
                let (s, g, rest) = old(self).grid@.bulk(true).fed_all(
                    old(self).parser@,
                    views(old(self).pending@),
                );
                let done = g.bulk(false);
                &&& final(self).parser@ == s
                &&& views(final(self).pending@) == rest
                &&& files_view(r.files@) == done.graphics.files
                &&& if done.graphics.files.len() > 0 {
                    &&& final(self).grid@ == done.without_files()
                    &&& r.responses@.len() == 0
                    &&& r.events@.len() == 0
                    &&& final(self).last_title@ == old(self).last_title@
                } else {
                    &&& final(self).grid@ == done.drained()
                    &&& views(r.responses@) == done.outbox.responses
                    &&& events_view(r.events@) == events_of(
                        done.outbox,
                        done.palette.title,
                        old(self).last_title@,
                    )
                    &&& final(self).last_title@ == if done.palette.title.len() > 0 {
                        done.palette.title
                    } else {
                        old(self).last_title@
                    }
                }
            }),
            r.files@.len() == 0 ==> final(self).pending@.len() == 0,
            final(self).taken == 0,
            final(self).drained == old(self).drained,
            final(self).command_dirty == old(self).command_dirty,
            final(self).channel_closed == old(self).channel_closed,
    {
        self.feed_in_bulk();
        let ghost done = self.grid@;
        let files = self.grid.take_kitty_files();
        proof {
            assert(files_view(files@).len() == files@.len());
            assert(views(self.pending@).len() == self.pending@.len());
        }
        if files.len() > 0 {
            return Batch { files, responses: Vec::new(), events: Vec::new() };
        }
        proof {
            assert(done.graphics.files =~= Seq::empty());
            assert(self.grid@ == done);
        }
        let responses = self.grid.take_responses();
        proof {
            events_without_replies(done.outbox, done.palette.title, self.last_title@);
        }
        let events = self.take_events();
        Batch { files, responses, events }
    }

    /// Parse as `parse` does, and mark the whole screen to be drawn again where
    /// there was any output in this turn.
    pub fn drain(&mut self) -> (r: Batch)
        requires
            old(self).wf(),
        ensures
            final(self).wf(),
            ({
                let (s, g, rest) = old(self).grid@.bulk(true).fed_all(
                    old(self).parser@,
                    views(old(self).pending@),
                );
                let done = g.bulk(false);
                if old(self).pending@.len() == 0 && !old(self).drained {
                    &&& final(self).grid@ == old(self).grid@
                    &&& final(self).parser@ == old(self).parser@
                    &&& final(self).pending@.len() == 0
                    &&& final(self).last_title@ == old(self).last_title@
                    &&& r.files@.len() == 0
                    &&& r.responses@.len() == 0
                    &&& r.events@.len() == 0
                } else {
                    &&& final(self).parser@ == s
                    &&& views(final(self).pending@) == rest
                    &&& files_view(r.files@) == done.graphics.files
                    &&& if done.graphics.files.len() > 0 {
                        &&& final(self).grid@ == done.without_files().all_dirty()
                        &&& r.responses@.len() == 0
                        &&& r.events@.len() == 0
                        &&& final(self).last_title@ == old(self).last_title@
                    } else {
                        &&& final(self).grid@ == done.drained().all_dirty()
                        &&& views(r.responses@) == done.outbox.responses
                        &&& events_view(r.events@) == events_of(
                            done.outbox,
                            done.palette.title,
                            old(self).last_title@,
                        )
                        &&& final(self).last_title@ == if done.palette.title.len() > 0 {
                            done.palette.title
                        } else {
                            old(self).last_title@
                        }
                    }
                }
            }),
            r.files@.len() == 0 ==> final(self).pending@.len() == 0,
            final(self).drained == old(self).drained,
            final(self).channel_closed == old(self).channel_closed,
    {
        if self.pending.len() == 0 && !self.drained {
            return Batch { files: Vec::new(), responses: Vec::new(), events: Vec::new() };
        }
        let batch = self.parse();
        self.grid.mark_all_dirty();
        batch
    }

    /// An image file that was handed over has been read, or could not be.
    pub fn complete_file(&mut self, file: KittyFile, contents: Result<Vec<u8>, String>)
        requires
            old(self).wf(),
        ensures
            final(self).wf(),
            final(self).grid@ == old(self).grid@.file_read(
                file@,
                match contents {
                    Ok(v) => Ok(v@),
                    Err(e) => Err(e@),
                },
            ),
            *final(self) == (Engine { grid: final(self).grid, ..*old(self) }),
    {
        self.grid.complete_kitty_file(file, contents);
    }

    /// End a turn: say what the driver does now, and begin the next.
    pub fn end_turn(&mut self, commands_wait: bool) -> (r: Turn)
        ensures
            r == (Turn {
                publish: old(self).drained || old(self).command_dirty || old(self).channel_closed,
                stop: old(self).channel_closed && old(self).pending@.len() == 0 && !commands_wait,
                idle: !old(self).drained && !old(self).command_dirty,
            }),
            *final(self) == (Engine { drained: false, command_dirty: false, ..*old(self) }),
    {
        let r = Turn {
            publish: self.drained || self.command_dirty || self.channel_closed,
            stop: self.channel_closed && self.pending.len() == 0 && !commands_wait,
            idle: !self.drained && !self.command_dirty,
        };
        self.drained = false;
        self.command_dirty = false;
        r
    }
}

// ---------------------------------------------------------------------------
// Laws
// ---------------------------------------------------------------------------

/// Nothing is reported twice: once taken, the terminal has no event and no
/// reply left, and a title that was reported is not reported again.
pub proof fn drained_once(g: GridState)
    ensures
        events_of(g.drained().outbox, g.palette.title, g.palette.title).len() == 0,
        g.drained().outbox.responses.len() == 0,
        g.drained().drained() == g.drained(),
{
    reveal(events_of);
}

/// Output taken in two batches leaves the terminal as one batch would: the
/// second follows what is left of the first.
pub proof fn batches_join(g: GridState, s: ParserState, a: Seq<Seq<u8>>, b: Seq<Seq<u8>>)
    ensures
        g.fed_all(s, a + b) == ({
            let (t, h, rest) = g.fed_all(s, a);
            if rest.len() > 0 {
                (t, h, rest + b)
            } else {
                h.fed_all(t, b)
            }
        }),
    decreases a.len(),
{
    reveal(GridState::fed_all);
    if a.len() == 0 {
        assert(a + b =~= b);
    } else {
        let (t, h, rest) = g.fed_until_file(s, a[0]);
        assert((a + b).skip(1) =~= a.skip(1) + b);
        assert((a + b)[0] == a[0]);
        if rest.len() > 0 {
            assert((a + b).update(0, rest) =~= a.update(0, rest) + b);
        } else {
            batches_join(h, t, a.skip(1), b);
        }
    }
}

/// A jump to a prompt keeps the cursor on the screen.
pub proof fn jumps_stay_on_screen(g: GridState, forward: bool)
    requires
        g.wf(),
    ensures
        g.jumped(forward).wf(),
{
    let stream = g.screen.marker_stream();
    let from = g.screen.scrollback.len() + g.row;
    if forward {
        prompt_after_bounds(stream, from);
    } else {
        prompt_before_bounds(stream, from);
    }
}

proof fn prompt_after_bounds(stream: Seq<u8>, from: int)
    ensures
        prompt_after(stream, from) matches Some(i) ==> from < i < stream.len(),
    decreases stream.len() - from,
{
    if 0 <= from && from + 1 < stream.len() && stream[from + 1] != 1 {
        prompt_after_bounds(stream, from + 1);
    }
}

proof fn prompt_before_bounds(stream: Seq<u8>, from: int)
    ensures
        prompt_before(stream, from) matches Some(i) ==> 0 <= i < from <= stream.len(),
    decreases from,
{
    if 0 < from <= stream.len() && stream[from - 1] != 1 {
        prompt_before_bounds(stream, from - 1);
    }
}

/// The events are those that the terminal has something for, each of them: the
/// clipboard, a question for it, a size, the bell, a notification, and a title
/// that is new.
pub proof fn events_tell_everything(
    o: OutboxState,
    title: Seq<char>,
    last: Seq<char>,
    e: EventState,
)
    ensures
        events_of(o, title, last).contains(e) <==> match e {
            EventState::ClipboardSet(s) => o.clipboard_set == Some(s),
            EventState::ClipboardQueryRequested => o.clipboard_query,
            EventState::WindowResizeRequest(size) => o.resize_request == Some(size),
            EventState::Bell => o.bell,
            EventState::Notification(s) => o.notification == Some(s),
            EventState::TitleChanged(s) => s == title && title != last && title.len() > 0,
            EventState::ChannelClosed => false,
        },
{
    reveal(events_of);
    let a = listed(
        match o.clipboard_set {
            Some(s) => Some(EventState::ClipboardSet(s)),
            None => None,
        },
    );
    let b = listed(
        if o.clipboard_query {
            Some(EventState::ClipboardQueryRequested)
        } else {
            None
        },
    );
    let c = listed(
        match o.resize_request {
            Some(size) => Some(EventState::WindowResizeRequest(size)),
            None => None,
        },
    );
    let d = listed(
        if o.bell {
            Some(EventState::Bell)
        } else {
            None
        },
    );
    let f = listed(
        match o.notification {
            Some(s) => Some(EventState::Notification(s)),
            None => None,
        },
    );
    let h = listed(
        if title != last && title.len() > 0 {
            Some(EventState::TitleChanged(title))
        } else {
            None
        },
    );
    contained_in_either(a, b, e);
    contained_in_either(a + b, c, e);
    contained_in_either(a + b + c, d, e);
    contained_in_either(a + b + c + d, f, e);
    contained_in_either(a + b + c + d + f, h, e);
    one_is_listed(
        match o.clipboard_set {
            Some(s) => Some(EventState::ClipboardSet(s)),
            None => None,
        },
        e,
    );
    one_is_listed(
        if o.clipboard_query {
            Some(EventState::ClipboardQueryRequested)
        } else {
            None
        },
        e,
    );
    one_is_listed(
        match o.resize_request {
            Some(size) => Some(EventState::WindowResizeRequest(size)),
            None => None,
        },
        e,
    );
    one_is_listed(
        if o.bell {
            Some(EventState::Bell)
        } else {
            None
        },
        e,
    );
    one_is_listed(
        match o.notification {
            Some(s) => Some(EventState::Notification(s)),
            None => None,
        },
        e,
    );
    one_is_listed(
        if title != last && title.len() > 0 {
            Some(EventState::TitleChanged(title))
        } else {
            None
        },
        e,
    );
}

proof fn one_is_listed(o: Option<EventState>, e: EventState)
    ensures
        listed(o).contains(e) <==> o == Some(e),
{
    if o == Some(e) {
        assert(listed(o)[0] == e);
    }
}

proof fn contained_in_either(a: Seq<EventState>, b: Seq<EventState>, e: EventState)
    ensures
        (a + b).contains(e) <==> a.contains(e) || b.contains(e),
{
    if a.contains(e) {
        let k = choose|k: int| 0 <= k < a.len() && a[k] == e;
        assert((a + b)[k] == e);
    }
    if b.contains(e) {
        let k = choose|k: int| 0 <= k < b.len() && b[k] == e;
        assert((a + b)[a.len() + k] == e);
    }
    if (a + b).contains(e) {
        let k = choose|k: int| 0 <= k < (a + b).len() && (a + b)[k] == e;
        if k < a.len() {
            assert(a[k] == e);
        } else {
            assert(b[k - a.len()] == e);
        }
    }
}

/// Scrolling by lines stays in the history, and scrolling back leads to where
/// the view was; no command that scrolls changes a cell or moves the cursor.
pub proof fn scrolling_commands(g: GridState, n: i32)
    requires
        0 <= n,
        0 <= g.view.offset <= g.screen.scrollback.len(),
        g.view.fraction == 0,
    ensures
        ({
            let up = g.commanded(Command::ScrollBy { amount: n });
            let down = g.commanded(Command::ScrollBy { amount: (-n) as i32 });
            let home = g.commanded(Command::ResetScroll);
            &&& g.view.offset <= up.view.offset <= g.screen.scrollback.len()
            &&& 0 <= down.view.offset <= g.view.offset
            &&& g.view.offset + n <= g.screen.scrollback.len() ==> up.view.offset == g.view.offset
                + n && up.commanded(Command::ScrollBy { amount: (-n) as i32 }) == g
            &&& n <= g.view.offset ==> down.view.offset == g.view.offset - n && down.commanded(
                Command::ScrollBy { amount: n },
            ) == g
            &&& home.view.offset == 0
            &&& up == (GridState { view: up.view, ..g })
            &&& down == (GridState { view: down.view, ..g })
            &&& home == (GridState { view: home.view, ..g })
        }),
{
}

/// An application that asked for it is told when the window gains and loses the
/// focus, and one that did not is not.
pub proof fn focus_is_told(g: GridState)
    requires
        g.outbox.responses.len() == 0,
    ensures
        ({
            let told = g.modes.focus_reporting;
            let gained = g.reply_to(Command::FocusIn);
            let lost = g.reply_to(Command::FocusOut);
            &&& gained is Write && lost is Write
            &&& gained->Write_0 == if told {
                seq![seq![0x1bu8, 0x5b, 0x49]]
            } else {
                Seq::empty()
            }
            &&& lost->Write_0 == if told {
                seq![seq![0x1bu8, 0x5b, 0x4f]]
            } else {
                Seq::empty()
            }
        }),
{
    reveal_strlit("\x1b[I");
    reveal_strlit("\x1b[O");
    ascii_bytes("\x1b[I"@, seq![0x1bu8, 0x5b, 0x49]);
    ascii_bytes("\x1b[O"@, seq![0x1bu8, 0x5b, 0x4f]);
    assert(g.outbox.responses =~= Seq::empty());
}

/// The link that is told of a cell is the one that a click on it follows.
pub proof fn told_links_are_followed(g: GridState, col: int, row: int)
    requires
        0 <= col,
        0 <= row,
    ensures
        g.link_at(col, row) == crate::pointer::link_at(g, row, col),
        g.link_at(col, row) is Some <==> on_link(g, col, row),
        on_link(g, col, row) ==> g.link_at(col, row) == Some(
            g.links.urls[g.screen.active()[row][col].hyperlink_id],
        ),
{
}

/// A cell of the screen belongs to a link that leads somewhere.
pub open spec fn on_link(g: GridState, col: int, row: int) -> bool {
    let id = g.screen.active()[row][col].hyperlink_id;
    0 <= col < g.screen.cols && 0 <= row < g.screen.rows && id != 0 && g.links.urls.dom().contains(
        id,
    )
}

} // verus!
