//! What the window's events mean: shortcuts, searching, scrolling, selecting,
//! clipboard and hyperlink policy, and the geometry between pixels and cells.
use vstd::prelude::*;
use vstd::utf8::*;

use crate::clipboard::ClipboardManager;
use crate::codec::base64_text;
use crate::engine::{find_prompt, numbered, prompt_after_is, prompt_before_is, prompt_target};
use crate::grid::replies::{ascii_bytes, written_numbers_are_read};
use crate::grid::state::{max, min, monus, GridState, Viewport};
use crate::grid::view::{positive_bits, range_dirtied, strings};
use crate::grid::{Grid, MouseEncoding, WinSize};
use crate::keys::{
    is_control, control_char, press_bytes, pressed_key, text_view, Key, KeyProtocol,
    ModifiersState, NamedKey,
};
use crate::mouse::{MouseButton, MouseEvent, MouseEventType};
use crate::search::{
    next_and_prev_undo_each_other, next_index, prev_index, SearchMatch, SearchState, SearchView,
};
use crate::selection::{selected_text, Selection, SelectionMode};
use crate::text::{
    chars_of, decimal, decimal_text, lit, numbers_read_back, put_str, same_text, stands_at,
    string_of, text_at, unsigned_number,
};

verus! {

// ---------------------------------------------------------------------------
// Hyperlinks
// ---------------------------------------------------------------------------

/// Where `://` first stands in a text, from `from` on; -1 where it does not.
pub open spec fn scheme_end(url: Seq<char>, from: int) -> int
    decreases url.len() - from,
{
    if from < 0 || from >= url.len() {
        -1
    } else if stands_at(url, from, "://"@) {
        from
    } else {
        scheme_end(url, from + 1)
    }
}

/// A hyperlink may be opened: it has no control character, and the scheme in
/// front of its first `://` is on the list.
pub open spec fn allowed(url: Seq<char>, schemes: Seq<Seq<char>>) -> bool {
    &&& forall|i: int| 0 <= i < url.len() ==> !is_control(#[trigger] url[i])
    &&& scheme_end(url, 0) >= 0
    &&& schemes.contains(url.take(scheme_end(url, 0)))
}

/// Permit URLs without embedded control characters whose scheme is on the
/// configured allowlist. Hyperlinks are terminal input and must not be allowed
/// to invoke arbitrary URI handlers.
pub fn hyperlink_is_allowed(url: &str, schemes: &Vec<String>) -> (r: bool)
    ensures
        r == allowed(url@, strings(schemes@)),
{
    let chars = chars_of(url);
    let n: usize = chars.len();
    let mut i: usize = 0;
    while i < n
        invariant
            i <= n,
            n == chars@.len(),
            chars@ == url@,
            forall|j: int| 0 <= j < i ==> !is_control(#[trigger] url@[j]),
        decreases n - i,
    {
        if control_char(chars[i]) {
            return false;
        }
        i += 1;
    }
    let mut p: usize = 0;
    while p < n && !text_at(chars.as_slice(), p, "://")
        invariant
            p <= n,
            n == chars@.len(),
            chars@ == url@,
            scheme_end(url@, 0) == scheme_end(url@, p as int),
        decreases n - p,
    {
        p += 1;
    }
    if p >= n {
        return false;
    }
    let scheme = string_of(chars.as_slice(), 0, p);
    proof {
        assert(url@.subrange(0, p as int) =~= url@.take(p as int));
    }
    let ghost list = strings(schemes@);
    let count: usize = schemes.len();
    let mut k: usize = 0;
    while k < count
        invariant
            k <= count,
            count == schemes@.len(),
            list == strings(schemes@),
            scheme@ == url@.take(p as int),
            p == scheme_end(url@, 0),
            forall|j: int| 0 <= j < url@.len() ==> !is_control(#[trigger] url@[j]),
            forall|j: int| 0 <= j < k ==> list[j] != scheme@,
        decreases count - k,
    {
        if same_text(schemes[k].as_str(), scheme.as_str()) {
            proof {
                assert(list[k as int] == scheme@);
            }
            return true;
        }
        proof {
            assert(list[k as int] == schemes@[k as int]@);
        }
        k += 1;
    }
    false
}

// ---------------------------------------------------------------------------
// Waking the event loop
// ---------------------------------------------------------------------------

/// Schedule at most one wake event while output is pending: where one is
/// pending nothing is sent, and where sending fails none becomes pending.
/// Returns true when an event was sent.
pub fn schedule_pty_wake<F: FnOnce() -> bool>(pending: &mut bool, send: F) -> (r: bool)
    requires
        !*old(pending) ==> call_requires(send, ()),
    ensures
        *old(pending) ==> !r && *final(pending),
        !*old(pending) ==> call_ensures(send, (), r) && *final(pending) == r,
{
    if *pending {
        return false;
    }
    let sent = send();
    *pending = sent;
    sent
}

// ---------------------------------------------------------------------------
// Command line
// ---------------------------------------------------------------------------

/// What the command line asks for.
#[derive(Debug)]
pub struct Options {
    /// Command to run instead of the default shell.
    pub command: Option<String>,
    pub cols: Option<u16>,
    pub rows: Option<u16>,
}

/// What options say.
#[verifier::ext_equal]
pub struct OptionsState {
    pub command: Option<Seq<char>>,
    pub cols: Option<int>,
    pub rows: Option<int>,
}

impl View for Options {
    type V = OptionsState;

    open spec fn view(&self) -> OptionsState {
        OptionsState {
            command: crate::grid::cell::text_view(self.command),
            cols: match self.cols {
                Some(n) => Some(n as int),
                None => None,
            },
            rows: match self.rows {
                Some(n) => Some(n as int),
                None => None,
            },
        }
    }
}

/// A size written in decimal.
pub open spec fn size_of(s: Seq<char>) -> Option<int> {
    unsigned_number(encode_utf8(s), 10, 65535)
}

/// The options after the arguments from `i` on: a later option replaces an
/// earlier one, and what is no option is passed over.
pub open spec fn options_from(o: OptionsState, args: Seq<Seq<char>>, i: int) -> OptionsState
    decreases args.len() - i,
{
    if i < 0 || i >= args.len() {
        o
    } else if args[i] == "-e"@ || args[i] == "--command"@ {
        if i + 1 < args.len() {
            options_from((OptionsState { command: Some(args[i + 1]), ..o }), args, i + 2)
        } else {
            o
        }
    } else if args[i] == "--cols"@ {
        if i + 1 < args.len() {
            options_from((OptionsState { cols: size_of(args[i + 1]), ..o }), args, i + 2)
        } else {
            o
        }
    } else if args[i] == "--rows"@ {
        if i + 1 < args.len() {
            options_from((OptionsState { rows: size_of(args[i + 1]), ..o }), args, i + 2)
        } else {
            o
        }
    } else {
        options_from(o, args, i + 1)
    }
}

fn parse_size(s: &str) -> (r: Option<u16>)
    ensures
        r is Some <==> size_of(s@) is Some,
        r matches Some(n) ==> size_of(s@) == Some(n as int),
{
    let mut bytes: Vec<u8> = Vec::new();
    put_str(&mut bytes, s);
    proof {
        assert(bytes@ =~= encode_utf8(s@));
    }
    match crate::text::parse_unsigned(bytes.as_slice(), 10, 65535) {
        Some(n) => Some(n as u16),
        None => None,
    }
}

/// Read the command line: `[-e command] [--cols N] [--rows N]`, without the
/// program's name.
pub fn parse_args(args: &Vec<String>) -> (r: Options)
    ensures
        r@ == options_from(
            OptionsState { command: None, cols: None, rows: None },
            strings(args@),
            0,
        ),
{
    let mut o = Options { command: None, cols: None, rows: None };
    let n: usize = args.len();
    let ghost all = strings(args@);
    let ghost goal = options_from(
        OptionsState { command: None, cols: None, rows: None },
        all,
        0,
    );
    let mut i: usize = 0;
    while i < n
        invariant
            i <= n,
            n == args@.len(),
            all == strings(args@),
            goal == options_from(
                OptionsState { command: None, cols: None, rows: None },
                all,
                0,
            ),
            options_from(o@, all, i as int) == goal,
        decreases n - i,
    {
        let ghost before = o@;
        let arg = args[i].as_str();
        proof {
            assert(all[i as int] == arg@);
        }
        let command = same_text(arg, "-e") || same_text(arg, "--command");
        let cols = !command && same_text(arg, "--cols");
        let rows = !command && !cols && same_text(arg, "--rows");
        if command || cols || rows {
            if i + 1 >= n {
                return o;
            }
            let value = args[i + 1].as_str();
            proof {
                assert(all[i + 1] == value@);
            }
            if command {
                o.command = Some(value.to_owned());
                proof {
                    assert(o@ =~= OptionsState { command: Some(value@), ..before });
                }
            } else if cols {
                o.cols = parse_size(value);
                proof {
                    assert(o@ =~= OptionsState { cols: size_of(value@), ..before });
                }
            } else {
                o.rows = parse_size(value);
                proof {
                    assert(o@ =~= OptionsState { rows: size_of(value@), ..before });
                }
            }
            i += 2;
        } else {
            i += 1;
        }
    }
    o
}

// ---------------------------------------------------------------------------
// Shortcuts
// ---------------------------------------------------------------------------

/// A keyboard shortcut.
#[derive(Debug, Clone, Copy, PartialEq, Eq, Structural)]
pub enum Shortcut {
    /// Copy the selection (Ctrl+Shift+C).
    Copy,
    /// Paste (Ctrl+Shift+V).
    Paste,
    /// Open the search bar (Ctrl+Shift+F).
    Search,
    /// Search backwards (Ctrl+R).
    ReverseSearch,
    /// Select the whole screen (Ctrl+Shift+A).
    SelectAll,
    /// Open a tab (Ctrl+Shift+T).
    NewTab,
    /// Close the tab (Ctrl+Shift+W).
    CloseTab,
    /// Go to the next tab (Ctrl+PageDown).
    NextTab,
    /// Go to the previous tab (Ctrl+PageUp).
    PrevTab,
    /// Go to the tab with this number, from 1 to 9 (Ctrl+Shift+1..9).
    SwitchTo(u8),
}

/// The shortcut of a character with Ctrl and Shift held.
pub open spec fn shifted_shortcut(c: char) -> Option<Shortcut> {
    if c == 'C' {
        Some(Shortcut::Copy)
    } else if c == 'V' {
        Some(Shortcut::Paste)
    } else if c == 'F' {
        Some(Shortcut::Search)
    } else if c == 'A' {
        Some(Shortcut::SelectAll)
    } else if c == 'T' {
        Some(Shortcut::NewTab)
    } else if c == 'W' {
        Some(Shortcut::CloseTab)
    } else if '1' <= c <= '9' {
        Some(Shortcut::SwitchTo((c as int - 0x30) as u8))
    } else {
        None
    }
}

/// The shortcut that a key is, if any. Ctrl with other letters is left to the
/// application, which gets the control codes.
pub open spec fn shortcut_of(key: Key, m: ModifiersState) -> Option<Shortcut> {
    match key {
        Key::Character(s) => if s@.len() != 1 || !m.control {
            None
        } else if m.shift {
            shifted_shortcut(s@[0])
        } else if s@[0] == 'r' {
            Some(Shortcut::ReverseSearch)
        } else {
            None
        },
        Key::Named(NamedKey::PageDown) => if m.control && !m.shift {
            Some(Shortcut::NextTab)
        } else {
            None
        },
        Key::Named(NamedKey::PageUp) => if m.control && !m.shift {
            Some(Shortcut::PrevTab)
        } else {
            None
        },
        _ => None,
    }
}

fn shortcut_char(c: char) -> (r: Option<Shortcut>)
    ensures
        r == shifted_shortcut(c),
{
    if c == 'C' {
        Some(Shortcut::Copy)
    } else if c == 'V' {
        Some(Shortcut::Paste)
    } else if c == 'F' {
        Some(Shortcut::Search)
    } else if c == 'A' {
        Some(Shortcut::SelectAll)
    } else if c == 'T' {
        Some(Shortcut::NewTab)
    } else if c == 'W' {
        Some(Shortcut::CloseTab)
    } else if '1' <= c && c <= '9' {
        let n: u32 = c as u32;
        Some(Shortcut::SwitchTo((n - 0x30) as u8))
    } else {
        None
    }
}

/// The shortcut that a key is, if any.
pub fn shortcut(key: &Key, m: &ModifiersState) -> (r: Option<Shortcut>)
    ensures
        r == shortcut_of(*key, *m),
{
    match key {
        Key::Character(s) => {
            let chars = chars_of(s.as_str());
            if chars.len() != 1 || !m.control {
                None
            } else if m.shift {
                shortcut_char(chars[0])
            } else if chars[0] == 'r' {
                Some(Shortcut::ReverseSearch)
            } else {
                None
            }
        },
        Key::Named(NamedKey::PageDown) => if m.control && !m.shift {
            Some(Shortcut::NextTab)
        } else {
            None
        },
        Key::Named(NamedKey::PageUp) => if m.control && !m.shift {
            Some(Shortcut::PrevTab)
        } else {
            None
        },
        _ => None,
    }
}

/// The index of the tab that a number names, where there is one.
pub fn tab_index(number: u8, tabs: usize) -> (r: Option<usize>)
    ensures
        r == if 1 <= number <= tabs {
            Some((number - 1) as usize)
        } else {
            None
        },
{
    if 1 <= number && number as usize <= tabs {
        Some(number as usize - 1)
    } else {
        None
    }
}

/// The bytes of a paste: the text, between the paste brackets where the
/// application asked for them.
pub fn paste_bytes(text: &str, bracketed: bool) -> (r: Vec<u8>)
    ensures
        r@ == if bracketed {
            lit("\x1b[200~") + encode_utf8(text@) + lit("\x1b[201~")
        } else {
            encode_utf8(text@)
        },
{
    let mut data: Vec<u8> = Vec::new();
    if bracketed {
        put_str(&mut data, "\x1b[200~");
    }
    put_str(&mut data, text);
    if bracketed {
        put_str(&mut data, "\x1b[201~");
    }
    proof {
        assert(data@ =~= if bracketed {
            lit("\x1b[200~") + encode_utf8(text@) + lit("\x1b[201~")
        } else {
            encode_utf8(text@)
        });
    }
    data
}

// ---------------------------------------------------------------------------
// Searching
// ---------------------------------------------------------------------------

/// Remove the last character of a query.
pub fn remove_last_query_char(query: &mut String)
    ensures
        final(query)@ == if old(query)@.len() > 0 {
            old(query)@.drop_last()
        } else {
            old(query)@
        },
{
    query.pop();
}

impl SearchView {
    /// Another query, searched for in `lines`.
    pub open spec fn asking(self, query: Seq<char>, lines: Seq<Seq<char>>) -> SearchView {
        (SearchView { query, current_match: 0, ..self }).compiled().searched(lines)
    }

    /// The next match, or the one before.
    pub open spec fn stepped(self, forward: bool) -> SearchView {
        if self.matches.len() == 0 {
            self
        } else {
            SearchView {
                current_match: if forward {
                    next_index(self.current_match, self.matches.len() as int)
                } else {
                    prev_index(self.current_match, self.matches.len() as int)
                },
                ..self
            }
        }
    }
}

/// What a key does while the search bar is open.
pub enum SearchStep {
    /// Close the search bar.
    Close,
    /// Search, and go to the match after the first.
    Find,
    /// Go to the next match, or the one before.
    Step(bool),
    /// Remove the last character of the query, and search.
    Erase,
    /// Add this to the query, and search.
    Type(Seq<char>),
    /// Nothing.
    Pass,
}

/// What a key does while the search bar is open. F3 and Ctrl+G step to the
/// next match, with Shift to the one before; Shift may have made the `g` a
/// capital.
pub open spec fn search_step(key: Key, m: ModifiersState) -> SearchStep {
    match key {
        Key::Named(NamedKey::Escape) => SearchStep::Close,
        Key::Named(NamedKey::Enter) => SearchStep::Find,
        Key::Named(NamedKey::F3) => SearchStep::Step(!m.shift),
        Key::Named(NamedKey::Backspace) => SearchStep::Erase,
        Key::Character(s) => if m.control && (s@ == "g"@ || (s@ == "G"@ && m.shift)) {
            SearchStep::Step(!m.shift)
        } else {
            SearchStep::Type(s@)
        },
        _ => SearchStep::Pass,
    }
}

/// The search after a key.
pub open spec fn search_after(s: SearchView, step: SearchStep, lines: Seq<Seq<char>>) -> SearchView {
    match step {
        SearchStep::Close => SearchView { active: false, ..s.emptied() },
        SearchStep::Find => s.searched(lines).stepped(true),
        SearchStep::Step(forward) => s.stepped(forward),
        SearchStep::Erase => s.asking(
            if s.query.len() > 0 {
                s.query.drop_last()
            } else {
                s.query
            },
            lines,
        ),
        SearchStep::Type(text) => s.asking(s.query + text, lines),
        SearchStep::Pass => s,
    }
}

impl GridState {
    /// The cells of a match to be drawn again.
    pub open spec fn match_dirtied(self, m: SearchMatch) -> GridState {
        let s = self.screen;
        let end = min(m.end_col as int, s.cols);
        if m.row < s.rows && m.start_col < end {
            self.with_screen(
                s.put_line(
                    m.row as int,
                    range_dirtied(s.active()[m.row as int], m.start_col as int, end),
                ),
            )
        } else {
            self
        }
    }

    /// The match that a step came to, to be drawn again.
    pub open spec fn match_shown(self, s: SearchView, step: SearchStep) -> GridState {
        let goes = match step {
            SearchStep::Find => true,
            SearchStep::Step(_) => true,
            _ => false,
        };
        if goes && 0 <= s.current_match < s.matches.len() {
            self.match_dirtied(s.matches[s.current_match])
        } else {
            self
        }
    }
}

fn show_match(grid: &mut Grid, found: Option<SearchMatch>)
    requires
        old(grid).wf(),
    ensures
        final(grid).wf(),
        final(grid)@ == match found {
            Some(m) => old(grid)@.match_dirtied(m),
            None => old(grid)@,
        },
{
    if let Some(m) = found {
        grid.mark_match_dirty(m.row, m.start_col, m.end_col);
    }
}

fn step_search(search: &mut SearchState, forward: bool) -> (r: Option<SearchMatch>)
    requires
        old(search)@.current_match < usize::MAX,
    ensures
        final(search)@ == old(search)@.stepped(forward),
        r == if 0 <= final(search)@.current_match < final(search)@.matches.len() {
            Some(final(search)@.matches[final(search)@.current_match])
        } else {
            None
        },
{
    let ghost n = search@.matches.len() as int;
    let ghost i = search@.current_match;
    if forward {
        proof {
            if n > 0 {
                vstd::arithmetic::div_mod::lemma_mod_bound(i + 1, n);
            }
        }
        search.next()
    } else {
        search.prev()
    }
}

fn ask(search: &mut SearchState, query: String, lines: &Vec<String>)
    ensures
        final(search)@ == old(search)@.asking(query@, strings(lines@)),
{
    search.update_query(query.as_str());
    search.search(lines);
}

/// Handle a key while the search bar is open: Escape closes it, Enter searches
/// and goes on, F3 and Ctrl+G go on, and back with Shift, Backspace and
/// characters edit the query. Returns false for any other key.
pub fn search_key(
    search: &mut SearchState,
    grid: &mut Grid,
    key: &Key,
    m: &ModifiersState,
) -> (r: bool)
    requires
        old(grid).wf(),
        old(search)@.current_match < usize::MAX,
    ensures
        final(grid).wf(),
        ({
            let step = search_step(*key, *m);
            &&& r == (step !is Pass)
            &&& final(search)@ == search_after(old(search)@, step, old(grid)@.screen.texts())
            &&& final(grid)@ == old(grid)@.match_shown(final(search)@, step)
        }),
{
    match key {
        Key::Named(NamedKey::Escape) => {
            search.deactivate();
            true
        },
        Key::Named(NamedKey::Enter) => {
            let lines = grid.all_lines();
            search.search(&lines);
            let found = step_search(search, true);
            show_match(grid, found);
            true
        },
        Key::Named(NamedKey::F3) => {
            let found = step_search(search, !m.shift);
            show_match(grid, found);
            true
        },
        Key::Named(NamedKey::Backspace) => {
            let mut query = search.query.clone();
            remove_last_query_char(&mut query);
            let lines = grid.all_lines();
            ask(search, query, &lines);
            true
        },
        Key::Character(s) => {
            if m.control && (same_text(s.as_str(), "g") || (same_text(s.as_str(), "G")
                && m.shift)) {
                let found = step_search(search, !m.shift);
                show_match(grid, found);
            } else {
                let mut query = search.query.clone();
                query.append(s.as_str());
                let lines = grid.all_lines();
                ask(search, query, &lines);
            }
            true
        },
        _ => false,
    }
}

// ---------------------------------------------------------------------------
// Keys for the application, and scrolling
// ---------------------------------------------------------------------------

/// A key that moves the view in place of going to the application.
#[derive(Debug, Clone, Copy, PartialEq, Eq, Structural)]
pub enum Navigation {
    /// Ctrl+Shift+Up.
    PrevPrompt,
    /// Ctrl+Shift+Down.
    NextPrompt,
    /// Shift+PageUp.
    PageUp,
    /// Shift+PageDown.
    PageDown,
}

/// Which way a key moves the view, if at all.
pub open spec fn navigation_of(key: Key, m: ModifiersState) -> Option<Navigation> {
    match key {
        Key::Named(NamedKey::ArrowUp) => if m.control && m.shift {
            Some(Navigation::PrevPrompt)
        } else {
            None
        },
        Key::Named(NamedKey::ArrowDown) => if m.control && m.shift {
            Some(Navigation::NextPrompt)
        } else {
            None
        },
        Key::Named(NamedKey::PageUp) => if m.shift {
            Some(Navigation::PageUp)
        } else {
            None
        },
        Key::Named(NamedKey::PageDown) => if m.shift {
            Some(Navigation::PageDown)
        } else {
            None
        },
        _ => None,
    }
}

fn navigation(key: &Key, m: &ModifiersState) -> (r: Option<Navigation>)
    ensures
        r == navigation_of(*key, *m),
{
    match key {
        Key::Named(NamedKey::ArrowUp) => if m.control && m.shift {
            Some(Navigation::PrevPrompt)
        } else {
            None
        },
        Key::Named(NamedKey::ArrowDown) => if m.control && m.shift {
            Some(Navigation::NextPrompt)
        } else {
            None
        },
        Key::Named(NamedKey::PageUp) => if m.shift {
            Some(Navigation::PageUp)
        } else {
            None
        },
        Key::Named(NamedKey::PageDown) => if m.shift {
            Some(Navigation::PageDown)
        } else {
            None
        },
        _ => None,
    }
}

impl GridState {
    /// The view scrolled to the bottom.
    pub open spec fn live(self) -> GridState {
        GridState { view: Viewport { offset: 0, fraction: 0 }, ..self }
    }

    /// The view scrolled up by whole lines.
    pub open spec fn offset_by(self, offset: int) -> GridState {
        GridState { view: Viewport { offset, ..self.view }, ..self }
    }

    /// The view after a navigation key, with pages of `page` lines: a prompt in
    /// the scrollback comes to the top of the view, one on the screen takes the
    /// cursor, and with no further prompt below the view returns to the bottom.
    pub open spec fn navigated(self, nav: Navigation, page: int) -> GridState {
        let history = self.screen.scrollback.len() as int;
        match nav {
            Navigation::PageUp => self.offset_by(min(self.view.offset + page, history)),
            Navigation::PageDown => self.offset_by(monus(self.view.offset, page)),
            _ => match prompt_target(self, nav == Navigation::NextPrompt) {
                Some(i) => if i < history {
                    self.offset_by(history - i)
                } else {
                    (GridState { row: i - history, ..self.live() }).all_dirty()
                },
                None => if nav == Navigation::NextPrompt {
                    self.live().all_dirty()
                } else {
                    self
                },
            },
        }
    }

    /// How the application wants its keys.
    pub open spec fn key_protocol(self) -> KeyProtocol {
        KeyProtocol {
            kitty_flags: self.keyboard.flags,
            modify_other_keys: self.modes.modify_other_keys,
            application_cursor_keys: self.modes.application_cursor_keys,
        }
    }
}

fn go_to_prompt(grid: &mut Grid, forward: bool)
    requires
        old(grid).wf(),
        numbered(old(grid)@),
    ensures
        final(grid).wf(),
        final(grid)@ == old(grid)@.navigated(
            if forward {
                Navigation::NextPrompt
            } else {
                Navigation::PrevPrompt
            },
            0,
        ),
{
    let history: usize = grid.screen.scrollback.len();
    match find_prompt(grid, forward) {
        Some(i) => {
            if i < history {
                grid.scrollback_offset = history - i;
            } else {
                grid.reset_scroll();
                grid.cursor.row = i - history;
                grid.mark_all_dirty();
            }
        },
        None => {
            if forward {
                grid.reset_scroll();
                grid.mark_all_dirty();
            }
        },
    }
}

/// Handle a key press that is no shortcut: keys that move the view do so, and
/// any other key returns the view to the bottom and gives the bytes to send.
pub fn key_pressed(
    grid: &mut Grid,
    key: &Key,
    m: &ModifiersState,
    text: Option<&str>,
    repeat: bool,
    page: u16,
) -> (r: Vec<u8>)
    requires
        old(grid).wf(),
        numbered(old(grid)@),
    ensures
        final(grid).wf(),
        match navigation_of(*key, *m) {
            Some(nav) => {
                &&& r@.len() == 0
                &&& final(grid)@ == old(grid)@.navigated(nav, page as int)
            },
            None => {
                &&& r@ == press_bytes(
                    *key,
                    *m,
                    text_view(text),
                    repeat,
                    old(grid)@.key_protocol(),
                )
                &&& final(grid)@ == if old(grid)@.view.offset > 0 || positive_bits(
                    old(grid)@.view.fraction,
                ) {
                    old(grid)@.live()
                } else {
                    old(grid)@
                }
                &&& final(grid)@.view.offset == 0
                &&& final(grid)@.screen == old(grid)@.screen && final(grid)@.row
                    == old(grid)@.row && final(grid)@.col == old(grid)@.col
            },
        },
{
    match navigation(key, m) {
        Some(Navigation::PrevPrompt) => {
            go_to_prompt(grid, false);
            Vec::new()
        },
        Some(Navigation::NextPrompt) => {
            go_to_prompt(grid, true);
            Vec::new()
        },
        Some(Navigation::PageUp) => {
            let len: usize = grid.screen.scrollback.len();
            let up: usize = page as usize;
            grid.scrollback_offset = if grid.scrollback_offset >= len || up >= len
                - grid.scrollback_offset {
                len
            } else {
                grid.scrollback_offset + up
            };
            Vec::new()
        },
        Some(Navigation::PageDown) => {
            grid.scrollback_offset = grid.scrollback_offset.saturating_sub(page as usize);
            Vec::new()
        },
        None => {
            if grid.is_scrolled() {
                grid.reset_scroll();
            }
            let protocol = KeyProtocol {
                kitty_flags: grid.keyboard.kitty_flags,
                modify_other_keys: grid.modes.modify_other_keys,
                application_cursor_keys: grid.modes.application_cursor_keys,
            };
            pressed_key(key, m, text, repeat, protocol)
        },
    }
}

// ---------------------------------------------------------------------------
// Mouse and selection
// ---------------------------------------------------------------------------

/// The bytes that report a mouse event, or `None` where the legacy encoding
/// cannot write its button.
pub fn mouse_bytes(event: &MouseEvent, encoding: MouseEncoding) -> (r: Option<Vec<u8>>)
    ensures
        r is None <==> encoding == MouseEncoding::X10 && !event.fits_x10(),
        r matches Some(v) ==> v@ == encode_utf8(event.encoded(encoding)),
{
    if encoding == MouseEncoding::X10 && !event.fits() {
        return None;
    }
    let text = event.encode(encoding);
    let mut v: Vec<u8> = Vec::new();
    put_str(&mut v, text.as_str());
    proof {
        assert(v@ =~= encode_utf8(event.encoded(encoding)));
    }
    Some(v)
}

/// The button of a turn of the wheel, by the signs of its two directions: the
/// vertical one counts first.
pub fn wheel_button(horizontal: i8, vertical: i8) -> (r: Option<MouseButton>)
    ensures
        r == if vertical > 0 {
            Some(MouseButton::WheelUp)
        } else if vertical < 0 {
            Some(MouseButton::WheelDown)
        } else if horizontal > 0 {
            Some(MouseButton::WheelRight)
        } else if horizontal < 0 {
            Some(MouseButton::WheelLeft)
        } else {
            None
        },
{
    if vertical > 0 {
        Some(MouseButton::WheelUp)
    } else if vertical < 0 {
        Some(MouseButton::WheelDown)
    } else if horizontal > 0 {
        Some(MouseButton::WheelRight)
    } else if horizontal < 0 {
        Some(MouseButton::WheelLeft)
    } else {
        None
    }
}

/// A mouse event at a cell, counting from 1; a button that has no number is
/// reported as the left one.
pub fn mouse_event(
    button: Option<MouseButton>,
    event_type: MouseEventType,
    col: u32,
    row: u32,
    m: &ModifiersState,
) -> (r: MouseEvent)
    ensures
        r == (MouseEvent {
            button: match button {
                Some(b) => b,
                None => MouseButton::Left,
            },
            event_type,
            col,
            row,
            shift: m.shift,
            ctrl: m.control,
            alt: m.alt,
        }),
{
    let button = match button {
        Some(b) => b,
        None => MouseButton::Left,
    };
    MouseEvent { button, event_type, col, row, shift: m.shift, ctrl: m.control, alt: m.alt }
}

/// How a selection begins: a block with Alt, whole lines with Shift, characters
/// otherwise.
pub fn selection_mode(m: &ModifiersState) -> (r: SelectionMode)
    ensures
        r == if m.alt {
            SelectionMode::Rectangular
        } else if m.shift {
            SelectionMode::Line
        } else {
            SelectionMode::Char
        },
{
    if m.alt {
        SelectionMode::Rectangular
    } else if m.shift {
        SelectionMode::Line
    } else {
        SelectionMode::Char
    }
}

impl GridState {
    /// One cell to be drawn again, where it is on the screen.
    pub open spec fn cell_marked(self, row: int, col: int) -> GridState {
        if 0 <= col < self.screen.cols && 0 <= row < self.screen.rows {
            self.with_screen(self.screen.cell_dirtied(row, col))
        } else {
            self
        }
    }

    /// The selected cells of the rows from `from` on, before column `col` of
    /// row `row`, to be drawn again.
    pub open spec fn selection_marked(
        self,
        sel: Selection,
        cols: int,
        from: int,
        row: int,
        col: int,
    ) -> GridState
        decreases row - from + 1, col,
    {
        if row < from {
            self
        } else if col > 0 {
            let rest = self.selection_marked(sel, cols, from, row, col - 1);
            if sel.selects(row, col - 1) {
                rest.cell_marked(row, col - 1)
            } else {
                rest
            }
        } else {
            self.selection_marked(sel, cols, from, row - 1, cols)
        }
    }

    /// The selection changed from `was` to `is` by a move to `row`: the cells
    /// that were selected and those that are now are to be drawn again.
    pub open spec fn dragged(self, was: Selection, is: Selection, row: int, cols: int) -> GridState {
        let (s, e) = was.span();
        self.selection_marked(was, cols, s.0 as int, e.0 as int, cols).selection_marked(
            is,
            cols,
            min(s.0 as int, row),
            max(e.0 as int, row),
            cols,
        )
    }
}

fn mark_row(grid: &mut Grid, sel: &Selection, cols: usize, from: usize, row: usize)
    requires
        old(grid).wf(),
        from <= row,
    ensures
        final(grid).wf(),
        forall|g: GridState|
            old(grid)@ == #[trigger] g.selection_marked(
                *sel,
                cols as int,
                from as int,
                row - 1,
                cols as int,
            ) ==> final(grid)@ == g.selection_marked(
                *sel,
                cols as int,
                from as int,
                row as int,
                cols as int,
            ),
{
    let mut col: usize = 0;
    while col < cols
        invariant
            col <= cols,
            from <= row,
            grid.wf(),
            forall|g: GridState|
                old(grid)@ == #[trigger] g.selection_marked(
                    *sel,
                    cols as int,
                    from as int,
                    row - 1,
                    cols as int,
                ) ==> grid@ == g.selection_marked(
                    *sel,
                    cols as int,
                    from as int,
                    row as int,
                    col as int,
                ),
        decreases cols - col,
    {
        if sel.contains(row, col) {
            grid.mark_dirty(col, row);
        }
        col += 1;
    }
}

/// Mark the selected cells of the rows `from` to `to` to be drawn again.
pub fn mark_selected(grid: &mut Grid, sel: &Selection, cols: usize, from: usize, to: usize)
    requires
        old(grid).wf(),
        from <= to,
    ensures
        final(grid).wf(),
        final(grid)@ == old(grid)@.selection_marked(
            *sel,
            cols as int,
            from as int,
            to as int,
            cols as int,
        ),
{
    let mut row: usize = from;
    let ghost g = grid@;
    loop
        invariant_except_break
            from <= row <= to,
            grid.wf(),
            grid@ == g.selection_marked(*sel, cols as int, from as int, row - 1, cols as int),
        ensures
            grid.wf(),
            grid@ == g.selection_marked(*sel, cols as int, from as int, to as int, cols as int),
        decreases to - row,
    {
        mark_row(grid, sel, cols, from, row);
        if row == to {
            break;
        }
        row += 1;
    }
}

/// Move the end of a selection while the button is held, and mark the cells
/// that were selected and those that are now.
pub fn drag_selection(
    grid: &mut Grid,
    sel: &mut Selection,
    row: usize,
    col: usize,
    cols: u16,
)
    requires
        old(grid).wf(),
    ensures
        final(grid).wf(),
        *final(sel) == if old(sel).selecting {
            Selection { end: (row, col), ..*old(sel) }
        } else {
            *old(sel)
        },
        final(grid)@ == old(grid)@.dragged(*old(sel), *final(sel), row as int, cols as int),
{
    let (s, e) = sel.normalized();
    mark_selected(grid, sel, cols as usize, s.0, e.0);
    sel.update(row, col);
    let from: usize = if s.0 < row {
        s.0
    } else {
        row
    };
    let to: usize = if e.0 > row {
        e.0
    } else {
        row
    };
    mark_selected(grid, sel, cols as usize, from, to);
}

/// Select the whole screen.
pub fn select_all(sel: &mut Selection, size: WinSize)
    requires
        size.rows >= 1,
        size.cols >= 1,
    ensures
        *final(sel) == (Selection {
            start: (0, 0),
            end: ((size.rows - 1) as usize, (size.cols - 1) as usize),
            mode: SelectionMode::Char,
            active: true,
            selecting: false,
        }),
{
    sel.start_selection(0, 0, SelectionMode::Char);
    sel.update(size.rows as usize - 1, size.cols as usize - 1);
    sel.end_selection();
}

/// The selected text to copy: `None` without a selection, where the selection
/// does not fit the lines, or where it holds no text.
pub fn text_to_copy(sel: &Selection, lines: &Vec<String>, cols: u16) -> (r: Option<String>)
    ensures
        ({
            let (s, e) = sel.span();
            let text = selected_text(strings(lines@), s, e, sel.mode, cols as int, s.0 as int);
            &&& r is Some <==> sel.active && sel.extractable(strings(lines@), cols as int)
                && text.len() > 0
            &&& r matches Some(t) ==> t@ == text
        }),
{
    if !sel.active || !sel.can_extract(lines, cols as usize) {
        return None;
    }
    let text = sel.extract_text(lines, cols as usize);
    if text.as_str().unicode_len() == 0 {
        return None;
    }
    Some(text)
}

// ---------------------------------------------------------------------------
// Window title
// ---------------------------------------------------------------------------

/// The title that the window takes from the application: none where the policy
/// does not allow it or there is no title.
pub fn window_title(allowed: bool, title: &str) -> (r: Option<&str>)
    ensures
        r is Some <==> allowed && title@.len() > 0,
        r matches Some(t) ==> t@ == title@,
{
    if allowed && title.unicode_len() > 0 {
        Some(title)
    } else {
        None
    }
}

// ---------------------------------------------------------------------------
// Clipboard policy
// ---------------------------------------------------------------------------

/// What becomes of a request to set the clipboard.
#[derive(Debug, Clone, Copy, PartialEq, Eq, Structural)]
pub enum ClipboardAction {
    /// The policy does not allow it.
    Blocked,
    /// An empty text clears the clipboard.
    Clear,
    /// The text is copied.
    Copy,
}

/// What becomes of a request to set the clipboard to `text`.
pub fn clipboard_request(write_allowed: bool, text: &str) -> (r: ClipboardAction)
    ensures
        r == if !write_allowed {
            ClipboardAction::Blocked
        } else if text@.len() == 0 {
            ClipboardAction::Clear
        } else {
            ClipboardAction::Copy
        },
{
    if !write_allowed {
        ClipboardAction::Blocked
    } else if text.unicode_len() == 0 {
        ClipboardAction::Clear
    } else {
        ClipboardAction::Copy
    }
}

/// The reply to a clipboard query: none where the policy does not allow reading
/// or the clipboard holds no text.
pub fn clipboard_reply(read_allowed: bool, contents: Option<String>) -> (r: Option<Vec<u8>>)
    requires
        contents matches Some(s) ==> encode_utf8(s@).len() <= usize::MAX / 4,
    ensures
        r is Some <==> read_allowed && contents is Some,
        r matches Some(v) ==> v@ == encode_utf8(
            "\x1b]52;c;"@ + base64_text(encode_utf8(contents->0@)) + "\x07"@,
        ),
{
    if !read_allowed {
        return None;
    }
    match contents {
        Some(s) => {
            let text = ClipboardManager::osc52_set(s.as_str());
            let mut v: Vec<u8> = Vec::new();
            put_str(&mut v, text.as_str());
            proof {
                assert(v@ =~= encode_utf8(text@));
            }
            Some(v)
        },
        None => None,
    }
}

// ---------------------------------------------------------------------------
// Geometry
// ---------------------------------------------------------------------------

/// Height of the tab bar in pixels: none while hidden, and never less than
/// what a pointer can hit.
pub fn tab_bar_height(shown: bool, height: u32, hit_size: u32) -> (r: u32)
    ensures
        r == if !shown {
            0
        } else {
            max(height as int, hit_size as int)
        },
{
    if !shown {
        0
    } else if height > hit_size {
        height
    } else {
        hit_size
    }
}

/// The size of a window in pixels that shows `size` cells below the tab bar.
pub fn window_size(size: WinSize, cell_width: u32, cell_height: u32, top: u32) -> (r: (u32, u32))
    requires
        size.cols * max(cell_width as int, 1) <= u32::MAX,
        size.rows * max(cell_height as int, 1) + top <= u32::MAX,
    ensures
        r.0 == max(size.cols * max(cell_width as int, 1), 1),
        r.1 == max(size.rows * max(cell_height as int, 1) + top, 1),
{
    let cw: u32 = if cell_width > 1 {
        cell_width
    } else {
        1
    };
    let ch: u32 = if cell_height > 1 {
        cell_height
    } else {
        1
    };
    proof {
        assert(0 <= size.rows * ch) by (nonlinear_arith);
    }
    let w: u32 = size.cols as u32 * cw;
    let h: u32 = size.rows as u32 * ch + top;
    (
        if w > 1 {
            w
        } else {
            1
        },
        if h > 1 {
            h
        } else {
            1
        },
    )
}

/// The cells that a window of this many pixels shows below the tab bar, or
/// `None` where it shows none.
pub fn grid_size(width: u32, height: u32, cell_width: u32, cell_height: u32, top: u32) -> (r: Option<
    WinSize,
>)
    ensures
        ({
            let cols = (width as int / max(cell_width as int, 1)) % 0x10000;
            let rows = (monus(height as int, top as int) / max(cell_height as int, 1)) % 0x10000;
            r == if cols > 0 && rows > 0 {
                Some(WinSize { cols: cols as u16, rows: rows as u16 })
            } else {
                None
            }
        }),
        1 <= cell_width && 1 <= cell_height && width < 0x10000 && height < 0x10000 ==> match r {
            Some(s) => {
                &&& s.cols * cell_width <= width < (s.cols + 1) * cell_width
                &&& top + s.rows * cell_height <= height < top + (s.rows + 1) * cell_height
                &&& s.cols >= 1 && s.rows >= 1
            },
            None => width < cell_width || height < top + cell_height,
        },
{
    proof {
        if 1 <= cell_width && 1 <= cell_height && width < 0x10000 && height < 0x10000 {
            cells_fit(width as int, cell_width as int);
            cells_fit(monus(height as int, top as int), cell_height as int);
        }
    }
    let cw: u32 = if cell_width > 1 {
        cell_width
    } else {
        1
    };
    let ch: u32 = if cell_height > 1 {
        cell_height
    } else {
        1
    };
    let below: u32 = height.saturating_sub(top);
    let cols: u16 = ((width / cw) % 0x10000) as u16;
    let rows: u16 = ((below / ch) % 0x10000) as u16;
    if cols > 0 && rows > 0 {
        Some(WinSize { cols, rows })
    } else {
        None
    }
}

proof fn cells_fit(size: int, cell: int)
    requires
        0 <= size < 0x10000,
        1 <= cell,
    ensures
        0 <= size / cell < 0x10000,
        (size / cell) % 0x10000 == size / cell,
        (size / cell) * cell <= size < (size / cell + 1) * cell,
        size / cell == 0 <==> size < cell,
{
    let n = size / cell;
    vstd::arithmetic::div_mod::lemma_fundamental_div_mod(size, cell);
    assert(n * cell <= size < (n + 1) * cell && 0 <= n <= size && (n == 0 <==> size < cell))
        by (nonlinear_arith)
        requires
            size == cell * n + size % cell,
            0 <= size % cell < cell,
            0 <= size,
            1 <= cell,
    ;
}

/// A window made to show some cells shows them.
pub proof fn window_shows_its_cells(size: WinSize, cell_width: int, cell_height: int, top: int)
    requires
        size.cols >= 1,
        size.rows >= 1,
        cell_width >= 1,
        cell_height >= 1,
        top >= 0,
    ensures
        (size.cols * cell_width) / cell_width == size.cols,
        monus(size.rows * cell_height + top, top) / cell_height == size.rows,
{
    let c = size.cols as int;
    let r = size.rows as int;
    assert((c * cell_width) / cell_width == c) by (nonlinear_arith)
        requires
            cell_width >= 1,
    ;
    assert((r * cell_height) / cell_height == r) by (nonlinear_arith)
        requires
            cell_height >= 1,
    ;
    assert(r * cell_height >= 0) by (nonlinear_arith)
        requires
            r >= 0,
            cell_height >= 1,
    ;
}

// ---------------------------------------------------------------------------
// Cursor blinking
// ---------------------------------------------------------------------------

/// Whether the cursor shows after a tick, and whether it changed: it changes
/// once the interval has passed, and without an interval it always shows.
pub fn blink(visible: bool, interval_ms: u64, elapsed_ms: u64) -> (r: (bool, bool))
    ensures
        r == if interval_ms == 0 {
            (true, false)
        } else if elapsed_ms >= interval_ms {
            (!visible, true)
        } else {
            (visible, false)
        },
{
    if interval_ms == 0 {
        (true, false)
    } else if elapsed_ms >= interval_ms {
        (!visible, true)
    } else {
        (visible, false)
    }
}

proof fn no_scheme_before(scheme: Seq<char>, url: Seq<char>, from: int)
    requires
        0 <= from <= scheme.len(),
        scheme.len() < url.len(),
        url.take(scheme.len() as int) == scheme,
        forall|i: int| 0 <= i < scheme.len() ==> #[trigger] scheme[i] != ':',
        stands_at(url, scheme.len() as int, "://"@),
    ensures
        scheme_end(url, from) == scheme.len(),
    decreases scheme.len() - from,
{
    reveal_strlit("://");
    if from < scheme.len() {
        assert(url[from] == url.take(scheme.len() as int)[from]);
        assert(scheme[from] != ':');
        if stands_at(url, from, "://"@) {
            assert(url.subrange(from, from + 3)[0] == ':');
            assert(false);
        }
        no_scheme_before(scheme, url, from + 1);
    }
}

/// A hyperlink is opened exactly when its scheme is listed and nothing in it is
/// a control character.
pub proof fn listed_schemes_open(scheme: Seq<char>, rest: Seq<char>, schemes: Seq<Seq<char>>)
    requires
        forall|i: int| 0 <= i < scheme.len() ==> #[trigger] scheme[i] != ':',
    ensures
        ({
            let url = scheme + seq![':', '/', '/'] + rest;
            allowed(url, schemes) <==> schemes.contains(scheme) && forall|i: int|
                0 <= i < url.len() ==> !is_control(#[trigger] url[i])
        }),
{
    let url = scheme + seq![':', '/', '/'] + rest;
    let n = scheme.len() as int;
    reveal_strlit("://");
    assert("://"@ =~= seq![':', '/', '/']);
    assert(url.subrange(n, n + 3) =~= "://"@);
    assert(url.take(n) =~= scheme);
    no_scheme_before(scheme, url, 0);
}

proof fn options_skip(o: OptionsState, args: Seq<Seq<char>>, i: int, k: int)
    requires
        0 <= k <= i,
        k <= args.len(),
    ensures
        options_from(o, args, i) == options_from(o, args.skip(k), i - k),
    decreases args.len() - i,
{
    if i < args.len() {
        let rest = args.skip(k);
        assert(rest[i - k] == args[i]);
        options_skip(o, args, i + 1, k);
        if i + 1 < args.len() {
            assert(rest[i - k + 1] == args[i + 1]);
            let v = args[i + 1];
            options_skip(OptionsState { command: Some(v), ..o }, args, i + 2, k);
            options_skip(OptionsState { cols: size_of(v), ..o }, args, i + 2, k);
            options_skip(OptionsState { rows: size_of(v), ..o }, args, i + 2, k);
        }
    }
}

/// `-e` and `--command` name the program, `--cols` and `--rows` a size in
/// decimal; each sets its own option, and the arguments after it go on from there.
pub proof fn options_are_read(o: OptionsState, v: Seq<char>, n: u16, rest: Seq<Seq<char>>)
    ensures
        options_from(o, seq!["-e"@, v] + rest, 0) == options_from(
            OptionsState { command: Some(v), ..o },
            rest,
            0,
        ),
        options_from(o, seq!["--command"@, v] + rest, 0) == options_from(
            OptionsState { command: Some(v), ..o },
            rest,
            0,
        ),
        options_from(o, seq!["--cols"@, decimal_text(n as nat)] + rest, 0) == options_from(
            OptionsState { cols: Some(n as int), ..o },
            rest,
            0,
        ),
        options_from(o, seq!["--rows"@, decimal_text(n as nat)] + rest, 0) == options_from(
            OptionsState { rows: Some(n as int), ..o },
            rest,
            0,
        ),
{
    let d = decimal_text(n as nat);
    numbers_read_back(n as nat);
    assert forall|i: int| 0 <= i < d.len() implies decimal(n as nat)[i] < 128 by {
        assert(0x30 <= decimal(n as nat)[i] <= 0x39);
    }
    ascii_bytes(d, decimal(n as nat));
    written_numbers_are_read(n as nat, 65535);
    reveal_strlit("-e");
    reveal_strlit("--command");
    reveal_strlit("--cols");
    reveal_strlit("--rows");
    let a = seq!["-e"@, v] + rest;
    let b = seq!["--command"@, v] + rest;
    let c = seq!["--cols"@, d] + rest;
    let e = seq!["--rows"@, d] + rest;
    assert(a.skip(2) =~= rest && b.skip(2) =~= rest && c.skip(2) =~= rest && e.skip(2) =~= rest);
    options_skip(OptionsState { command: Some(v), ..o }, a, 2, 2);
    options_skip(OptionsState { command: Some(v), ..o }, b, 2, 2);
    options_skip(OptionsState { cols: Some(n as int), ..o }, c, 2, 2);
    options_skip(OptionsState { rows: Some(n as int), ..o }, e, 2, 2);
    assert("--cols"@[2] == 'c' && "--rows"@[2] == 'r' && "--command"@.len() == 9);
    assert("--cols"@.len() == 6 && "--rows"@.len() == 6 && "-e"@.len() == 2);
}

/// What is typed into the search bar and erased again leaves the query as it
/// was; a step on and a step back lead to the same match; closing forgets the
/// search.
pub proof fn search_keys_undo(s: SearchView, c: char, lines: Seq<Seq<char>>)
    requires
        0 <= s.current_match < s.matches.len() || s.matches.len() == 0,
    ensures
        ({
            let typed = search_after(s, SearchStep::Type(seq![c]), lines);
            let erased = search_after(typed, SearchStep::Erase, lines);
            let on = search_after(s, SearchStep::Step(true), lines);
            let back = search_after(on, SearchStep::Step(false), lines);
            let closed = search_after(s, SearchStep::Close, lines);
            &&& typed.query == s.query.push(c)
            &&& erased.query == s.query
            &&& erased == search_after(s, SearchStep::Type(Seq::empty()), lines)
            &&& back == s
            &&& s.matches.len() > 1 ==> on.current_match != s.current_match
            &&& !closed.active && closed.query.len() == 0 && closed.matches.len() == 0
        }),
{
    assert((s.query + seq![c]) =~= s.query.push(c));
    assert(s.query.push(c).drop_last() =~= s.query);
    assert(s.query + Seq::<char>::empty() =~= s.query);
    if s.matches.len() > 0 {
        next_and_prev_undo_each_other(s.current_match, s.matches.len() as int);
        if s.current_match + 1 < s.matches.len() {
            vstd::arithmetic::div_mod::lemma_small_mod(
                (s.current_match + 1) as nat,
                s.matches.len(),
            );
        } else {
            vstd::arithmetic::div_mod::lemma_mod_self_0(s.matches.len() as int);
        }
    }
}

/// A page up goes back in the history and a page down returns, as far as there
/// is history; both stay in it.
pub proof fn pages_undo_each_other(g: GridState, page: int)
    requires
        0 <= page,
        0 <= g.view.offset <= g.screen.scrollback.len(),
    ensures
        ({
            let up = g.navigated(Navigation::PageUp, page);
            let down = g.navigated(Navigation::PageDown, page);
            &&& 0 <= up.view.offset <= g.screen.scrollback.len()
            &&& 0 <= down.view.offset <= g.view.offset
            &&& g.view.offset + page <= g.screen.scrollback.len() ==> up.view.offset
                == g.view.offset + page && up.navigated(Navigation::PageDown, page) == g
            &&& page <= g.view.offset ==> down.view.offset == g.view.offset - page
                && down.navigated(Navigation::PageUp, page) == g
            &&& up.screen == g.screen && down.screen == g.screen
            &&& up.row == g.row && down.row == g.row
        }),
{
}

/// The nearest prompt before the cursor's line is the one that a jump back goes
/// to, and likewise for the nearest after it and a jump on: the view begins
/// with it, or the cursor takes its row.
pub proof fn jumps_go_to_the_nearest_prompt(g: GridState, i: int, forward: bool)
    requires
        g.wf(),
        ({
            let stream = g.screen.history_markers + g.screen.markers;
            let here = g.screen.scrollback.len() + g.row;
            &&& 0 <= i < stream.len()
            &&& stream[i] == 1
            &&& if forward {
                here < i && forall|j: int| here < j < i ==> #[trigger] stream[j] != 1
            } else {
                i < here && forall|j: int| i < j < here ==> #[trigger] stream[j] != 1
            }
        }),
    ensures
        ({
            let history = g.screen.scrollback.len();
            let t = g.navigated(
                if forward {
                    Navigation::NextPrompt
                } else {
                    Navigation::PrevPrompt
                },
                0,
            );
            if i < history {
                t.view.offset == history - i && t.row == g.row
            } else {
                t.view.offset == 0 && t.row == i - history
            }
        }),
{
    let here = g.screen.scrollback.len() + g.row;
    let stream = g.screen.marker_stream();
    if forward {
        prompt_after_is(stream, here, Some(i));
    } else {
        prompt_before_is(stream, here, Some(i));
    }
}

/// The shortcuts: with Ctrl and Shift a letter or a digit, with Ctrl alone the
/// page keys. Without Ctrl no key is one.
pub proof fn shortcuts_need_control(key: Key, m: ModifiersState)
    ensures
        !m.control ==> shortcut_of(key, m) is None,
        shortcut_of(key, m) is Some ==> key is Character || key == Key::Named(NamedKey::PageUp)
            || key == Key::Named(NamedKey::PageDown),
        key matches Key::Character(s) ==> s@.len() == 1 && m.control && m.shift ==> {
            let c = s@[0];
            let r = shortcut_of(key, m);
            &&& r == Some(Shortcut::Copy) <==> c == 'C'
            &&& r == Some(Shortcut::Paste) <==> c == 'V'
            &&& r == Some(Shortcut::Search) <==> c == 'F'
            &&& r == Some(Shortcut::SelectAll) <==> c == 'A'
            &&& r == Some(Shortcut::NewTab) <==> c == 'T'
            &&& r == Some(Shortcut::CloseTab) <==> c == 'W'
            &&& r is Some && r->0 is SwitchTo <==> '1' <= c <= '9'
            &&& '1' <= c <= '9' ==> r->0->SwitchTo_0 == c as int - '0' as int
        },
        m.control && !m.shift ==> shortcut_of(Key::Named(NamedKey::PageDown), m) == Some(
            Shortcut::NextTab,
        ) && shortcut_of(Key::Named(NamedKey::PageUp), m) == Some(Shortcut::PrevTab),
{
}

/// Enter searches and goes to the second match, where there is one; F3 and
/// Ctrl+G step alike, back with Shift; other keys of one character are typed.
pub proof fn search_keys_mean(s: SearchView, lines: Seq<Seq<char>>, key: Key, m: ModifiersState)
    ensures
        ({
            let found = search_after(s, search_step(Key::Named(NamedKey::Enter), m), lines);
            let n = s.searched(lines).matches.len();
            &&& found.matches == s.searched(lines).matches && found.query == s.query
            &&& n > 1 ==> found.current_match == 1
            &&& n <= 1 ==> found.current_match == 0
        }),
        search_step(Key::Named(NamedKey::F3), m) == SearchStep::Step(!m.shift),
        search_step(Key::Named(NamedKey::Escape), m) == SearchStep::Close,
        search_step(Key::Named(NamedKey::Backspace), m) == SearchStep::Erase,
        key matches Key::Character(t) ==> {
            &&& !m.control ==> search_step(key, m) == SearchStep::Type(t@)
            &&& m.control && t@ == seq!['g'] ==> search_step(key, m) == SearchStep::Step(!m.shift)
            &&& m.control && m.shift && t@ == seq!['G'] ==> search_step(key, m)
                == SearchStep::Step(false)
            &&& t@.len() == 1 && t@[0] != 'g' && t@[0] != 'G' ==> search_step(key, m)
                == SearchStep::Type(t@)
        },
{
    reveal_strlit("g");
    reveal_strlit("G");
    assert("g"@ =~= seq!['g']);
    assert("G"@ =~= seq!['G']);
    let n = s.searched(lines).matches.len() as int;
    if n > 1 {
        vstd::arithmetic::div_mod::lemma_small_mod(1, n as nat);
    } else if n == 1 {
        vstd::arithmetic::div_mod::lemma_mod_self_0(1);
    }
}

/// With Shift the page keys move the view, and with Ctrl as well the arrows go
/// from prompt to prompt; no key moves it without Shift.
pub proof fn navigation_keys(key: Key, m: ModifiersState)
    ensures
        !m.shift ==> navigation_of(key, m) is None,
        m.shift ==> navigation_of(Key::Named(NamedKey::PageUp), m) == Some(Navigation::PageUp),
        m.shift ==> navigation_of(Key::Named(NamedKey::PageDown), m) == Some(Navigation::PageDown),
        m.shift && m.control ==> navigation_of(Key::Named(NamedKey::ArrowUp), m) == Some(
            Navigation::PrevPrompt,
        ) && navigation_of(Key::Named(NamedKey::ArrowDown), m) == Some(Navigation::NextPrompt),
        !m.control ==> navigation_of(Key::Named(NamedKey::ArrowUp), m) is None && navigation_of(
            Key::Named(NamedKey::ArrowDown),
            m,
        ) is None,
        key is Character ==> navigation_of(key, m) is None,
{
}

} // verus!
