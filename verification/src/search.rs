//! Searching the lines of the terminal.
use vstd::prelude::*;
use vstd::utf8::*;

use crate::grid::view::strings;

verus! {

// ---------------------------------------------------------------------------
// Trusted items: regex
// ---------------------------------------------------------------------------

/// The characters with a meaning of their own in a regular expression.
pub open spec fn is_meta(c: char) -> bool {
    c == '\\' || c == '.' || c == '+' || c == '*' || c == '?' || c == '(' || c == ')' || c == '|'
        || c == '[' || c == ']' || c == '{' || c == '}' || c == '^' || c == '$' || c == '#' || c
        == '&' || c == '-' || c == '~'
}

/// `text` with a backslash before every character that has a meaning of its
/// own in a regular expression.
pub open spec fn escaped(text: Seq<char>) -> Seq<char>
    decreases text.len(),
{
    if text.len() == 0 {
        Seq::empty()
    } else {
        let before = escaped(text.drop_last());
        if is_meta(text.last()) {
            before.push('\\').push(text.last())
        } else {
            before.push(text.last())
        }
    }
}

/// `regex::escape`: a pattern that matches `text` literally.
#[verifier::external_body]
fn escape(text: &str) -> (r: String)
    ensures
        r@ == escaped(text@),
{
    regex::escape(text)
}

/// The pattern is a regular expression that can be compiled.
pub uninterp spec fn pattern_valid(pattern: Seq<char>, ignore_case: bool) -> bool;

/// `regex::RegexBuilder::build`: an error (here `false`) where the pattern is
/// not a regular expression or compiles to something too large. That size is
/// counted in bytes of the compiled form, so a pattern at the very limit can
/// be too large on a machine with wider pointers only.
#[verifier::external_body]
fn compiles(pattern: &str, ignore_case: bool) -> (r: bool)
    ensures
        r == pattern_valid(pattern@, ignore_case),
{
    regex::RegexBuilder::new(pattern).case_insensitive(ignore_case).build().is_ok()
}

/// Start and end, in bytes, of the matches of a pattern in a line.
pub uninterp spec fn pattern_matches(
    pattern: Seq<char>,
    ignore_case: bool,
    line: Seq<char>,
) -> Seq<(usize, usize)>;

/// `regex::Regex::find_iter` of the compiled pattern: successive matches that
/// lie within the line and do not overlap. A match of an escaped text that
/// minds the case is that text. Nothing where the pattern does not compile.
#[verifier::external_body]
fn find_all(pattern: &str, ignore_case: bool, line: &str) -> (r: Vec<(usize, usize)>)
    ensures
        pattern_valid(pattern@, ignore_case) ==> r@ == pattern_matches(
            pattern@,
            ignore_case,
            line@,
        ),
        !pattern_valid(pattern@, ignore_case) ==> r@.len() == 0,
        forall|i: int|
            0 <= i < r@.len() ==> (#[trigger] r@[i]).0 <= r@[i].1 <= encode_utf8(line@).len(),
        forall|i: int, j: int| 0 <= i < j < r@.len() ==> (#[trigger] r@[i]).1 <= (#[trigger] r@[j]).0,
        forall|q: Seq<char>, i: int|
            !ignore_case && pattern@ == #[trigger] escaped(q) && 0 <= i < r@.len() ==> encode_utf8(
                line@,
            ).subrange((#[trigger] r@[i]).0 as int, r@[i].1 as int) == encode_utf8(q),
{
    match regex::RegexBuilder::new(pattern).case_insensitive(ignore_case).build() {
        Ok(re) => re.find_iter(line).map(|m| (m.start(), m.end())).collect(),
        Err(_) => Vec::new(),
    }
}

// ---------------------------------------------------------------------------
// Search state
// ---------------------------------------------------------------------------

/// A match in a row, with its start and end in bytes.
#[derive(Debug, Clone, Copy, PartialEq, Eq, Structural)]
pub struct SearchMatch {
    pub row: usize,
    pub start_col: usize,
    pub end_col: usize,
}

/// The direction of a search.
#[derive(Debug, Clone, Copy, PartialEq, Eq, Structural)]
pub enum SearchMode {
    Forward,
    /// Through history, the last match first.
    Reverse,
}

/// A regular expression that compiles.
#[derive(Debug)]
pub struct Pattern {
    pub text: String,
    pub ignore_case: bool,
}

/// A search.
#[derive(Debug)]
pub struct SearchState {
    pub active: bool,
    pub query: String,
    /// What is searched for, if the query is valid.
    pub regex: Option<Pattern>,
    pub matches: Vec<SearchMatch>,
    /// Index of the highlighted match.
    pub current_match: usize,
    pub case_sensitive: bool,
    pub regex_mode: bool,
    pub mode: SearchMode,
    pub search_history: Vec<String>,
}

/// What a search holds.
pub struct SearchView {
    pub active: bool,
    pub query: Seq<char>,
    pub regex: Option<(Seq<char>, bool)>,
    pub matches: Seq<SearchMatch>,
    pub current_match: int,
    pub case_sensitive: bool,
    pub regex_mode: bool,
    pub mode: SearchMode,
    pub search_history: Seq<Seq<char>>,
}

impl View for SearchState {
    type V = SearchView;

    open spec fn view(&self) -> SearchView {
        SearchView {
            active: self.active,
            query: self.query@,
            regex: match self.regex {
                Some(p) => Some((p.text@, p.ignore_case)),
                None => None,
            },
            matches: self.matches@,
            current_match: self.current_match as int,
            case_sensitive: self.case_sensitive,
            regex_mode: self.regex_mode,
            mode: self.mode,
            search_history: strings(self.search_history@),
        }
    }
}

/// The matches of a row.
pub open spec fn located(row: int, found: Seq<(usize, usize)>) -> Seq<SearchMatch> {
    Seq::new(
        found.len(),
        |i: int|
            SearchMatch { row: row as usize, start_col: found[i].0, end_col: found[i].1 },
    )
}

/// What a pattern finds in a line.
pub open spec fn found_in(regex: (Seq<char>, bool), line: Seq<char>) -> Seq<(usize, usize)> {
    if pattern_valid(regex.0, regex.1) {
        pattern_matches(regex.0, regex.1, line)
    } else {
        Seq::empty()
    }
}

/// The matches in the first `n` lines, whose rows count from `base`.
pub open spec fn found_in_lines(
    regex: (Seq<char>, bool),
    lines: Seq<Seq<char>>,
    base: int,
    n: int,
) -> Seq<SearchMatch>
    decreases n,
{
    if n <= 0 || n > lines.len() {
        Seq::empty()
    } else {
        found_in_lines(regex, lines, base, n - 1) + located(
            base + n - 1,
            found_in(regex, lines[n - 1]),
        )
    }
}

/// The matches in the first `n` pages, a thousand rows apart.
pub open spec fn found_in_pages(
    regex: (Seq<char>, bool),
    pages: Seq<Seq<Seq<char>>>,
    n: int,
) -> Seq<SearchMatch>
    decreases n,
{
    if n <= 0 || n > pages.len() {
        Seq::empty()
    } else {
        found_in_pages(regex, pages, n - 1) + found_in_lines(
            regex,
            pages[n - 1],
            (n - 1) * 1000,
            pages[n - 1].len() as int,
        )
    }
}

/// The views of pages of lines.
pub open spec fn pages_view(v: Seq<Vec<String>>) -> Seq<Seq<Seq<char>>> {
    Seq::new(v.len(), |i: int| strings(v[i]@))
}

/// The matches come in order: down the rows, and along each row without
/// overlap.
pub open spec fn in_order(matches: Seq<SearchMatch>) -> bool {
    forall|i: int, j: int|
        0 <= i < j < matches.len() ==> (#[trigger] matches[i]).row < (#[trigger] matches[j]).row || (
        matches[i].row == matches[j].row && matches[i].end_col <= matches[j].start_col)
}

/// The text of every match in `lines` is `q`.
pub open spec fn all_match(
    matches: Seq<SearchMatch>,
    lines: Seq<Seq<char>>,
    q: Seq<char>,
) -> bool {
    forall|i: int|
        0 <= i < matches.len() ==> {
            let m = #[trigger] matches[i];
            m.row < lines.len() && m.start_col <= m.end_col <= encode_utf8(
                lines[m.row as int],
            ).len() && encode_utf8(lines[m.row as int]).subrange(
                m.start_col as int,
                m.end_col as int,
            ) == encode_utf8(q)
        }
}

/// The match after match `i` of `n`.
pub open spec fn next_index(i: int, n: int) -> int {
    (i + 1) % n
}

/// The match before match `i` of `n`.
pub open spec fn prev_index(i: int, n: int) -> int {
    if i == 0 {
        n - 1
    } else {
        i - 1
    }
}

/// Going to the next match and back leads to where one was, and so does going
/// back and on.
pub proof fn next_and_prev_undo_each_other(i: int, n: int)
    requires
        0 <= i < n,
    ensures
        0 <= next_index(i, n) < n,
        0 <= prev_index(i, n) < n,
        prev_index(next_index(i, n), n) == i,
        next_index(prev_index(i, n), n) == i,
{
    if i + 1 < n {
        vstd::arithmetic::div_mod::lemma_small_mod((i + 1) as nat, n as nat);
    } else {
        vstd::arithmetic::div_mod::lemma_mod_self_0(n);
    }
    if i > 0 {
        vstd::arithmetic::div_mod::lemma_small_mod(i as nat, n as nat);
    } else {
        vstd::arithmetic::div_mod::lemma_mod_self_0(n);
    }
}

impl SearchView {
    /// No search.
    pub open spec fn initial() -> SearchView {
        SearchView {
            active: false,
            query: Seq::empty(),
            regex: None,
            matches: Seq::empty(),
            current_match: 0,
            case_sensitive: false,
            regex_mode: false,
            mode: SearchMode::Forward,
            search_history: Seq::empty(),
        }
    }

    /// Query and matches forgotten.
    pub open spec fn emptied(self) -> SearchView {
        SearchView {
            query: Seq::empty(),
            regex: None,
            matches: Seq::empty(),
            current_match: 0,
            ..self
        }
    }

    /// The pattern of the query: the query itself as a regular expression, or
    /// escaped.
    pub open spec fn pattern(self) -> Seq<char> {
        if self.regex_mode {
            self.query
        } else {
            escaped(self.query)
        }
    }

    /// The query compiled.
    pub open spec fn compiled(self) -> SearchView {
        SearchView {
            regex: if self.query.len() > 0 && pattern_valid(self.pattern(), !self.case_sensitive) {
                Some((self.pattern(), !self.case_sensitive))
            } else {
                None
            },
            ..self
        }
    }

    /// The matches in `lines`.
    pub open spec fn searched(self, lines: Seq<Seq<char>>) -> SearchView {
        SearchView {
            matches: match self.regex {
                Some(r) => found_in_lines(r, lines, 0, lines.len() as int),
                None => Seq::empty(),
            },
            current_match: 0,
            ..self
        }
    }

    /// The matches in pages of scrollback and then in `lines`.
    pub open spec fn searched_all(
        self,
        pages: Seq<Seq<Seq<char>>>,
        lines: Seq<Seq<char>>,
    ) -> SearchView {
        let matches = match self.regex {
            Some(r) => found_in_pages(r, pages, pages.len() as int) + found_in_lines(
                r,
                lines,
                (pages.len() * 1000) as int,
                lines.len() as int,
            ),
            None => Seq::empty(),
        };
        SearchView {
            matches,
            current_match: if self.mode == SearchMode::Reverse && matches.len() > 0 {
                matches.len() - 1
            } else {
                0
            },
            ..self
        }
    }
}

/// Append the matches of a row.
fn put_located(matches: &mut Vec<SearchMatch>, row: usize, found: &Vec<(usize, usize)>)
    ensures
        final(matches)@ == old(matches)@ + located(row as int, found@),
{
    let ghost before = matches@;
    let ghost all = located(row as int, found@);
    let mut i: usize = 0;
    proof {
        assert(before + all.take(0) =~= before);
    }
    while i < found.len()
        invariant
            i <= found@.len(),
            all == located(row as int, found@),
            matches@ == before + all.take(i as int),
        decreases found@.len() - i,
    {
        matches.push(SearchMatch { row, start_col: found[i].0, end_col: found[i].1 });
        i += 1;
        proof {
            assert(before + all.take(i as int) =~= (before + all.take(i - 1)).push(all[i - 1]));
        }
    }
    proof {
        assert(all.take(all.len() as int) =~= all);
    }
}

/// Append the matches of some lines.
fn search_lines(matches: &mut Vec<SearchMatch>, pattern: &Pattern, lines: &Vec<String>, base: usize)
    requires
        base + lines@.len() <= usize::MAX,
    ensures
        final(matches)@ == old(matches)@ + found_in_lines(
            (pattern.text@, pattern.ignore_case),
            strings(lines@),
            base as int,
            lines@.len() as int,
        ),
        old(matches)@.len() == 0 ==> in_order(final(matches)@),
        forall|q: Seq<char>|
            old(matches)@.len() == 0 && base == 0 && !pattern.ignore_case && pattern.text@
                == #[trigger] escaped(q) ==> all_match(final(matches)@, strings(lines@), q),
{
    let ghost before = matches@;
    let ghost regex = (pattern.text@, pattern.ignore_case);
    let ghost texts = strings(lines@);
    let mut i: usize = 0;
    proof {
        assert(before + found_in_lines(regex, texts, base as int, 0) =~= before);
    }
    while i < lines.len()
        invariant
            i <= lines@.len(),
            base + lines@.len() <= usize::MAX,
            regex == (pattern.text@, pattern.ignore_case),
            texts == strings(lines@),
            matches@ == before + found_in_lines(regex, texts, base as int, i as int),
            before.len() == 0 ==> in_order(matches@),
            before.len() == 0 ==> forall|k: int|
                0 <= k < matches@.len() ==> (#[trigger] matches@[k]).row < base + i,
            forall|q: Seq<char>|
                before.len() == 0 && base == 0 && !pattern.ignore_case && pattern.text@
                    == #[trigger] escaped(q) ==> all_match(matches@, texts, q),
        decreases lines@.len() - i,
    {
        let found = find_all(pattern.text.as_str(), pattern.ignore_case, lines[i].as_str());
        let ghost m0 = matches@;
        proof {
            assert(texts[i as int] == lines@[i as int]@);
            assert(found@ =~= found_in(regex, texts[i as int]));
        }
        put_located(matches, base + i, &found);
        i += 1;
        proof {
            let new = located(base + i - 1, found@);
            assert(matches@ =~= before + (found_in_lines(regex, texts, base as int, i - 1) + new));
            assert forall|q: Seq<char>|
                before.len() == 0 && base == 0 && !pattern.ignore_case && pattern.text@
                    == #[trigger] escaped(q) implies all_match(matches@, texts, q) by {
                assert(all_match(m0, texts, q));
                assert forall|k: int| 0 <= k < matches@.len() implies ({
                    let m = #[trigger] matches@[k];
                    m.row < texts.len() && m.start_col <= m.end_col <= encode_utf8(
                        texts[m.row as int],
                    ).len() && encode_utf8(texts[m.row as int]).subrange(
                        m.start_col as int,
                        m.end_col as int,
                    ) == encode_utf8(q)
                }) by {
                    if k < m0.len() {
                        assert(matches@[k] == m0[k]);
                    } else {
                        let f = found@[k - m0.len()];
                        assert(matches@[k] == new[k - m0.len()]);
                    }
                }
            }
            if before.len() == 0 {
                assert forall|a: int, b: int| 0 <= a < b < matches@.len() implies (
                #[trigger] matches@[a]).row < (#[trigger] matches@[b]).row || (matches@[a].row
                    == matches@[b].row && matches@[a].end_col <= matches@[b].start_col) by {
                    if b < m0.len() {
                        assert(matches@[a] == m0[a] && matches@[b] == m0[b]);
                    } else {
                        assert(matches@[b] == new[b - m0.len()]);
                        if a < m0.len() {
                            assert(matches@[a] == m0[a]);
                        } else {
                            assert(matches@[a] == new[a - m0.len()]);
                            assert(found@[a - m0.len()].1 <= found@[b - m0.len()].0);
                        }
                    }
                }
                assert forall|k: int| 0 <= k < matches@.len() implies (#[trigger] matches@[k]).row
                    < base + i by {
                    if k < m0.len() {
                        assert(matches@[k] == m0[k]);
                    } else {
                        assert(matches@[k] == new[k - m0.len()]);
                    }
                }
            }
        }
    }
}

impl SearchState {
    /// No search.
    pub fn new() -> (r: Self)
        ensures
            r@ == SearchView::initial(),
    {
        let r = Self {
            active: false,
            query: String::new(),
            regex: None,
            matches: Vec::new(),
            current_match: 0,
            case_sensitive: false,
            regex_mode: false,
            mode: SearchMode::Forward,
            search_history: Vec::new(),
        };
        proof {
            assert(r@.query =~= Seq::empty());
            assert(r@.search_history =~= Seq::empty());
        }
        r
    }

    fn empty(&mut self)
        ensures
            final(self)@ == old(self)@.emptied(),
    {
        self.query = String::new();
        self.regex = None;
        self.matches = Vec::new();
        self.current_match = 0;
        proof {
            assert(self@.query =~= Seq::empty());
        }
    }

    /// Begin a search.
    pub fn activate(&mut self)
        ensures
            final(self)@ == (SearchView {
                active: true,
                mode: SearchMode::Forward,
                ..old(self)@.emptied()
            }),
    {
        self.active = true;
        self.mode = SearchMode::Forward;
        self.empty();
    }

    /// Begin a search through history.
    pub fn activate_reverse(&mut self)
        ensures
            final(self)@ == (SearchView {
                active: true,
                mode: SearchMode::Reverse,
                ..old(self)@.emptied()
            }),
    {
        self.active = true;
        self.mode = SearchMode::Reverse;
        self.empty();
    }

    /// End the search.
    pub fn deactivate(&mut self)
        ensures
            final(self)@ == (SearchView { active: false, ..old(self)@.emptied() }),
    {
        self.active = false;
        self.empty();
    }

    /// Set and compile the query.
    pub fn update_query(&mut self, query: &str)
        ensures
            final(self)@ == (SearchView {
                query: query@,
                current_match: 0,
                ..old(self)@
            }).compiled(),
    {
        self.query = query.to_owned();
        self.current_match = 0;
        self.compile_regex();
    }

    /// Compile the query.
    pub fn compile_regex(&mut self)
        ensures
            final(self)@ == old(self)@.compiled(),
    {
        let length: usize = self.query.as_str().unicode_len();
        if length == 0 {
            self.regex = None;
            return;
        }
        let text = if self.regex_mode {
            self.query.clone()
        } else {
            escape(self.query.as_str())
        };
        let ignore_case = !self.case_sensitive;
        self.regex = if compiles(text.as_str(), ignore_case) {
            Some(Pattern { text, ignore_case })
        } else {
            None
        };
    }

    /// Mind the case, or stop minding it.
    pub fn toggle_case_sensitive(&mut self)
        ensures
            final(self)@ == (SearchView {
                case_sensitive: !old(self)@.case_sensitive,
                ..old(self)@
            }).compiled(),
    {
        self.case_sensitive = !self.case_sensitive;
        self.compile_regex();
    }

    /// Take the query as a regular expression, or literally.
    pub fn toggle_regex_mode(&mut self)
        ensures
            final(self)@ == (SearchView {
                regex_mode: !old(self)@.regex_mode,
                ..old(self)@
            }).compiled(),
    {
        self.regex_mode = !self.regex_mode;
        self.compile_regex();
    }

    /// Search some lines. The matches come in order. Where a literal query
    /// minds the case, the text of each is the query.
    pub fn search(&mut self, lines: &Vec<String>)
        ensures
            final(self)@ == old(self)@.searched(strings(lines@)),
            in_order(final(self)@.matches),
            old(self)@.regex matches Some(r) ==> forall|q: Seq<char>|
                !r.1 && r.0 == #[trigger] escaped(q) ==> all_match(
                    final(self)@.matches,
                    strings(lines@),
                    q,
                ),
    {
        self.current_match = 0;
        let mut matches: Vec<SearchMatch> = Vec::new();
        if let Some(pattern) = &self.regex {
            let count: usize = lines.len();
            search_lines(&mut matches, pattern, lines, 0);
            proof {
                assert(count == lines@.len());
                let all = found_in_lines(
                    (pattern.text@, pattern.ignore_case),
                    strings(lines@),
                    0,
                    lines@.len() as int,
                );
                assert(Seq::<SearchMatch>::empty() + all =~= all);
            }
        }
        self.matches = matches;
    }

    /// Search pages of scrollback, the oldest first, and then the visible
    /// lines. A reverse search begins with the last match.
    pub fn search_with_scrollback(
        &mut self,
        scrollback: &Vec<Vec<String>>,
        visible_lines: &Vec<String>,
    )
        requires
            scrollback@.len() * 1000 + visible_lines@.len() <= usize::MAX,
            forall|i: int|
                0 <= i < scrollback@.len() ==> i * 1000 + (#[trigger] scrollback@[i])@.len()
                    <= usize::MAX,
        ensures
            final(self)@ == old(self)@.searched_all(
                pages_view(scrollback@),
                strings(visible_lines@),
            ),
    {
        self.current_match = 0;
        let mut matches: Vec<SearchMatch> = Vec::new();
        if let Some(pattern) = &self.regex {
            let ghost regex = (pattern.text@, pattern.ignore_case);
            let ghost pages = pages_view(scrollback@);
            let len: usize = scrollback.len();
            let mut i: usize = 0;
            proof {
                assert(matches@ =~= found_in_pages(regex, pages, 0));
            }
            while i < len
                invariant
                    i <= len == scrollback@.len(),
                    len * 1000 + visible_lines@.len() <= usize::MAX,
                    regex == (pattern.text@, pattern.ignore_case),
                    pages == pages_view(scrollback@),
                    forall|k: int|
                        0 <= k < scrollback@.len() ==> k * 1000 + (#[trigger] scrollback@[k])@.len()
                            <= usize::MAX,
                    matches@ == found_in_pages(regex, pages, i as int),
                decreases len - i,
            {
                proof {
                    assert(pages[i as int] == strings(scrollback@[i as int]@));
                    assert(scrollback@[i as int]@.len() + i * 1000 <= usize::MAX);
                }
                search_lines(&mut matches, pattern, &scrollback[i], i * 1000);
                i += 1;
            }
            search_lines(&mut matches, pattern, visible_lines, len * 1000);
        }
        self.matches = matches;
        if self.mode == SearchMode::Reverse && self.matches.len() > 0 {
            self.current_match = self.matches.len() - 1;
        }
    }

    /// The highlighted match.
    pub fn current(&self) -> (r: Option<&SearchMatch>)
        ensures
            match r {
                Some(m) => self@.current_match < self@.matches.len() && *m
                    == self@.matches[self@.current_match],
                None => self@.current_match >= self@.matches.len(),
            },
    {
        if self.current_match < self.matches.len() {
            Some(&self.matches[self.current_match])
        } else {
            None
        }
    }

    /// Go to the next match, from the last to the first.
    pub fn next(&mut self) -> (r: Option<SearchMatch>)
        requires
            old(self)@.current_match < usize::MAX,
        ensures
            final(self)@ == if old(self)@.matches.len() > 0 {
                SearchView {
                    current_match: next_index(
                        old(self)@.current_match,
                        old(self)@.matches.len() as int,
                    ),
                    ..old(self)@
                }
            } else {
                old(self)@
            },
            r == if old(self)@.matches.len() > 0 {
                Some(final(self)@.matches[final(self)@.current_match])
            } else {
                None
            },
    {
        if self.matches.len() == 0 {
            return None;
        }
        self.current_match = (self.current_match + 1) % self.matches.len();
        Some(self.matches[self.current_match])
    }

    /// Go to the previous match, from the first to the last.
    pub fn prev(&mut self) -> (r: Option<SearchMatch>)
        ensures
            final(self)@ == if old(self)@.matches.len() > 0 {
                SearchView {
                    current_match: prev_index(
                        old(self)@.current_match,
                        old(self)@.matches.len() as int,
                    ),
                    ..old(self)@
                }
            } else {
                old(self)@
            },
            r == if final(self)@.current_match < old(self)@.matches.len() {
                Some(final(self)@.matches[final(self)@.current_match])
            } else {
                None
            },
    {
        if self.matches.len() == 0 {
            return None;
        }
        if self.current_match == 0 {
            self.current_match = self.matches.len() - 1;
        } else {
            self.current_match = self.current_match - 1;
        }
        if self.current_match < self.matches.len() {
            Some(self.matches[self.current_match])
        } else {
            None
        }
    }

    /// Number of matches.
    pub fn match_count(&self) -> (r: usize)
        ensures
            r == self@.matches.len(),
    {
        self.matches.len()
    }

    /// Number of the highlighted match, counting from 1; 0 without matches.
    pub fn current_index(&self) -> (r: usize)
        requires
            self@.current_match < usize::MAX,
        ensures
            r == if self@.matches.len() == 0 {
                0
            } else {
                self@.current_match + 1
            },
    {
        if self.matches.len() == 0 {
            0
        } else {
            self.current_match + 1
        }
    }
}

impl Default for SearchState {
    fn default() -> (r: Self)
        ensures
            r@ == SearchView::initial(),
    {
        Self::new()
    }
}

proof fn matches_of_lines(
    regex: (Seq<char>, bool),
    lines: Seq<Seq<char>>,
    base: int,
    n: int,
    m: SearchMatch,
)
    requires
        0 <= n <= lines.len(),
        0 <= base,
        base + lines.len() <= usize::MAX,
    ensures
        found_in_lines(regex, lines, base, n).contains(m) <==> base <= m.row < base + n && found_in(
            regex,
            lines[m.row - base],
        ).contains((m.start_col, m.end_col)),
    decreases n,
{
    let all = found_in_lines(regex, lines, base, n);
    if n > 0 {
        matches_of_lines(regex, lines, base, n - 1, m);
        let before = found_in_lines(regex, lines, base, n - 1);
        let found = found_in(regex, lines[n - 1]);
        let last = located(base + n - 1, found);
        let p = (m.start_col, m.end_col);
        assert(all == before + last);
        if before.contains(m) {
            let k = choose|k: int| 0 <= k < before.len() && before[k] == m;
            assert(all[k] == m);
        }
        if m.row == base + n - 1 && found.contains(p) {
            let k = choose|k: int| 0 <= k < found.len() && found[k] == p;
            assert(last[k] == m);
            assert(all[before.len() + k] == m);
        }
        if all.contains(m) {
            let k = choose|k: int| 0 <= k < all.len() && all[k] == m;
            if k < before.len() {
                assert(before[k] == m);
            } else {
                assert(last[k - before.len()] == m);
                assert(found[k - before.len()] == p);
            }
        }
    }
}

/// A search finds in each line what the pattern matches there, and nothing else;
/// with no valid pattern it finds nothing.
pub proof fn search_finds_every_match(s: SearchView, lines: Seq<Seq<char>>, m: SearchMatch)
    requires
        lines.len() <= usize::MAX,
    ensures
        ({
            let t = s.compiled().searched(lines);
            let valid = s.query.len() > 0 && pattern_valid(s.pattern(), !s.case_sensitive);
            &&& t.matches.contains(m) <==> valid && m.row < lines.len() && pattern_matches(
                s.pattern(),
                !s.case_sensitive,
                lines[m.row as int],
            ).contains((m.start_col, m.end_col))
            &&& t.current_match == 0
        }),
{
    matches_of_lines(
        (s.pattern(), !s.case_sensitive),
        lines,
        0,
        lines.len() as int,
        m,
    );
}

proof fn matches_of_pages(
    regex: (Seq<char>, bool),
    pages: Seq<Seq<Seq<char>>>,
    n: int,
    i: int,
    m: SearchMatch,
)
    requires
        0 <= i < n <= pages.len(),
        forall|k: int| 0 <= k < pages.len() ==> (#[trigger] pages[k]).len() <= 1000,
        pages.len() * 1000 <= usize::MAX,
        i * 1000 <= m.row < i * 1000 + pages[i].len(),
        found_in(regex, pages[i][m.row - i * 1000]).contains((m.start_col, m.end_col)),
    ensures
        found_in_pages(regex, pages, n).contains(m),
    decreases n,
{
    let all = found_in_pages(regex, pages, n);
    let before = found_in_pages(regex, pages, n - 1);
    let last = found_in_lines(regex, pages[n - 1], (n - 1) * 1000, pages[n - 1].len() as int);
    assert(all == before + last);
    if i == n - 1 {
        matches_of_lines(regex, pages[i], i * 1000, pages[i].len() as int, m);
        let k = choose|k: int| 0 <= k < last.len() && last[k] == m;
        assert(all[before.len() + k] == m);
    } else {
        matches_of_pages(regex, pages, n - 1, i, m);
        let k = choose|k: int| 0 <= k < before.len() && before[k] == m;
        assert(all[k] == m);
    }
}

/// A search of the history and the screen finds what the pattern matches in
/// each line of each page, a thousand rows a page, and then on the screen; a
/// search backwards begins with the last of it.
pub proof fn search_finds_matches_in_the_history(
    s: SearchView,
    pages: Seq<Seq<Seq<char>>>,
    lines: Seq<Seq<char>>,
    i: int,
    m: SearchMatch,
)
    requires
        forall|k: int| 0 <= k < pages.len() ==> (#[trigger] pages[k]).len() <= 1000,
        pages.len() * 1000 + lines.len() <= usize::MAX,
        s.query.len() > 0,
        pattern_valid(s.pattern(), !s.case_sensitive),
    ensures
        ({
            let t = s.compiled().searched_all(pages, lines);
            let found = |line: Seq<char>|
                pattern_matches(s.pattern(), !s.case_sensitive, line).contains(
                    (m.start_col, m.end_col),
                );
            &&& 0 <= i < pages.len() && i * 1000 <= m.row < i * 1000 + pages[i].len() && found(
                pages[i][m.row - i * 1000],
            ) ==> t.matches.contains(m)
            &&& pages.len() * 1000 <= m.row < pages.len() * 1000 + lines.len() && found(
                lines[m.row - pages.len() * 1000],
            ) ==> t.matches.contains(m)
            &&& t.matches.len() > 0 ==> t.current_match == if s.mode == SearchMode::Reverse {
                t.matches.len() - 1
            } else {
                0
            }
        }),
{
    let regex = (s.pattern(), !s.case_sensitive);
    let n = pages.len() as int;
    let old_ones = found_in_pages(regex, pages, n);
    let base = (pages.len() * 1000) as int;
    let new_ones = found_in_lines(regex, lines, base, lines.len() as int);
    let t = s.compiled().searched_all(pages, lines);
    assert(t.matches == old_ones + new_ones);
    let p = (m.start_col, m.end_col);
    if 0 <= i < pages.len() && i * 1000 <= m.row < i * 1000 + pages[i].len() && found_in(
        regex,
        pages[i][m.row - i * 1000],
    ).contains(p) {
        matches_of_pages(regex, pages, n, i, m);
        let k = choose|k: int| 0 <= k < old_ones.len() && old_ones[k] == m;
        assert(t.matches[k] == m);
    }
    if base <= m.row < base + lines.len() && found_in(regex, lines[m.row - base]).contains(p) {
        matches_of_lines(regex, lines, base, lines.len() as int, m);
        let k = choose|k: int| 0 <= k < new_ones.len() && new_ones[k] == m;
        assert(t.matches[old_ones.len() + k] == m);
    }
}

} // verus!
