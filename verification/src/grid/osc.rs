//! Operating system commands: titles, colours, the clipboard, hyperlinks and
//! shell integration.
use vstd::prelude::*;
use vstd::utf8::*;

use super::attrs::PaletteState;
use super::query::color_text;
use super::screen::Screen;
use super::state::{GridState, LinksState, OutboxState, ScreenState};
use super::{urls_view, Grid, Links, Outbox};
use crate::codec::{carried_text, decode_text};
use crate::text::{
    copy_range, decimal, is_byte, join_bytes, join_from, lit, parse_unsigned, put_decimal, put_str,
    split, split_bytes, unsigned_number, utf8_text, views,
};

verus! {

broadcast use vstd::std_specs::hash::group_hash_axioms;

// ---------------------------------------------------------------------------
// Colour specifications
// ---------------------------------------------------------------------------

/// Two hexadecimal digits at position `i`.
pub open spec fn hex_pair(s: Seq<u8>, i: int) -> Option<int> {
    unsigned_number(s.subrange(i, i + 2), 16, 255)
}

/// Three pairs of hexadecimal digits from position `i` on.
pub open spec fn hex_color(s: Seq<u8>, i: int) -> Option<(u8, u8, u8)> {
    match (hex_pair(s, i), hex_pair(s, i + 2), hex_pair(s, i + 4)) {
        (Some(r), Some(g), Some(b)) => Some((r as u8, g as u8, b as u8)),
        _ => None,
    }
}

/// A colour component from 0 to 65535, scaled to 8 bits.
pub open spec fn color_component(s: Seq<u8>) -> Option<int> {
    match unsigned_number(s, 10, 65535) {
        Some(v) => Some(v / 257),
        None => None,
    }
}

/// The first bytes of `s` are `rgb:`.
pub open spec fn starts_rgb(s: Seq<u8>) -> bool {
    s.len() >= 4 && s[0] == 0x72 && s[1] == 0x67 && s[2] == 0x62 && s[3] == 0x3a
}

/// Three components separated by `/`.
pub open spec fn scaled_color(s: Seq<u8>) -> Option<(u8, u8, u8)> {
    let parts = split(s, 0x2f);
    if parts.len() == 3 {
        match (color_component(parts[0]), color_component(parts[1]), color_component(parts[2])) {
            (Some(r), Some(g), Some(b)) => Some((r as u8, g as u8, b as u8)),
            _ => None,
        }
    } else {
        None
    }
}

/// The colour that a specification names: `#RRGGBB`, `rgb:R/G/B`, `RRGGBB` or
/// `R/G/B`.
pub open spec fn color_of(s: Seq<u8>) -> Option<(u8, u8, u8)> {
    if s.len() == 7 && s[0] == 0x23 {
        hex_color(s, 1)
    } else if starts_rgb(s) {
        scaled_color(s.subrange(4, s.len() as int))
    } else if s.len() == 6 && hex_color(s, 0) is Some {
        hex_color(s, 0)
    } else {
        scaled_color(s)
    }
}

fn read_hex_color(s: &[u8], i: usize) -> (r: Option<(u8, u8, u8)>)
    requires
        i <= 1,
        i + 6 <= s@.len(),
    ensures
        r == hex_color(s@, i as int),
{
    let a = copy_range(s, i, i + 2);
    let b = copy_range(s, i + 2, i + 4);
    let c = copy_range(s, i + 4, i + 6);
    match (
        parse_unsigned(a.as_slice(), 16, 255),
        parse_unsigned(b.as_slice(), 16, 255),
        parse_unsigned(c.as_slice(), 16, 255),
    ) {
        (Some(r), Some(g), Some(b)) => Some((r as u8, g as u8, b as u8)),
        _ => None,
    }
}

/// Read a colour component, scaling it to 8 bits.
pub fn parse_color_component(s: &[u8]) -> (r: Option<u8>)
    ensures
        match r {
            Some(v) => color_component(s@) == Some(v as int),
            None => color_component(s@) is None,
        },
{
    match parse_unsigned(s, 10, 65535) {
        Some(v) => Some((v / 257) as u8),
        None => None,
    }
}

fn read_scaled_color(s: &[u8]) -> (r: Option<(u8, u8, u8)>)
    ensures
        r == scaled_color(s@),
{
    let parts = split_bytes(s, 0x2f);
    proof {
        assert(views(parts@).len() == parts@.len());
    }
    if parts.len() == 3 {
        proof {
            assert(views(parts@)[0] == parts@[0]@);
            assert(views(parts@)[1] == parts@[1]@);
            assert(views(parts@)[2] == parts@[2]@);
        }
        match (
            parse_color_component(parts[0].as_slice()),
            parse_color_component(parts[1].as_slice()),
            parse_color_component(parts[2].as_slice()),
        ) {
            (Some(r), Some(g), Some(b)) => Some((r, g, b)),
            _ => None,
        }
    } else {
        None
    }
}

/// Read a colour specification.
pub fn parse_color_spec(s: &[u8]) -> (r: Option<(u8, u8, u8)>)
    ensures
        r == color_of(s@),
{
    if s.len() == 7 && s[0] == 0x23 {
        read_hex_color(s, 1)
    } else if s.len() >= 4 && s[0] == 0x72 && s[1] == 0x67 && s[2] == 0x62 && s[3] == 0x3a {
        let rest = copy_range(s, 4, s.len());
        read_scaled_color(rest.as_slice())
    } else {
        if s.len() == 6 {
            let color = read_hex_color(s, 0);
            if color.is_some() {
                return color;
            }
        }
        read_scaled_color(s)
    }
}

// ---------------------------------------------------------------------------
// Commands
// ---------------------------------------------------------------------------

/// The number of the command, 0 where the first parameter is not one.
pub open spec fn osc_number(params: Seq<Seq<u8>>) -> int {
    if params.len() > 0 {
        match unsigned_number(params[0], 10, 65535) {
            Some(n) => n,
            None => 0,
        }
    } else {
        0
    }
}

/// The text of a byte string, empty where it is not UTF-8.
pub open spec fn text_or_empty(bytes: Seq<u8>) -> Seq<char> {
    if valid_utf8(bytes) {
        decode_utf8(bytes)
    } else {
        Seq::empty()
    }
}

/// The reply to a colour query.
pub open spec fn color_reply(head: Seq<u8>, c: (u8, u8, u8)) -> Seq<u8> {
    head + encode_utf8(color_text(c.0, c.1, c.2)) + lit("\x1b\\")
}

/// Which of the three special colours a command is about.
#[derive(Debug, Clone, Copy, PartialEq, Eq, Structural)]
pub enum Special {
    /// OSC 10.
    Foreground,
    /// OSC 11.
    Background,
    /// OSC 12.
    Cursor,
}

/// The first bytes of a reply about a special colour.
pub open spec fn special_head(which: Special) -> Seq<u8> {
    match which {
        Special::Foreground => lit("\x1b]10;"),
        Special::Background => lit("\x1b]11;"),
        Special::Cursor => lit("\x1b]12;"),
    }
}

impl PaletteState {
    pub open spec fn special(self, which: Special) -> (u8, u8, u8) {
        match which {
            Special::Foreground => self.fg,
            Special::Background => self.bg,
            Special::Cursor => self.cursor,
        }
    }

    pub open spec fn with_special(self, which: Special, c: (u8, u8, u8)) -> PaletteState {
        match which {
            Special::Foreground => PaletteState { fg: c, ..self },
            Special::Background => PaletteState { bg: c, ..self },
            Special::Cursor => PaletteState { cursor: c, ..self },
        }
    }
}

/// A piece of hyperlink parameters that gives the link's id.
pub open spec fn is_id(s: Seq<u8>) -> bool {
    s.len() >= 3 && s[0] == 0x69 && s[1] == 0x64 && s[2] == 0x3d
}

/// The number of the first `id=` among the pieces from index `i` on.
pub open spec fn first_id(parts: Seq<Seq<u8>>, i: int) -> Option<int>
    decreases parts.len() - i,
{
    if i < 0 || i >= parts.len() {
        None
    } else if is_id(parts[i]) {
        unsigned_number(parts[i].subrange(3, parts[i].len() as int), 10, 0xffff_ffff)
    } else {
        first_id(parts, i + 1)
    }
}

/// The id that hyperlink parameters give.
pub open spec fn link_id(s: Seq<u8>) -> Option<int> {
    if valid_utf8(s) {
        first_id(split(s, 0x3b), 0)
    } else {
        None
    }
}

impl LinksState {
    /// No link for what is printed from now on.
    pub open spec fn ended(self) -> LinksState {
        LinksState { active: 0, ..self }
    }

    /// A link to `url` for what is printed from now on.
    pub open spec fn started(self, id: Option<int>, url: Seq<char>) -> LinksState {
        let key = match id {
            Some(n) => n as u32,
            None => self.next,
        };
        LinksState {
            urls: self.urls.insert(key, url),
            active: key,
            next: if id is None {
                key.wrapping_add(1)
            } else {
                self.next
            },
        }
    }
}

/// The text of a notification command: its last field in the progress form
/// (`4`), its first otherwise.
pub open spec fn notice(params: Seq<Seq<u8>>) -> Option<Seq<u8>> {
    if params.len() >= 4 && is_byte(params[1], 0x34) {
        Some(params[3])
    } else if params.len() >= 2 {
        Some(params[1])
    } else {
        None
    }
}

/// `None` for an empty text.
pub open spec fn some_text(s: Seq<char>) -> Option<Seq<char>> {
    if s.len() == 0 {
        None
    } else {
        Some(s)
    }
}

/// The row marker that a shell integration command sets.
pub open spec fn marker_of(kind: Seq<u8>) -> Option<u8> {
    if is_byte(kind, 0x41) || is_byte(kind, 0x45) {
        Some(1)
    } else if is_byte(kind, 0x42) {
        Some(2)
    } else if is_byte(kind, 0x43) || is_byte(kind, 0x44) {
        Some(3)
    } else {
        None
    }
}

impl GridState {
    pub open spec fn with_palette(self, palette: PaletteState) -> GridState {
        GridState { palette, ..self }
    }

    pub open spec fn with_links(self, links: LinksState) -> GridState {
        GridState { links, ..self }
    }

    /// OSC 0, 2: the window title.
    pub open spec fn osc_title(self, params: Seq<Seq<u8>>) -> GridState {
        let title = join_from(params, 0x3b, 1);
        if params.len() > 1 && valid_utf8(title) {
            self.with_palette(PaletteState { title: decode_utf8(title), ..self.palette })
        } else {
            self
        }
    }

    /// OSC 4: a colour of the palette, set or asked for.
    pub open spec fn osc_color(self, params: Seq<Seq<u8>>) -> GridState {
        if params.len() >= 3 {
            match unsigned_number(params[1], 10, 255) {
                Some(i) => if is_byte(params[2], 0x3f) {
                    self.replying(
                        color_reply(
                            lit("\x1b]4;") + decimal(i as nat) + lit(";"),
                            self.palette.colors[i],
                        ),
                    )
                } else {
                    match color_of(params[2]) {
                        Some(c) => self.with_palette(
                            PaletteState {
                                colors: self.palette.colors.update(i, c),
                                ..self.palette
                            },
                        ),
                        None => self,
                    }
                },
                None => self,
            }
        } else {
            self
        }
    }

    /// OSC 10, 11, 12: a special colour, set or asked for.
    pub open spec fn osc_special(self, which: Special, params: Seq<Seq<u8>>) -> GridState {
        if params.len() >= 2 {
            if is_byte(params[1], 0x3f) {
                self.replying(color_reply(special_head(which), self.palette.special(which)))
            } else {
                match color_of(params[1]) {
                    Some(c) => self.with_palette(self.palette.with_special(which, c)),
                    None => self,
                }
            }
        } else {
            self
        }
    }

    /// OSC 52: the clipboard, set, cleared or asked for.
    pub open spec fn osc_clipboard(self, params: Seq<Seq<u8>>) -> GridState {
        if params.len() >= 3 {
            if is_byte(params[2], 0x3f) {
                self.with_outbox(OutboxState { clipboard_query: true, ..self.outbox })
            } else if params[2].len() == 0 {
                self.with_outbox(
                    OutboxState { clipboard_set: Some(Seq::empty()), ..self.outbox },
                )
            } else {
                match carried_text(params[2]) {
                    Some(s) => self.with_outbox(
                        OutboxState { clipboard_set: Some(s), ..self.outbox },
                    ),
                    None => self,
                }
            }
        } else {
            self
        }
    }

    /// OSC 8: a hyperlink started or ended.
    pub open spec fn osc_link(self, params: Seq<Seq<u8>>) -> GridState {
        if params.len() >= 3 {
            let url = text_or_empty(params[2]);
            if url.len() == 0 {
                self.with_links(self.links.ended())
            } else {
                self.with_links(self.links.started(link_id(params[1]), url))
            }
        } else if params.len() == 1 {
            self.with_links(self.links.ended())
        } else {
            self
        }
    }

    /// OSC 7: the working directory.
    pub open spec fn osc_cwd(self, params: Seq<Seq<u8>>) -> GridState {
        if params.len() >= 2 {
            self.with_outbox(
                OutboxState { cwd: some_text(text_or_empty(params[1])), ..self.outbox },
            )
        } else {
            self
        }
    }

    /// OSC 9: a notification; `7` alone rings the bell.
    pub open spec fn osc_notify(self, params: Seq<Seq<u8>>) -> GridState {
        match notice(params) {
            Some(msg) => if params.len() == 2 && is_byte(msg, 0x37) {
                self.with_outbox(OutboxState { bell: true, ..self.outbox })
            } else if valid_utf8(msg) {
                self.with_outbox(
                    OutboxState { notification: some_text(decode_utf8(msg)), ..self.outbox },
                )
            } else {
                self
            },
            None => self,
        }
    }

    /// The marker of the cursor row.
    pub open spec fn row_marked(self, row: int, marker: u8) -> GridState {
        if row < self.screen.rows {
            self.with_screen(
                ScreenState { markers: self.screen.markers.update(row, marker), ..self.screen },
            )
        } else {
            self
        }
    }

    /// OSC 133: shell integration.
    pub open spec fn osc_shell(self, params: Seq<Seq<u8>>) -> GridState {
        if params.len() >= 2 {
            match marker_of(params[1]) {
                Some(m) => self.row_marked(self.row, m),
                None => self,
            }
        } else {
            self
        }
    }

    /// OSC 104: the palette reset.
    pub open spec fn palette_reset(self) -> GridState {
        self.with_palette(
            PaletteState { colors: super::attrs::default_colors(), ..self.palette },
        )
    }

    /// OSC 112: the cursor colour reset.
    pub open spec fn cursor_color_reset(self) -> GridState {
        self.with_palette(PaletteState { cursor: (137, 180, 250), ..self.palette })
    }

    /// The operating system command carried out.
    #[verifier::opaque]
    pub open spec fn osc(self, params: Seq<Seq<u8>>) -> GridState {
        let cmd = osc_number(params);
        if cmd == 0 || cmd == 2 {
            self.osc_title(params)
        } else if cmd == 4 {
            self.osc_color(params)
        } else if cmd == 7 {
            self.osc_cwd(params)
        } else if cmd == 8 {
            self.osc_link(params)
        } else if cmd == 9 {
            self.osc_notify(params)
        } else if cmd == 10 {
            self.osc_special(Special::Foreground, params)
        } else if cmd == 11 {
            self.osc_special(Special::Background, params)
        } else if cmd == 12 {
            self.osc_special(Special::Cursor, params)
        } else if cmd == 52 {
            self.osc_clipboard(params)
        } else if cmd == 104 {
            self.palette_reset()
        } else if cmd == 112 {
            self.cursor_color_reset()
        } else if cmd == 133 {
            self.osc_shell(params)
        } else {
            self
        }
    }
}

// ---------------------------------------------------------------------------
// Executable
// ---------------------------------------------------------------------------

fn text_or_nothing(bytes: &[u8]) -> (r: String)
    ensures
        r@ == text_or_empty(bytes@),
{
    match utf8_text(bytes) {
        Some(s) => s,
        None => {
            let s = String::new();
            proof {
                assert(s@ =~= Seq::empty());
            }
            s
        },
    }
}

/// True when the string has no character.
fn no_text(s: &String) -> (r: bool)
    ensures
        r == (s@.len() == 0),
{
    let bytes = s.as_str().as_bytes();
    proof {
        encode_utf8_decode_utf8(s@);
        if bytes@.len() == 0 {
            assert(bytes@ =~= encode_utf8(Seq::<char>::empty()));
            encode_utf8_decode_utf8(Seq::<char>::empty());
        } else if s@.len() == 0 {
            assert(s@ =~= Seq::<char>::empty());
        }
    }
    bytes.len() == 0
}

/// The text, unless it is empty.
fn text_or_none(s: String) -> (r: Option<String>)
    ensures
        super::cell::text_view(r) == some_text(s@),
{
    if no_text(&s) {
        None
    } else {
        Some(s)
    }
}

/// The id that hyperlink parameters give.
fn read_link_id(bytes: &[u8]) -> (r: Option<u32>)
    ensures
        match r {
            Some(v) => link_id(bytes@) == Some(v as int),
            None => link_id(bytes@) is None,
        },
{
    if utf8_text(bytes).is_none() {
        return None;
    }
    let parts = split_bytes(bytes, 0x3b);
    let ghost vs = views(parts@);
    let mut i: usize = 0;
    while i < parts.len()
        invariant
            i <= parts@.len(),
            vs == views(parts@),
            vs == split(bytes@, 0x3b),
            valid_utf8(bytes@),
            first_id(vs, 0) == first_id(vs, i as int),
        decreases parts@.len() - i,
    {
        let p = &parts[i];
        proof {
            assert(vs[i as int] == p@);
        }
        if p.len() >= 3 && p[0] == 0x69 && p[1] == 0x64 && p[2] == 0x3d {
            let digits = copy_range(p.as_slice(), 3, p.len());
            return parse_unsigned(digits.as_slice(), 10, 0xffff_ffff);
        }
        i += 1;
    }
    None
}

impl Links {
    /// Link what is printed from now on to `url`.
    pub fn start(&mut self, id: Option<u32>, url: String)
        ensures
            final(self)@ == old(self)@.started(
                match id {
                    Some(v) => Some(v as int),
                    None => None,
                },
                url@,
            ),
    {
        let key: u32 = match id {
            Some(v) => v,
            None => self.next_hyperlink_id,
        };
        let ghost before = self.hyperlinks@;
        self.hyperlinks.insert(key, url);
        proof {
            assert(urls_view(self.hyperlinks@) =~= urls_view(before).insert(key, url@));
        }
        self.active_hyperlink_id = key;
        if id.is_none() {
            self.next_hyperlink_id = key.wrapping_add(1);
        }
    }
}

impl Screen {
    /// Set the marker of a row.
    pub fn set_marker(&mut self, row: usize, marker: u8)
        requires
            old(self).wf(),
            row < old(self).rows,
        ensures
            final(self).wf(),
            final(self)@ == (ScreenState {
                markers: old(self)@.markers.update(row as int, marker),
                ..old(self)@
            }),
    {
        proof {
            reveal(ScreenState::filled);
        }
        self.shell_markers[row] = marker;
    }
}

impl Grid {
    fn set_title(&mut self, params: &Vec<Vec<u8>>)
        requires
            old(self).wf(),
        ensures
            final(self).wf(),
            final(self)@ == old(self)@.osc_title(views(params@)),
    {
        if params.len() > 1 {
            let title = join_bytes(params, 0x3b, 1);
            if let Some(s) = utf8_text(title.as_slice()) {
                self.palette.set_title(s.as_str());
            }
        }
    }

    fn set_palette_color(&mut self, params: &Vec<Vec<u8>>)
        requires
            old(self).wf(),
        ensures
            final(self).wf(),
            final(self)@ == old(self)@.osc_color(views(params@)),
    {
        if params.len() >= 3 {
            let spec = &params[2];
            proof {
                assert(views(params@)[1] == params@[1]@ && views(params@)[2] == spec@);
            }
            if let Some(index) = parse_unsigned(params[1].as_slice(), 10, 255) {
                if spec.len() == 1 && spec[0] == 0x3f {
                    if let Some((r, g, b)) = self.palette.get_color(index as u8) {
                        let mut out: Vec<u8> = Vec::new();
                        put_str(&mut out, "\x1b]4;");
                        put_decimal(&mut out, index as u64);
                        put_str(&mut out, ";");
                        let color = Grid::color_spec(r, g, b);
                        put_str(&mut out, color.as_str());
                        put_str(&mut out, "\x1b\\");
                        proof {
                            assert(out@ =~= color_reply(
                                lit("\x1b]4;") + decimal(index as nat) + lit(";"),
                                (r, g, b),
                            ));
                        }
                        self.respond(out);
                    }
                } else if let Some((r, g, b)) = parse_color_spec(spec.as_slice()) {
                    self.palette.set_color(index as u8, r, g, b);
                }
            }
        }
    }

    fn set_special_color(&mut self, which: Special, params: &Vec<Vec<u8>>)
        requires
            old(self).wf(),
        ensures
            final(self).wf(),
            final(self)@ == old(self)@.osc_special(which, views(params@)),
    {
        if params.len() >= 2 {
            let spec = &params[1];
            proof {
                assert(views(params@)[1] == spec@);
            }
            if spec.len() == 1 && spec[0] == 0x3f {
                let (r, g, b) = match which {
                    Special::Foreground => self.palette.default_fg,
                    Special::Background => self.palette.default_bg,
                    Special::Cursor => self.palette.cursor_color,
                };
                let mut out: Vec<u8> = Vec::new();
                put_str(
                    &mut out,
                    match which {
                        Special::Foreground => "\x1b]10;",
                        Special::Background => "\x1b]11;",
                        Special::Cursor => "\x1b]12;",
                    },
                );
                let color = Grid::color_spec(r, g, b);
                put_str(&mut out, color.as_str());
                put_str(&mut out, "\x1b\\");
                proof {
                    assert(out@ =~= color_reply(special_head(which), (r, g, b)));
                }
                self.respond(out);
            } else if let Some((r, g, b)) = parse_color_spec(spec.as_slice()) {
                match which {
                    Special::Foreground => self.palette.set_fg(r, g, b),
                    Special::Background => self.palette.set_bg(r, g, b),
                    Special::Cursor => self.palette.set_cursor_color(r, g, b),
                }
            }
        }
    }

    fn set_clipboard(&mut self, params: &Vec<Vec<u8>>)
        requires
            old(self).wf(),
        ensures
            final(self).wf(),
            final(self)@ == old(self)@.osc_clipboard(views(params@)),
    {
        if params.len() >= 3 {
            let data = &params[2];
            proof {
                assert(views(params@)[2] == data@);
            }
            if data.len() == 1 && data[0] == 0x3f {
                self.outbox.clipboard_query_requested = true;
            } else if data.len() == 0 {
                let empty = String::new();
                proof {
                    assert(empty@ =~= Seq::empty());
                }
                self.outbox.clipboard_set = Some(empty);
            } else if let Some(text) = decode_text(data.as_slice()) {
                self.outbox.clipboard_set = Some(text);
            }
        }
    }

    fn set_link(&mut self, params: &Vec<Vec<u8>>)
        requires
            old(self).wf(),
        ensures
            final(self).wf(),
            final(self)@ == old(self)@.osc_link(views(params@)),
    {
        if params.len() >= 3 {
            proof {
                assert(views(params@)[1] == params@[1]@ && views(params@)[2] == params@[2]@);
            }
            let id = read_link_id(params[1].as_slice());
            let url = text_or_nothing(params[2].as_slice());
            if no_text(&url) {
                self.links.active_hyperlink_id = 0;
            } else {
                self.links.start(id, url);
            }
        } else if params.len() == 1 {
            self.links.active_hyperlink_id = 0;
        }
    }

    fn set_cwd(&mut self, params: &Vec<Vec<u8>>)
        requires
            old(self).wf(),
        ensures
            final(self).wf(),
            final(self)@ == old(self)@.osc_cwd(views(params@)),
    {
        if params.len() >= 2 {
            let uri = text_or_nothing(params[1].as_slice());
            proof {
                assert(views(params@)[1] == params@[1]@);
            }
            self.outbox.cwd = text_or_none(uri);
        }
    }

    fn set_notification(&mut self, params: &Vec<Vec<u8>>)
        requires
            old(self).wf(),
        ensures
            final(self).wf(),
            final(self)@ == old(self)@.osc_notify(views(params@)),
    {
        let len: usize = params.len();
        if len >= 2 {
            proof {
                assert(views(params@)[1] == params@[1]@);
            }
            if len == 2 && params[1].len() == 1 && params[1][0] == 0x37 {
                self.outbox.bell_pending = true;
                return ;
            }
            let progress = len >= 4 && params[1].len() == 1 && params[1][0] == 0x34;
            let at: usize = if progress {
                3
            } else {
                1
            };
            proof {
                assert(views(params@)[at as int] == params@[at as int]@);
            }
            if let Some(s) = utf8_text(params[at].as_slice()) {
                self.outbox.notification = text_or_none(s);
            }
        }
    }

    /// Set the shell integration marker of a row.
    pub fn set_row_marker(&mut self, row: usize, marker: u8)
        requires
            old(self).wf(),
        ensures
            final(self).wf(),
            final(self)@ == old(self)@.row_marked(row as int, marker),
    {
        if row < self.screen.rows {
            self.screen.set_marker(row, marker);
        }
    }

    fn mark_shell(&mut self, params: &Vec<Vec<u8>>)
        requires
            old(self).wf(),
        ensures
            final(self).wf(),
            final(self)@ == old(self)@.osc_shell(views(params@)),
    {
        let row: usize = self.cursor.row;
        if params.len() >= 2 {
            let kind = &params[1];
            proof {
                assert(views(params@)[1] == kind@);
            }
            if kind.len() == 1 {
                if kind[0] == 0x41 || kind[0] == 0x45 {
                    self.set_row_marker(row, 1);
                } else if kind[0] == 0x42 {
                    self.set_row_marker(row, 2);
                } else if kind[0] == 0x43 || kind[0] == 0x44 {
                    self.set_row_marker(row, 3);
                }
            }
        }
    }

    /// Carry out an operating system command.
    pub fn handle_osc(&mut self, params: &Vec<Vec<u8>>)
        requires
            old(self).wf(),
        ensures
            final(self).wf(),
            final(self)@ == old(self)@.osc(views(params@)),
    {
        let cmd: u32 = if params.len() > 0 {
            match parse_unsigned(params[0].as_slice(), 10, 65535) {
                Some(n) => n,
                None => 0,
            }
        } else {
            0
        };
        proof {
            if params@.len() > 0 {
                assert(views(params@)[0] == params@[0]@);
            }
            assert(cmd == osc_number(views(params@)));
            reveal(GridState::osc);
        }
        if cmd == 0 || cmd == 2 {
            self.set_title(params);
        } else if cmd == 4 {
            self.set_palette_color(params);
        } else if cmd == 7 {
            self.set_cwd(params);
        } else if cmd == 8 {
            self.set_link(params);
        } else if cmd == 9 {
            self.set_notification(params);
        } else if cmd == 10 {
            self.set_special_color(Special::Foreground, params);
        } else if cmd == 11 {
            self.set_special_color(Special::Background, params);
        } else if cmd == 12 {
            self.set_special_color(Special::Cursor, params);
        } else if cmd == 52 {
            self.set_clipboard(params);
        } else if cmd == 104 {
            self.palette.reset_palette();
        } else if cmd == 112 {
            self.palette.reset_cursor_color();
        } else if cmd == 133 {
            self.mark_shell(params);
        }
    }
}

} // verus!
