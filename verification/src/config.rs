//! Configuration values, their defaults, and colors written in hexadecimal.
use vstd::prelude::*;
use vstd::utf8::*;

use crate::grid::replies::{hex2, hex2_reads_back};
use crate::grid::view::strings;
use crate::text::{copy_range, parse_unsigned, put_str, unsigned_number};

verus! {

/// Family name of the font embedded in the binary. Used to decide whether a
/// configured `family` should trigger a system fontconfig lookup.
pub const EMBEDDED_FONT_FAMILY: &'static str = "JetBrains Mono";

/// A font size of fifteen points, as the bits of a single-precision number.
pub const DEFAULT_FONT_SIZE: u32 = 0x4170_0000;

/// Full opacity, as the bits of a double-precision number.
pub const DEFAULT_OPACITY: u64 = 0x3ff0_0000_0000_0000;

/// Terminal configuration.
#[derive(Debug)]
pub struct Config {
    /// Font settings.
    pub font: FontConfig,
    /// Window settings.
    pub window: WindowConfig,
    /// Color settings.
    pub colors: ColorConfig,
    /// Keyboard settings.
    pub keyboard: KeyboardConfig,
    /// Shell to run.
    pub shell: String,
    /// Scrollback lines.
    pub scrollback: usize,
    /// Enable mouse reporting by default.
    pub mouse_reporting: bool,
    /// Cursor blink interval in milliseconds (0 = no blink).
    pub cursor_blink_ms: u64,
    /// SGR text blink interval in milliseconds (0 = no blink; rendered solid).
    pub text_blink_ms: u64,
    /// Feedback style for the BEL control character.
    pub bell: BellStyle,
    /// Cursor style.
    pub cursor_style: CursorStyle,
    /// Tab bar settings.
    pub tabs: TabsConfig,
    /// Reduce cursor and UI motion for accessibility.
    pub reduced_motion: bool,
    /// Security and privacy policy for terminal-host interactions.
    pub security: SecurityConfig,
}

/// Security and privacy policy for terminal-host interactions: applications
/// cannot read the clipboard or drive host-window behaviour unless explicitly
/// allowed. Writing the clipboard and setting the window title are the two
/// conveniences kept on by default.
#[derive(Debug)]
pub struct SecurityConfig {
    /// Allow applications to write to the system clipboard via OSC 52.
    pub osc52_write: bool,
    /// Allow applications to read the system clipboard via OSC 52 queries.
    pub osc52_read: bool,
    /// Allow OSC 0/2 to change the window title.
    pub window_title: bool,
    /// URI schemes that hyperlinks may open. A configured list replaces the
    /// default outright.
    pub uri_schemes: Vec<String>,
}

/// Cursor style options.
#[derive(Debug, Clone, Copy, PartialEq, Eq, Structural)]
pub enum CursorStyle {
    Block,
    Bar,
    Underline,
}

/// Feedback style for the BEL (0x07) control character.
#[derive(Debug, Clone, Copy, PartialEq, Eq, Structural)]
pub enum BellStyle {
    /// Briefly tint the window (visual flash).
    Flash,
    /// Emit an audible beep through the host terminal.
    Audible,
    /// No feedback.
    Silent,
}

/// Font settings.
#[derive(Debug)]
pub struct FontConfig {
    /// Font family name.
    pub family: String,
    /// Font size in points, as the bits of a single-precision number.
    pub size: u32,
    /// Font file path (optional, overrides family).
    pub path: Option<String>,
    /// Bold font file path (optional).
    pub bold_path: Option<String>,
    /// Italic font file path (optional).
    pub italic_path: Option<String>,
    /// Enable font ligatures.
    pub ligatures: bool,
}

/// Window settings.
#[derive(Debug)]
pub struct WindowConfig {
    /// Window title.
    pub title: String,
    /// Default columns.
    pub cols: u16,
    /// Default rows.
    pub rows: u16,
    /// Window padding in pixels.
    pub padding: u32,
    /// Window opacity from 0 to 1, as the bits of a double-precision number.
    pub opacity: u64,
    /// Window decorations.
    pub decorations: bool,
    /// Always on top.
    pub always_on_top: bool,
    /// Enable VSync (vertical sync).
    pub vsync: bool,
    /// Background blur behind translucent windows.
    pub blur: bool,
}

/// Color settings, each `#RRGGBB` or `#RRGGBBAA`.
#[derive(Debug)]
pub struct ColorConfig {
    /// Theme name to load (overrides individual color settings if set).
    pub theme: Option<String>,
    /// Background color.
    pub background: String,
    /// Foreground color.
    pub foreground: String,
    /// Cursor color.
    pub cursor: String,
    /// Cursor text color (color of text under cursor).
    pub cursor_text: String,
    /// Selection background color.
    pub selection_bg: String,
    /// Selection foreground color.
    pub selection_fg: String,
    /// ANSI color palette (16 colors).
    pub ansi: Vec<String>,
    /// Bold text color (optional, uses foreground if not set).
    pub bold: Option<String>,
    /// Dim text color (optional, uses foreground if not set).
    pub dim: Option<String>,
}

/// Keyboard settings.
#[derive(Debug)]
pub struct KeyboardConfig {
    /// Custom key bindings.
    pub bindings: Vec<KeyBinding>,
}

/// A key combination and what it does.
#[derive(Debug)]
pub struct KeyBinding {
    /// Key combination (e.g., "Ctrl+Shift+C").
    pub key: String,
    /// Action to perform.
    pub action: String,
}

/// Tab bar configuration.
#[derive(Debug)]
pub struct TabsConfig {
    /// Show the tab bar when there is more than one tab.
    pub show_tab_bar: bool,
    /// Tab bar height in pixels.
    pub height: u32,
}

impl Default for CursorStyle {
    fn default() -> (r: Self)
        ensures
            r == CursorStyle::Block,
    {
        CursorStyle::Block
    }
}

impl Default for BellStyle {
    fn default() -> (r: Self)
        ensures
            r == BellStyle::Flash,
    {
        BellStyle::Flash
    }
}

impl Default for TabsConfig {
    fn default() -> (r: Self)
        ensures
            r == (TabsConfig { show_tab_bar: true, height: 30 }),
    {
        TabsConfig { show_tab_bar: true, height: 30 }
    }
}

impl Default for KeyboardConfig {
    fn default() -> (r: Self)
        ensures
            r.bindings@.len() == 0,
    {
        KeyboardConfig { bindings: Vec::new() }
    }
}

impl SecurityConfig {
    /// The policy that holds unless configured otherwise.
    pub open spec fn is_default(self) -> bool {
        &&& self.osc52_write
        &&& !self.osc52_read
        &&& self.window_title
        &&& strings(self.uri_schemes@) == seq!["http"@, "https"@]
    }
}

impl Default for SecurityConfig {
    fn default() -> (r: Self)
        ensures
            r.is_default(),
    {
        let mut uri_schemes: Vec<String> = Vec::new();
        uri_schemes.push("http".to_owned());
        uri_schemes.push("https".to_owned());
        proof {
            assert(strings(uri_schemes@) =~= seq!["http"@, "https"@]);
        }
        SecurityConfig { osc52_write: true, osc52_read: false, window_title: true, uri_schemes }
    }
}

impl FontConfig {
    /// The embedded font at fifteen points, with ligatures.
    pub open spec fn is_default(self) -> bool {
        &&& self.family@ == EMBEDDED_FONT_FAMILY@
        &&& self.size == DEFAULT_FONT_SIZE
        &&& self.path is None
        &&& self.bold_path is None
        &&& self.italic_path is None
        &&& self.ligatures
    }
}

impl Default for FontConfig {
    fn default() -> (r: Self)
        ensures
            r.is_default(),
    {
        FontConfig {
            family: EMBEDDED_FONT_FAMILY.to_owned(),
            size: DEFAULT_FONT_SIZE,
            path: None,
            bold_path: None,
            italic_path: None,
            ligatures: true,
        }
    }
}

impl WindowConfig {
    /// An opaque decorated window of eighty columns and twenty-four rows.
    pub open spec fn is_default(self) -> bool {
        &&& self.title@ == "Terminal"@
        &&& self.cols == 80
        &&& self.rows == 24
        &&& self.padding == 0
        &&& self.opacity == DEFAULT_OPACITY
        &&& self.decorations
        &&& !self.always_on_top
        &&& self.vsync
        &&& !self.blur
    }
}

impl Default for WindowConfig {
    fn default() -> (r: Self)
        ensures
            r.is_default(),
    {
        WindowConfig {
            title: "Terminal".to_owned(),
            cols: 80,
            rows: 24,
            padding: 0,
            opacity: DEFAULT_OPACITY,
            decorations: true,
            always_on_top: false,
            vsync: true,
            blur: false,
        }
    }
}

/// The default ANSI palette, from black to bright white.
pub open spec fn default_ansi() -> Seq<Seq<char>> {
    seq![
        "#1E1E2E"@,
        "#F38BA8"@,
        "#A6E3A1"@,
        "#F9E2AF"@,
        "#89B4FA"@,
        "#F5C2E7"@,
        "#94E2D5"@,
        "#BAC2DE"@,
        "#585B70"@,
        "#F38BA8"@,
        "#A6E3A1"@,
        "#F9E2AF"@,
        "#89B4FA"@,
        "#F5C2E7"@,
        "#94E2D5"@,
        "#A6ADC8"@,
    ]
}

impl ColorConfig {
    /// The colors used unless configured otherwise.
    pub open spec fn is_default(self) -> bool {
        &&& self.theme is None
        &&& self.background@ == "#1E1E2E"@
        &&& self.foreground@ == "#CDD6F4"@
        &&& self.cursor@ == "#89B4FA"@
        &&& self.cursor_text@ == "#1E1E2E"@
        &&& self.selection_bg@ == "#45475A"@
        &&& self.selection_fg@ == "#CDD6F4"@
        &&& strings(self.ansi@) == default_ansi()
        &&& self.bold is None
        &&& self.dim is None
    }
}

/// Default ANSI color palette (Catppuccin Mocha).
fn default_ansi_palette() -> (r: Vec<String>)
    ensures
        strings(r@) == default_ansi(),
{
    let mut v: Vec<String> = Vec::new();
    v.push("#1E1E2E".to_owned());
    v.push("#F38BA8".to_owned());
    v.push("#A6E3A1".to_owned());
    v.push("#F9E2AF".to_owned());
    v.push("#89B4FA".to_owned());
    v.push("#F5C2E7".to_owned());
    v.push("#94E2D5".to_owned());
    v.push("#BAC2DE".to_owned());
    v.push("#585B70".to_owned());
    v.push("#F38BA8".to_owned());
    v.push("#A6E3A1".to_owned());
    v.push("#F9E2AF".to_owned());
    v.push("#89B4FA".to_owned());
    v.push("#F5C2E7".to_owned());
    v.push("#94E2D5".to_owned());
    v.push("#A6ADC8".to_owned());
    proof {
        assert(strings(v@) =~= default_ansi());
    }
    v
}

impl Default for ColorConfig {
    fn default() -> (r: Self)
        ensures
            r.is_default(),
    {
        ColorConfig {
            theme: None,
            background: "#1E1E2E".to_owned(),
            foreground: "#CDD6F4".to_owned(),
            cursor: "#89B4FA".to_owned(),
            cursor_text: "#1E1E2E".to_owned(),
            selection_bg: "#45475A".to_owned(),
            selection_fg: "#CDD6F4".to_owned(),
            ansi: default_ansi_palette(),
            bold: None,
            dim: None,
        }
    }
}

/// `s` without the `#` characters in front.
pub open spec fn unmarked(s: Seq<u8>) -> Seq<u8>
    decreases s.len(),
{
    if s.len() > 0 && s[0] == 0x23 {
        unmarked(s.skip(1))
    } else {
        s
    }
}

/// The number that the two hexadecimal digits at `at` write.
pub open spec fn hex_pair(s: Seq<u8>, at: int) -> Option<int> {
    unsigned_number(s.subrange(at, at + 2), 16, 255)
}

/// The red, green and blue of a color written with six digits, or eight of
/// which the last two are ignored.
pub open spec fn hex_color(s: Seq<u8>) -> Option<(int, int, int)> {
    let t = unmarked(s);
    if t.len() == 6 || t.len() == 8 {
        match (hex_pair(t, 0), hex_pair(t, 2), hex_pair(t, 4)) {
            (Some(r), Some(g), Some(b)) => Some((r, g, b)),
            _ => None,
        }
    } else {
        None
    }
}

fn unmark(s: &str) -> (r: Vec<u8>)
    ensures
        r@ == unmarked(encode_utf8(s@)),
{
    let mut bytes: Vec<u8> = Vec::new();
    put_str(&mut bytes, s);
    proof {
        assert(bytes@ =~= encode_utf8(s@));
    }
    let n: usize = bytes.len();
    let mut i: usize = 0;
    proof {
        assert(bytes@.skip(0) =~= bytes@);
    }
    while i < n && bytes[i] == 0x23
        invariant
            i <= n,
            n == bytes@.len(),
            unmarked(bytes@.skip(i as int)) == unmarked(bytes@),
        decreases n - i,
    {
        proof {
            assert(bytes@.skip(i as int).skip(1) =~= bytes@.skip(i + 1));
        }
        i += 1;
    }
    let r = copy_range(bytes.as_slice(), i, n);
    proof {
        assert(bytes@.skip(i as int) =~= r@);
        assert(unmarked(bytes@.skip(i as int)) =~= r@);
    }
    r
}

fn pair_at(s: &Vec<u8>, at: usize) -> (r: Option<u8>)
    requires
        at + 2 <= s@.len(),
    ensures
        r is Some <==> hex_pair(s@, at as int) is Some,
        r matches Some(v) ==> hex_pair(s@, at as int) == Some(v as int),
{
    let n: usize = s.len();
    assert(at + 2 <= n);
    let pair = copy_range(s.as_slice(), at, at + 2);
    match parse_unsigned(pair.as_slice(), 16, 255) {
        Some(v) => Some(v as u8),
        None => None,
    }
}

/// The value of a pair, or `otherwise` where it is not written with digits.
pub open spec fn pair_or(s: Seq<u8>, at: int, otherwise: int) -> int {
    match hex_pair(s, at) {
        Some(v) => v,
        None => otherwise,
    }
}

/// The red, green, blue and alpha of a drawn color: what is not written with
/// digits counts as zero, a missing or malformed alpha as opaque.
pub open spec fn drawn_color(s: Seq<u8>) -> (int, int, int, int) {
    let t = unmarked(s);
    (
        pair_or(t, 0, 0),
        pair_or(t, 2, 0),
        pair_or(t, 4, 0),
        if t.len() >= 8 {
            pair_or(t, 6, 255)
        } else {
            255
        },
    )
}

fn pair_value(s: &Vec<u8>, at: usize, otherwise: u8) -> (r: u8)
    requires
        at + 2 <= s@.len(),
    ensures
        r == pair_or(s@, at as int, otherwise as int),
{
    match pair_at(s, at) {
        Some(v) => v,
        None => otherwise,
    }
}

/// Parse a color to draw with (`#RRGGBB` or `#RRGGBBAA`) into its components.
pub fn parse_hex_color(s: &str) -> (r: (u8, u8, u8, u8))
    requires
        unmarked(encode_utf8(s@)).len() >= 6,
    ensures
        (r.0 as int, r.1 as int, r.2 as int, r.3 as int) == drawn_color(encode_utf8(s@)),
{
    let t = unmark(s);
    let a: u8 = if t.len() >= 8 {
        pair_value(&t, 6, 255)
    } else {
        255
    };
    (pair_value(&t, 0, 0), pair_value(&t, 2, 0), pair_value(&t, 4, 0), a)
}

/// Where a color reads as one, drawing with it uses the same components.
pub proof fn drawn_as_parsed(s: Seq<u8>)
    requires
        hex_color(s) is Some,
    ensures
        ({
            let (r, g, b, _) = drawn_color(s);
            hex_color(s) == Some((r, g, b))
        }),
{
}

impl Config {
    /// The configuration used where none is found, with the given shell.
    pub open spec fn is_default(self, shell: Seq<char>) -> bool {
        &&& self.font.is_default()
        &&& self.window.is_default()
        &&& self.colors.is_default()
        &&& self.keyboard.bindings@.len() == 0
        &&& self.shell@ == shell
        &&& self.scrollback == 10000
        &&& !self.mouse_reporting
        &&& self.cursor_blink_ms == 500
        &&& self.text_blink_ms == 500
        &&& self.bell == BellStyle::Flash
        &&& self.cursor_style == CursorStyle::Block
        &&& self.tabs == (TabsConfig { show_tab_bar: true, height: 30 })
        &&& !self.reduced_motion
        &&& self.security.is_default()
    }

    /// The default configuration with the user's shell, or `/bin/bash` where
    /// none is known.
    pub fn with_shell(shell: Option<String>) -> (r: Self)
        ensures
            r.is_default(
                match shell {
                    Some(s) => s@,
                    None => "/bin/bash"@,
                },
            ),
    {
        let shell = match shell {
            Some(s) => s,
            None => "/bin/bash".to_owned(),
        };
        Config {
            font: FontConfig::default(),
            window: WindowConfig::default(),
            colors: ColorConfig::default(),
            keyboard: KeyboardConfig::default(),
            shell,
            scrollback: 10000,
            mouse_reporting: false,
            cursor_blink_ms: 500,
            text_blink_ms: 500,
            cursor_style: CursorStyle::Block,
            tabs: TabsConfig::default(),
            reduced_motion: false,
            bell: BellStyle::Flash,
            security: SecurityConfig::default(),
        }
    }

    /// Parse a hex color string to RGB values.
    pub fn parse_color(hex: &str) -> (r: Option<(u8, u8, u8)>)
        ensures
            r is Some <==> hex_color(encode_utf8(hex@)) is Some,
            r matches Some(c) ==> hex_color(encode_utf8(hex@)) == Some(
                (c.0 as int, c.1 as int, c.2 as int),
            ),
    {
        let t = unmark(hex);
        if t.len() != 6 && t.len() != 8 {
            return None;
        }
        match (pair_at(&t, 0), pair_at(&t, 2), pair_at(&t, 4)) {
            (Some(r), Some(g), Some(b)) => Some((r, g, b)),
            _ => None,
        }
    }

    /// The configuration as the program uses it: the colors of the theme, when
    /// one was found, and no cursor blinking where motion is reduced.
    pub fn prepared(self, theme: Option<ColorConfig>) -> (r: Self)
        ensures
            r == (Config {
                colors: match theme {
                    Some(colors) => colors,
                    None => self.colors,
                },
                cursor_blink_ms: if self.reduced_motion {
                    0
                } else {
                    self.cursor_blink_ms
                },
                ..self
            }),
    {
        let mut config = self;
        if let Some(colors) = theme {
            config.colors = colors;
        }
        if config.reduced_motion {
            config.cursor_blink_ms = 0;
        }
        config
    }

    /// Sizes given on the command line take precedence.
    pub fn override_size(&mut self, cols: Option<u16>, rows: Option<u16>)
        ensures
            *final(self) == (Config {
                window: WindowConfig {
                    cols: match cols {
                        Some(n) => n,
                        None => old(self).window.cols,
                    },
                    rows: match rows {
                        Some(n) => n,
                        None => old(self).window.rows,
                    },
                    ..old(self).window
                },
                ..*old(self)
            }),
    {
        if let Some(n) = cols {
            self.window.cols = n;
        }
        if let Some(n) = rows {
            self.window.rows = n;
        }
    }
}

impl Default for Config {
    /// The default configuration; the shell is `/bin/bash`.
    fn default() -> (r: Self)
        ensures
            r.is_default("/bin/bash"@),
    {
        Config::with_shell(None)
    }
}

/// A color that is written in hexadecimal digits reads as its components, with
/// a mark before it or without, and is drawn with them and its alpha.
pub proof fn written_colors_are_read(r: u8, g: u8, b: u8, a: u8)
    ensures
        ({
            let rgb = hex2(r) + hex2(g) + hex2(b);
            &&& hex_color(rgb) == Some((r as int, g as int, b as int))
            &&& hex_color(seq![0x23u8] + rgb) == Some((r as int, g as int, b as int))
            &&& hex_color(rgb + hex2(a)) == Some((r as int, g as int, b as int))
            &&& drawn_color(rgb) == (r as int, g as int, b as int, 255int)
            &&& drawn_color(rgb + hex2(a)) == (r as int, g as int, b as int, a as int)
        }),
{
    hex2_reads_back(r);
    hex2_reads_back(g);
    hex2_reads_back(b);
    hex2_reads_back(a);
    four_pairs(hex2(r), hex2(g), hex2(b), hex2(a));
}

proof fn four_pairs(x: Seq<u8>, y: Seq<u8>, z: Seq<u8>, w: Seq<u8>)
    requires
        x.len() == 2,
        y.len() == 2,
        z.len() == 2,
        w.len() == 2,
        0x30 <= x[0],
    ensures
        ({
            let s = x + y + z;
            &&& unmarked(s) == s && unmarked(s + w) == s + w
            &&& unmarked(seq![0x23u8] + s) == s
            &&& hex_pair(s, 0) == unsigned_number(x, 16, 255)
            &&& hex_pair(s, 2) == unsigned_number(y, 16, 255)
            &&& hex_pair(s, 4) == unsigned_number(z, 16, 255)
            &&& hex_pair(s + w, 0) == unsigned_number(x, 16, 255)
            &&& hex_pair(s + w, 2) == unsigned_number(y, 16, 255)
            &&& hex_pair(s + w, 4) == unsigned_number(z, 16, 255)
            &&& hex_pair(s + w, 6) == unsigned_number(w, 16, 255)
        }),
{
    let s = x + y + z;
    let t = s + w;
    let m = seq![0x23u8] + s;
    assert(s[0] == x[0] && t[0] == x[0]);
    assert(m.skip(1) =~= s);
    assert(m.subrange(1, m.len() as int) =~= s);
    reveal_with_fuel(unmarked, 3);
    assert(s.subrange(0, 2) =~= x && s.subrange(2, 4) =~= y && s.subrange(4, 6) =~= z);
    assert(t.subrange(0, 2) =~= x && t.subrange(2, 4) =~= y && t.subrange(4, 6) =~= z
        && t.subrange(6, 8) =~= w);
}

} // verus!
