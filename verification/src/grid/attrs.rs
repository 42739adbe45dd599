//! SGR attributes, colours and the 256-entry palette.
use vstd::prelude::*;

verus! {

// ---------------------------------------------------------------------------
// Color
// ---------------------------------------------------------------------------

/// Terminal colour: default, palette index or 24-bit.
#[derive(Debug, Clone, Copy, PartialEq, Eq, Structural)]
pub enum Color {
    /// The terminal's own default.
    Default,
    /// Standard 8 colours (0-7), bright 8 (8-15), 6x6x6 cube (16-231),
    /// grayscale ramp (232-255).
    Indexed(u8),
    /// 24-bit colour (SGR 38;2;r;g;b and 48;2;r;g;b).
    Rgb(u8, u8, u8),
}

impl Default for Color {
    fn default() -> (r: Self)
        ensures
            r == Color::Default,
    {
        Color::Default
    }
}

impl Color {
    /// The RGB value of the colour under `palette`; `None` for the default.
    pub fn to_rgb(&self, palette: &ColorPalette) -> (r: Option<(u8, u8, u8)>)
        ensures
            r == match *self {
                Color::Default => None,
                Color::Rgb(r, g, b) => Some((r, g, b)),
                Color::Indexed(i) => Some(palette@.colors[i as int]),
            },
    {
        match self {
            Color::Default => None,
            Color::Rgb(r, g, b) => Some((*r, *g, *b)),
            Color::Indexed(i) => palette.get_color(*i),
        }
    }
}

// ---------------------------------------------------------------------------
// ColorPalette
// ---------------------------------------------------------------------------

/// One channel of the 6x6x6 colour cube: 0, 95, 135, 175, 215, 255.
pub open spec fn cube_level(v: int) -> u8 {
    if v == 0 {
        0
    } else {
        (55 + v * 40) as u8
    }
}

/// The default xterm-256 colour of index `i`.
pub open spec fn default_color(i: int) -> (u8, u8, u8) {
    if i == 0 {
        (0, 0, 0)
    } else if i == 1 {
        (205, 49, 49)
    } else if i == 2 {
        (13, 188, 121)
    } else if i == 3 {
        (229, 229, 16)
    } else if i == 4 {
        (36, 114, 200)
    } else if i == 5 {
        (188, 63, 188)
    } else if i == 6 {
        (17, 168, 205)
    } else if i == 7 {
        (229, 229, 229)
    } else if i == 8 {
        (102, 102, 102)
    } else if i == 9 {
        (241, 76, 76)
    } else if i == 10 {
        (35, 209, 139)
    } else if i == 11 {
        (245, 245, 67)
    } else if i == 12 {
        (59, 142, 234)
    } else if i == 13 {
        (214, 112, 214)
    } else if i == 14 {
        (41, 184, 219)
    } else if i == 15 {
        (255, 255, 255)
    } else if i < 232 {
        (cube_level((i - 16) / 36), cube_level(((i - 16) / 6) % 6), cube_level((i - 16) % 6))
    } else {
        ((8 + (i - 232) * 10) as u8, (8 + (i - 232) * 10) as u8, (8 + (i - 232) * 10) as u8)
    }
}

/// The 256 default colours.
pub open spec fn default_colors() -> Seq<(u8, u8, u8)> {
    Seq::new(256, |i: int| default_color(i))
}

/// Default xterm-256 colour palette.
pub fn default_palette() -> (colors: [(u8, u8, u8); 256])
    ensures
        colors@ == default_colors(),
{
    let mut colors: [(u8, u8, u8); 256] = [(0u8, 0u8, 0u8);256];

    // Standard 8 colours.
    colors[1] = (205, 49, 49);
    colors[2] = (13, 188, 121);
    colors[3] = (229, 229, 16);
    colors[4] = (36, 114, 200);
    colors[5] = (188, 63, 188);
    colors[6] = (17, 168, 205);
    colors[7] = (229, 229, 229);

    // Bright 8 colours.
    colors[8] = (102, 102, 102);
    colors[9] = (241, 76, 76);
    colors[10] = (35, 209, 139);
    colors[11] = (245, 245, 67);
    colors[12] = (59, 142, 234);
    colors[13] = (214, 112, 214);
    colors[14] = (41, 184, 219);
    colors[15] = (255, 255, 255);

    // 6x6x6 colour cube.
    let mut i: usize = 0;
    while i < 216
        invariant
            i <= 216,
            colors@.len() == 256,
            forall|k: int| 0 <= k < 16 + i ==> colors@[k] == default_color(k),
        decreases 216 - i,
    {
        let r: u8 = (i / 36) as u8;
        let g: u8 = ((i / 6) % 6) as u8;
        let b: u8 = (i % 6) as u8;
        let cr: u8 = if r == 0 {
            0
        } else {
            55 + r * 40
        };
        let cg: u8 = if g == 0 {
            0
        } else {
            55 + g * 40
        };
        let cb: u8 = if b == 0 {
            0
        } else {
            55 + b * 40
        };
        colors[16 + i] = (cr, cg, cb);
        i += 1;
    }

    // Grayscale ramp.
    let mut i: usize = 0;
    while i < 24
        invariant
            i <= 24,
            colors@.len() == 256,
            forall|k: int| 0 <= k < 232 + i ==> colors@[k] == default_color(k),
        decreases 24 - i,
    {
        let v: u8 = (8 + i * 10) as u8;
        colors[232 + i] = (v, v, v);
        i += 1;
    }
    proof {
        assert(colors@ =~= default_colors());
    }
    colors
}

/// Terminal colour palette with OSC 4/10/11/12 support.
#[derive(Debug)]
pub struct ColorPalette {
    pub colors: [(u8, u8, u8); 256],
    /// Default foreground colour (OSC 10).
    pub default_fg: (u8, u8, u8),
    /// Default background colour (OSC 11).
    pub default_bg: (u8, u8, u8),
    /// Cursor colour (OSC 12).
    pub cursor_color: (u8, u8, u8),
    /// Window title (OSC 0/2).
    pub title: String,
}

/// What a palette holds.
#[verifier::ext_equal]
pub struct PaletteState {
    pub colors: Seq<(u8, u8, u8)>,
    pub fg: (u8, u8, u8),
    pub bg: (u8, u8, u8),
    pub cursor: (u8, u8, u8),
    pub title: Seq<char>,
}

impl PaletteState {
    /// The palette at power-up.
    pub open spec fn initial() -> PaletteState {
        PaletteState {
            colors: default_colors(),
            fg: (229, 229, 229),
            bg: (30, 30, 46),
            cursor: (137, 180, 250),
            title: Seq::empty(),
        }
    }
}

impl View for ColorPalette {
    type V = PaletteState;

    open spec fn view(&self) -> PaletteState {
        PaletteState {
            colors: self.colors@,
            fg: self.default_fg,
            bg: self.default_bg,
            cursor: self.cursor_color,
            title: self.title@,
        }
    }
}

impl Default for ColorPalette {
    fn default() -> (r: Self)
        ensures
            r@ == PaletteState::initial(),
    {
        ColorPalette {
            colors: default_palette(),
            default_fg: (229, 229, 229),
            default_bg: (30, 30, 46),
            cursor_color: (137, 180, 250),
            title: String::new(),
        }
    }
}

impl Clone for ColorPalette {
    fn clone(&self) -> (r: Self)
        ensures
            r@ == self@,
    {
        ColorPalette {
            colors: self.colors,
            default_fg: self.default_fg,
            default_bg: self.default_bg,
            cursor_color: self.cursor_color,
            title: self.title.clone(),
        }
    }
}

impl ColorPalette {
    /// The RGB colour of an index.
    pub fn get_color(&self, index: u8) -> (r: Option<(u8, u8, u8)>)
        ensures
            r == Some(self@.colors[index as int]),
    {
        Some(self.colors[index as usize])
    }

    /// Set a colour of the palette (OSC 4).
    pub fn set_color(&mut self, index: u8, r: u8, g: u8, b: u8)
        ensures
            final(self)@ == (PaletteState {
                colors: old(self)@.colors.update(index as int, (r, g, b)),
                ..old(self)@
            }),
    {
        self.colors[index as usize] = (r, g, b);
    }

    /// Reset the palette to its defaults (OSC 104).
    pub fn reset_palette(&mut self)
        ensures
            final(self)@ == (PaletteState { colors: default_colors(), ..old(self)@ }),
    {
        self.colors = default_palette();
    }

    /// Set the default foreground colour (OSC 10).
    pub fn set_fg(&mut self, r: u8, g: u8, b: u8)
        ensures
            final(self)@ == (PaletteState { fg: (r, g, b), ..old(self)@ }),
    {
        self.default_fg = (r, g, b);
    }

    /// Set the default background colour (OSC 11).
    pub fn set_bg(&mut self, r: u8, g: u8, b: u8)
        ensures
            final(self)@ == (PaletteState { bg: (r, g, b), ..old(self)@ }),
    {
        self.default_bg = (r, g, b);
    }

    /// Set the cursor colour (OSC 12).
    pub fn set_cursor_color(&mut self, r: u8, g: u8, b: u8)
        ensures
            final(self)@ == (PaletteState { cursor: (r, g, b), ..old(self)@ }),
    {
        self.cursor_color = (r, g, b);
    }

    /// Reset the cursor colour to its default (OSC 112).
    pub fn reset_cursor_color(&mut self)
        ensures
            final(self)@ == (PaletteState { cursor: (137, 180, 250), ..old(self)@ }),
    {
        self.cursor_color = (137, 180, 250);
    }

    /// Set the window title (OSC 0/2).
    pub fn set_title(&mut self, title: &str)
        ensures
            final(self)@ == (PaletteState { title: title@, ..old(self)@ }),
    {
        self.title = title.to_owned();
    }

    /// The default foreground as a colour.
    pub fn fg_color(&self) -> (r: Color)
        ensures
            r == Color::Rgb(self@.fg.0, self@.fg.1, self@.fg.2),
    {
        Color::Rgb(self.default_fg.0, self.default_fg.1, self.default_fg.2)
    }

    /// The default background as a colour.
    pub fn bg_color(&self) -> (r: Color)
        ensures
            r == Color::Rgb(self@.bg.0, self@.bg.1, self@.bg.2),
    {
        Color::Rgb(self.default_bg.0, self.default_bg.1, self.default_bg.2)
    }
}

// ---------------------------------------------------------------------------
// Attrs
// ---------------------------------------------------------------------------

/// SGR attributes packed into a bitfield.
#[derive(Debug, Clone, Copy, PartialEq, Eq, Structural)]
pub struct Attrs {
    pub bits: u16,
}

pub const BOLD: u16 = 0x0001;

pub const DIM: u16 = 0x0002;

pub const ITALIC: u16 = 0x0004;

pub const UNDERLINE: u16 = 0x0008;

pub const BLINK: u16 = 0x0010;

pub const BLINK_RAPID: u16 = 0x0020;

pub const INVERSE: u16 = 0x0040;

pub const INVISIBLE: u16 = 0x0080;

pub const STRIKETHROUGH: u16 = 0x0100;

/// Three bits of underline style.
pub const UNDERLINE_STYLE_MASK: u16 = 0x0e00;

/// DECSCA protection: protected cells survive selective erase.
pub const PROTECTED: u16 = 0x1000;

/// The attributes that the bitfield packs.
pub struct AttrFlags {
    pub bold: bool,
    pub dim: bool,
    pub italic: bool,
    pub underline: bool,
    pub blink: bool,
    pub blink_rapid: bool,
    pub inverse: bool,
    pub invisible: bool,
    pub strikethrough: bool,
    pub protected: bool,
    pub underline_style: u8,
}

impl View for Attrs {
    type V = AttrFlags;

    open spec fn view(&self) -> AttrFlags {
        AttrFlags {
            bold: self.bits & BOLD != 0,
            dim: self.bits & DIM != 0,
            italic: self.bits & ITALIC != 0,
            underline: self.bits & UNDERLINE != 0,
            blink: self.bits & BLINK != 0,
            blink_rapid: self.bits & BLINK_RAPID != 0,
            inverse: self.bits & INVERSE != 0,
            invisible: self.bits & INVISIBLE != 0,
            strikethrough: self.bits & STRIKETHROUGH != 0,
            protected: self.bits & PROTECTED != 0,
            underline_style: ((self.bits & UNDERLINE_STYLE_MASK) >> 9u16) as u8,
        }
    }
}

impl Default for Attrs {
    fn default() -> (r: Self)
        ensures
            r == Attrs::none(),
    {
        Attrs { bits: 0 }
    }
}

impl Attrs {
    /// No attribute set.
    pub open spec fn none() -> Attrs {
        Attrs { bits: 0 }
    }

    /// The attributes with the bits of `mask` set or cleared.
    pub open spec fn with(self, mask: u16, v: bool) -> Attrs {
        if v {
            Attrs { bits: self.bits | mask }
        } else {
            Attrs { bits: self.bits & !mask }
        }
    }

    /// The attributes with underline style `style`, or single where there is no
    /// such style; underline is on exactly when the style is not 0.
    pub open spec fn with_style(self, style: u8) -> Attrs {
        let st: u16 = if style <= 5 {
            style as u16
        } else {
            1
        };
        Attrs { bits: (self.bits & !UNDERLINE_STYLE_MASK) | (st << 9u16) }.with(UNDERLINE, st != 0)
    }

    pub fn bold(&self) -> (r: bool)
        ensures
            r == self@.bold,
    {
        self.bits & BOLD != 0
    }

    pub fn dim(&self) -> (r: bool)
        ensures
            r == self@.dim,
    {
        self.bits & DIM != 0
    }

    pub fn italic(&self) -> (r: bool)
        ensures
            r == self@.italic,
    {
        self.bits & ITALIC != 0
    }

    pub fn underline(&self) -> (r: bool)
        ensures
            r == self@.underline,
    {
        self.bits & UNDERLINE != 0
    }

    pub fn blink(&self) -> (r: bool)
        ensures
            r == self@.blink,
    {
        self.bits & BLINK != 0
    }

    pub fn blink_rapid(&self) -> (r: bool)
        ensures
            r == self@.blink_rapid,
    {
        self.bits & BLINK_RAPID != 0
    }

    pub fn inverse(&self) -> (r: bool)
        ensures
            r == self@.inverse,
    {
        self.bits & INVERSE != 0
    }

    pub fn invisible(&self) -> (r: bool)
        ensures
            r == self@.invisible,
    {
        self.bits & INVISIBLE != 0
    }

    pub fn strikethrough(&self) -> (r: bool)
        ensures
            r == self@.strikethrough,
    {
        self.bits & STRIKETHROUGH != 0
    }

    pub fn protected(&self) -> (r: bool)
        ensures
            r == self@.protected,
    {
        self.bits & PROTECTED != 0
    }

    fn put(&mut self, mask: u16, v: bool)
        ensures
            *final(self) == old(self).with(mask, v),
    {
        if v {
            self.bits = self.bits | mask;
        } else {
            self.bits = self.bits & !mask;
        }
    }

    pub fn set_bold(&mut self, v: bool)
        ensures
            *final(self) == old(self).with(BOLD, v),
            final(self)@ == (AttrFlags { bold: v, ..old(self)@ }),
    {
        proof {
            bold_is_independent(*self, v);
        }
        self.put(BOLD, v);
    }

    pub fn set_dim(&mut self, v: bool)
        ensures
            *final(self) == old(self).with(DIM, v),
            final(self)@ == (AttrFlags { dim: v, ..old(self)@ }),
    {
        proof {
            dim_is_independent(*self, v);
        }
        self.put(DIM, v);
    }

    pub fn set_italic(&mut self, v: bool)
        ensures
            *final(self) == old(self).with(ITALIC, v),
            final(self)@ == (AttrFlags { italic: v, ..old(self)@ }),
    {
        proof {
            italic_is_independent(*self, v);
        }
        self.put(ITALIC, v);
    }

    pub fn set_underline(&mut self, v: bool)
        ensures
            *final(self) == old(self).with(UNDERLINE, v),
            final(self)@ == (AttrFlags { underline: v, ..old(self)@ }),
    {
        proof {
            underline_is_independent(*self, v);
        }
        self.put(UNDERLINE, v);
    }

    pub fn set_blink(&mut self, v: bool)
        ensures
            *final(self) == old(self).with(BLINK, v),
            final(self)@ == (AttrFlags { blink: v, ..old(self)@ }),
    {
        proof {
            blink_is_independent(*self, v);
        }
        self.put(BLINK, v);
    }

    pub fn set_blink_rapid(&mut self, v: bool)
        ensures
            *final(self) == old(self).with(BLINK_RAPID, v),
            final(self)@ == (AttrFlags { blink_rapid: v, ..old(self)@ }),
    {
        proof {
            blink_rapid_is_independent(*self, v);
        }
        self.put(BLINK_RAPID, v);
    }

    pub fn set_inverse(&mut self, v: bool)
        ensures
            *final(self) == old(self).with(INVERSE, v),
            final(self)@ == (AttrFlags { inverse: v, ..old(self)@ }),
    {
        proof {
            inverse_is_independent(*self, v);
        }
        self.put(INVERSE, v);
    }

    pub fn set_invisible(&mut self, v: bool)
        ensures
            *final(self) == old(self).with(INVISIBLE, v),
            final(self)@ == (AttrFlags { invisible: v, ..old(self)@ }),
    {
        proof {
            invisible_is_independent(*self, v);
        }
        self.put(INVISIBLE, v);
    }

    pub fn set_strikethrough(&mut self, v: bool)
        ensures
            *final(self) == old(self).with(STRIKETHROUGH, v),
            final(self)@ == (AttrFlags { strikethrough: v, ..old(self)@ }),
    {
        proof {
            strikethrough_is_independent(*self, v);
        }
        self.put(STRIKETHROUGH, v);
    }

    pub fn set_protected(&mut self, v: bool)
        ensures
            *final(self) == old(self).with(PROTECTED, v),
            final(self)@ == (AttrFlags { protected: v, ..old(self)@ }),
    {
        proof {
            protected_is_independent(*self, v);
        }
        self.put(PROTECTED, v);
    }

    /// Underline style: 0 none, 1 single, 2 double, 3 curly, 4 dotted, 5 dashed.
    pub fn underline_style(&self) -> (r: u8)
        ensures
            r == self@.underline_style,
    {
        ((self.bits & UNDERLINE_STYLE_MASK) >> 9u16) as u8
    }

    /// Set the underline style, single where there is no such style, and
    /// underline with it.
    pub fn set_underline_style(&mut self, style: u8)
        ensures
            *final(self) == old(self).with_style(style),
            final(self)@ == (AttrFlags {
                underline: style != 0,
                underline_style: if style <= 5 {
                    style
                } else {
                    1
                },
                ..old(self)@
            }),
    {
        proof {
            style_is_independent(*self, style);
        }
        let st: u16 = if style <= 5 {
            style as u16
        } else {
            1
        };
        self.bits = (self.bits & !UNDERLINE_STYLE_MASK) | (st << 9u16);
        self.put(UNDERLINE, st != 0);
    }
}

/// Setting or clearing bold changes bold and no other attribute.
pub proof fn bold_is_independent(a: Attrs, v: bool)
    ensures
        a.with(BOLD, v)@ == (AttrFlags { bold: v, ..a@ }),
{
    let x = a.bits;
    assert(forall|k: u16| #![auto]
        k & 1 == 0 ==> (x | 1) & k == x & k && (x & !1) & k == x & k) by (bit_vector);
    assert((x | 1) & 1 != 0 && (x & !1) & 1 == 0 && 2u16 & 1 == 0 && 4u16 & 1 == 0 && 8u16 & 1 == 0
        && 0x10u16 & 1 == 0 && 0x20u16 & 1 == 0 && 0x40u16 & 1 == 0 && 0x80u16 & 1 == 0 && 0x100u16
        & 1 == 0 && 0xe00u16 & 1 == 0 && 0x1000u16 & 1 == 0) by (bit_vector);
}

/// Setting or clearing dim changes dim and no other attribute.
pub proof fn dim_is_independent(a: Attrs, v: bool)
    ensures
        a.with(DIM, v)@ == (AttrFlags { dim: v, ..a@ }),
{
    let x = a.bits;
    assert(forall|k: u16| #![auto]
        k & 2 == 0 ==> (x | 2) & k == x & k && (x & !2) & k == x & k) by (bit_vector);
    assert((x | 2) & 2 != 0 && (x & !2) & 2 == 0 && 1u16 & 2 == 0 && 4u16 & 2 == 0 && 8u16 & 2 == 0
        && 0x10u16 & 2 == 0 && 0x20u16 & 2 == 0 && 0x40u16 & 2 == 0 && 0x80u16 & 2 == 0 && 0x100u16
        & 2 == 0 && 0xe00u16 & 2 == 0 && 0x1000u16 & 2 == 0) by (bit_vector);
}

/// Setting or clearing italic changes italic and no other attribute.
pub proof fn italic_is_independent(a: Attrs, v: bool)
    ensures
        a.with(ITALIC, v)@ == (AttrFlags { italic: v, ..a@ }),
{
    let x = a.bits;
    assert(forall|k: u16| #![auto]
        k & 4 == 0 ==> (x | 4) & k == x & k && (x & !4) & k == x & k) by (bit_vector);
    assert((x | 4) & 4 != 0 && (x & !4) & 4 == 0 && 1u16 & 4 == 0 && 2u16 & 4 == 0 && 8u16 & 4 == 0
        && 0x10u16 & 4 == 0 && 0x20u16 & 4 == 0 && 0x40u16 & 4 == 0 && 0x80u16 & 4 == 0 && 0x100u16
        & 4 == 0 && 0xe00u16 & 4 == 0 && 0x1000u16 & 4 == 0) by (bit_vector);
}

/// Setting or clearing underline changes underline and no other attribute.
pub proof fn underline_is_independent(a: Attrs, v: bool)
    ensures
        a.with(UNDERLINE, v)@ == (AttrFlags { underline: v, ..a@ }),
{
    let x = a.bits;
    assert(forall|k: u16| #![auto]
        k & 8 == 0 ==> (x | 8) & k == x & k && (x & !8) & k == x & k) by (bit_vector);
    assert((x | 8) & 8 != 0 && (x & !8) & 8 == 0 && 1u16 & 8 == 0 && 2u16 & 8 == 0 && 4u16 & 8 == 0
        && 0x10u16 & 8 == 0 && 0x20u16 & 8 == 0 && 0x40u16 & 8 == 0 && 0x80u16 & 8 == 0 && 0x100u16
        & 8 == 0 && 0xe00u16 & 8 == 0 && 0x1000u16 & 8 == 0) by (bit_vector);
}

/// Setting or clearing blink changes blink and no other attribute.
pub proof fn blink_is_independent(a: Attrs, v: bool)
    ensures
        a.with(BLINK, v)@ == (AttrFlags { blink: v, ..a@ }),
{
    let x = a.bits;
    assert(forall|k: u16| #![auto]
        k & 0x10 == 0 ==> (x | 0x10) & k == x & k && (x & !0x10) & k == x & k) by (bit_vector);
    assert((x | 0x10) & 0x10 != 0 && (x & !0x10) & 0x10 == 0 && 1u16 & 0x10 == 0 && 2u16 & 0x10 == 0
        && 4u16 & 0x10 == 0 && 8u16 & 0x10 == 0 && 0x20u16 & 0x10 == 0 && 0x40u16 & 0x10 == 0
        && 0x80u16 & 0x10 == 0 && 0x100u16 & 0x10 == 0 && 0xe00u16 & 0x10 == 0 && 0x1000u16 & 0x10
        == 0) by (bit_vector);
}

/// Setting or clearing rapid blink changes rapid blink and no other attribute.
pub proof fn blink_rapid_is_independent(a: Attrs, v: bool)
    ensures
        a.with(BLINK_RAPID, v)@ == (AttrFlags { blink_rapid: v, ..a@ }),
{
    let x = a.bits;
    assert(forall|k: u16| #![auto]
        k & 0x20 == 0 ==> (x | 0x20) & k == x & k && (x & !0x20) & k == x & k) by (bit_vector);
    assert((x | 0x20) & 0x20 != 0 && (x & !0x20) & 0x20 == 0 && 1u16 & 0x20 == 0 && 2u16 & 0x20 == 0
        && 4u16 & 0x20 == 0 && 8u16 & 0x20 == 0 && 0x10u16 & 0x20 == 0 && 0x40u16 & 0x20 == 0
        && 0x80u16 & 0x20 == 0 && 0x100u16 & 0x20 == 0 && 0xe00u16 & 0x20 == 0 && 0x1000u16 & 0x20
        == 0) by (bit_vector);
}

/// Setting or clearing inverse changes inverse and no other attribute.
pub proof fn inverse_is_independent(a: Attrs, v: bool)
    ensures
        a.with(INVERSE, v)@ == (AttrFlags { inverse: v, ..a@ }),
{
    let x = a.bits;
    assert(forall|k: u16| #![auto]
        k & 0x40 == 0 ==> (x | 0x40) & k == x & k && (x & !0x40) & k == x & k) by (bit_vector);
    assert((x | 0x40) & 0x40 != 0 && (x & !0x40) & 0x40 == 0 && 1u16 & 0x40 == 0 && 2u16 & 0x40 == 0
        && 4u16 & 0x40 == 0 && 8u16 & 0x40 == 0 && 0x10u16 & 0x40 == 0 && 0x20u16 & 0x40 == 0
        && 0x80u16 & 0x40 == 0 && 0x100u16 & 0x40 == 0 && 0xe00u16 & 0x40 == 0 && 0x1000u16 & 0x40
        == 0) by (bit_vector);
}

/// Setting or clearing invisible changes invisible and no other attribute.
pub proof fn invisible_is_independent(a: Attrs, v: bool)
    ensures
        a.with(INVISIBLE, v)@ == (AttrFlags { invisible: v, ..a@ }),
{
    let x = a.bits;
    assert(forall|k: u16| #![auto]
        k & 0x80 == 0 ==> (x | 0x80) & k == x & k && (x & !0x80) & k == x & k) by (bit_vector);
    assert((x | 0x80) & 0x80 != 0 && (x & !0x80) & 0x80 == 0 && 1u16 & 0x80 == 0 && 2u16 & 0x80 == 0
        && 4u16 & 0x80 == 0 && 8u16 & 0x80 == 0 && 0x10u16 & 0x80 == 0 && 0x20u16 & 0x80 == 0
        && 0x40u16 & 0x80 == 0 && 0x100u16 & 0x80 == 0 && 0xe00u16 & 0x80 == 0 && 0x1000u16 & 0x80
        == 0) by (bit_vector);
}

/// Setting or clearing strikethrough changes it and no other attribute.
pub proof fn strikethrough_is_independent(a: Attrs, v: bool)
    ensures
        a.with(STRIKETHROUGH, v)@ == (AttrFlags { strikethrough: v, ..a@ }),
{
    let x = a.bits;
    assert(forall|k: u16| #![auto]
        k & 0x100 == 0 ==> (x | 0x100) & k == x & k && (x & !0x100) & k == x & k) by (bit_vector);
    assert((x | 0x100) & 0x100 != 0 && (x & !0x100) & 0x100 == 0 && 1u16 & 0x100 == 0 && 2u16
        & 0x100 == 0 && 4u16 & 0x100 == 0 && 8u16 & 0x100 == 0 && 0x10u16 & 0x100 == 0 && 0x20u16
        & 0x100 == 0 && 0x40u16 & 0x100 == 0 && 0x80u16 & 0x100 == 0 && 0xe00u16 & 0x100 == 0
        && 0x1000u16 & 0x100 == 0) by (bit_vector);
}

/// Setting or clearing protection changes protection and no other attribute.
pub proof fn protected_is_independent(a: Attrs, v: bool)
    ensures
        a.with(PROTECTED, v)@ == (AttrFlags { protected: v, ..a@ }),
{
    let x = a.bits;
    assert(forall|k: u16| #![auto]
        k & 0x1000 == 0 ==> (x | 0x1000) & k == x & k && (x & !0x1000) & k == x & k) by (bit_vector);
    assert((x | 0x1000) & 0x1000 != 0 && (x & !0x1000) & 0x1000 == 0 && 1u16 & 0x1000 == 0 && 2u16
        & 0x1000 == 0 && 4u16 & 0x1000 == 0 && 8u16 & 0x1000 == 0 && 0x10u16 & 0x1000 == 0
        && 0x20u16 & 0x1000 == 0 && 0x40u16 & 0x1000 == 0 && 0x80u16 & 0x1000 == 0 && 0x100u16
        & 0x1000 == 0 && 0xe00u16 & 0x1000 == 0) by (bit_vector);
}

/// Setting an underline style changes the style and underline, nothing else.
pub proof fn style_is_independent(a: Attrs, style: u8)
    ensures
        a.with_style(style)@ == (AttrFlags {
            underline: style != 0,
            underline_style: if style <= 5 {
                style
            } else {
                1
            },
            ..a@
        }),
{
    let x = a.bits;
    let st: u16 = if style <= 5 {
        style as u16
    } else {
        1
    };
    let y = (x & !0xe00) | (st << 9u16);
    assert(st <= 5 ==> y & 1 == x & 1 && y & 2 == x & 2 && y & 4 == x & 4 && y & 0x10 == x & 0x10
        && y & 0x20 == x & 0x20 && y & 0x40 == x & 0x40 && y & 0x80 == x & 0x80 && y & 0x100 == x
        & 0x100 && y & 0x1000 == x & 0x1000 && ((y & 0xe00) >> 9u16) as u8 == st as u8)
        by (bit_vector)
        requires
            y == (x & !0xe00) | (st << 9u16),
    ;
    underline_is_independent(Attrs { bits: y }, st != 0);
}

} // verus!
