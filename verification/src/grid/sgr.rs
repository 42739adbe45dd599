//! Select Graphic Rendition.
use vstd::prelude::*;

use super::attrs::{
    AttrFlags, Attrs, Color, BLINK, BLINK_RAPID, BOLD, DIM, INVERSE, INVISIBLE, ITALIC, PROTECTED,
    STRIKETHROUGH,
};
use super::params::{group_or, groups, param_or, value_or};
use super::state::{GridState, Pen};
use super::Grid;

verus! {

/// The colour that SGR 38 or 48 at group `i` names, and the number of groups
/// that it takes. Either all in one group (`38:5:n`, `38:2:r:g:b`,
/// `38:2:t:r:g:b`) or over several (`38;5;n`, `38;2;r;g;b`).
pub open spec fn extended_color(params: Seq<Seq<u16>>, i: int) -> (Option<Color>, int) {
    let g = params[i];
    if g.len() > 1 {
        if g[1] == 5 && g.len() >= 3 {
            (Some(Color::Indexed(g[2] as u8)), 1)
        } else if g[1] == 2 && g.len() >= 6 {
            (Some(Color::Rgb(g[3] as u8, g[4] as u8, g[5] as u8)), 1)
        } else if g[1] == 2 && g.len() >= 5 {
            (Some(Color::Rgb(g[2] as u8, g[3] as u8, g[4] as u8)), 1)
        } else {
            (None, 1)
        }
    } else if i + 1 < params.len() {
        if value_or(params, i + 1, 0) == 5 && i + 2 < params.len() {
            (Some(Color::Indexed(value_or(params, i + 2, 0) as u8)), 3)
        } else if value_or(params, i + 1, 0) == 2 && i + 4 < params.len() {
            (
                Some(
                    Color::Rgb(
                        value_or(params, i + 2, 0) as u8,
                        value_or(params, i + 3, 0) as u8,
                        value_or(params, i + 4, 0) as u8,
                    ),
                ),
                5,
            )
        } else {
            (None, 1)
        }
    } else {
        (None, 1)
    }
}

impl Pen {
    /// SGR 0: default colours and no attribute but DECSCA protection.
    pub open spec fn reset(self) -> Pen {
        Pen {
            fg: Color::Default,
            bg: Color::Default,
            attrs: Attrs::none().with(PROTECTED, self.attrs@.protected),
        }
    }

    pub open spec fn with(self, mask: u16, v: bool) -> Pen {
        Pen { attrs: self.attrs.with(mask, v), ..self }
    }

    pub open spec fn with_style(self, style: u8) -> Pen {
        Pen { attrs: self.attrs.with_style(style), ..self }
    }

    /// The SGR code `n` that needs no further group.
    pub open spec fn with_code(self, n: u16, style: u8) -> Pen {
        match n {
            0 => self.reset(),
            1 => self.with(BOLD, true),
            2 => self.with(DIM, true),
            3 => self.with(ITALIC, true),
            4 => self.with_style(style),
            5 => self.with(BLINK, true),
            6 => self.with(BLINK_RAPID, true),
            7 => self.with(INVERSE, true),
            8 => self.with(INVISIBLE, true),
            9 => self.with(STRIKETHROUGH, true),
            22 => self.with(BOLD, false).with(DIM, false),
            23 => self.with(ITALIC, false),
            24 => self.with_style(0),
            25 => self.with(BLINK, false),
            27 => self.with(INVERSE, false),
            28 => self.with(INVISIBLE, false),
            29 => self.with(STRIKETHROUGH, false),
            39 => Pen { fg: Color::Default, ..self },
            49 => Pen { bg: Color::Default, ..self },
            _ => if 30 <= n <= 37 {
                Pen { fg: Color::Indexed((n - 30) as u8), ..self }
            } else if 40 <= n <= 47 {
                Pen { bg: Color::Indexed((n - 40) as u8), ..self }
            } else if 90 <= n <= 97 {
                Pen { fg: Color::Indexed((n - 82) as u8), ..self }
            } else if 100 <= n <= 107 {
                Pen { bg: Color::Indexed((n - 92) as u8), ..self }
            } else {
                self
            },
        }
    }

    /// The groups of an SGR sequence from `i` on applied in order.
    pub open spec fn styled(self, params: Seq<Seq<u16>>, i: int) -> Pen
        decreases params.len() - i,
    {
        if i < 0 || i >= params.len() {
            self
        } else {
            let n = value_or(params, i, 0);
            if n == 38 || n == 48 {
                let (color, taken) = extended_color(params, i);
                let pen = match color {
                    None => self,
                    Some(c) => if n == 38 {
                        Pen { fg: c, ..self }
                    } else {
                        Pen { bg: c, ..self }
                    },
                };
                pen.styled(params, i + taken)
            } else {
                let style = if params[i].len() > 1 {
                    params[i][1] as u8
                } else {
                    1
                };
                self.with_code(n, style).styled(params, i + 1)
            }
        }
    }
}

/// SGR 0 keeps DECSCA protection, and nothing else.
pub proof fn reset_keeps_protection(pen: Pen)
    ensures
        pen.reset().attrs@.protected == pen.attrs@.protected,
        pen.reset().attrs@ == (super::attrs::AttrFlags {
            protected: pen.attrs@.protected,
            ..Attrs::none()@
        }),
{
    super::attrs::protected_is_independent(Attrs::none(), pen.attrs@.protected);
}

/// No SGR sequence changes DECSCA protection.
pub proof fn styling_keeps_protection(pen: Pen, params: Seq<Seq<u16>>, i: int)
    ensures
        pen.styled(params, i).attrs@.protected == pen.attrs@.protected,
    decreases params.len() - i,
{
    if 0 <= i < params.len() {
        let n = value_or(params, i, 0);
        if n == 38 || n == 48 {
            let (color, taken) = extended_color(params, i);
            let next = match color {
                None => pen,
                Some(c) => if n == 38 {
                    Pen { fg: c, ..pen }
                } else {
                    Pen { bg: c, ..pen }
                },
            };
            styling_keeps_protection(next, params, i + taken);
        } else {
            let style = if params[i].len() > 1 {
                params[i][1] as u8
            } else {
                1
            };
            let a = pen.attrs;
            reset_keeps_protection(pen);
            super::attrs::bold_is_independent(a, n == 1);
            super::attrs::dim_is_independent(a, n == 2);
            super::attrs::dim_is_independent(a.with(BOLD, false), false);
            super::attrs::italic_is_independent(a, n == 3);
            super::attrs::style_is_independent(
                a,
                if n == 4 {
                    style
                } else {
                    0
                },
            );
            super::attrs::blink_is_independent(a, n == 5);
            super::attrs::blink_rapid_is_independent(a, true);
            super::attrs::inverse_is_independent(a, n == 7);
            super::attrs::invisible_is_independent(a, n == 8);
            super::attrs::strikethrough_is_independent(a, n == 9);
            styling_keeps_protection(pen.with_code(n, style), params, i + 1);
        }
    }
}

impl Pen {
    fn apply_code(&mut self, n: u16, style: u8)
        ensures
            *final(self) == old(self).with_code(n, style),
    {
        match n {
            0 => {
                let protected = self.attrs.protected();
                self.fg = Color::Default;
                self.bg = Color::Default;
                self.attrs = Attrs::default();
                self.attrs.set_protected(protected);
            },
            1 => self.attrs.set_bold(true),
            2 => self.attrs.set_dim(true),
            3 => self.attrs.set_italic(true),
            4 => self.attrs.set_underline_style(style),
            5 => self.attrs.set_blink(true),
            6 => self.attrs.set_blink_rapid(true),
            7 => self.attrs.set_inverse(true),
            8 => self.attrs.set_invisible(true),
            9 => self.attrs.set_strikethrough(true),
            22 => {
                self.attrs.set_bold(false);
                self.attrs.set_dim(false);
            },
            23 => self.attrs.set_italic(false),
            24 => self.attrs.set_underline_style(0),
            25 => self.attrs.set_blink(false),
            27 => self.attrs.set_inverse(false),
            28 => self.attrs.set_invisible(false),
            29 => self.attrs.set_strikethrough(false),
            39 => self.fg = Color::Default,
            49 => self.bg = Color::Default,
            _ => {
                if 30 <= n && n <= 37 {
                    self.fg = Color::Indexed((n - 30) as u8);
                } else if 40 <= n && n <= 47 {
                    self.bg = Color::Indexed((n - 40) as u8);
                } else if 90 <= n && n <= 97 {
                    self.fg = Color::Indexed((n - 82) as u8);
                } else if 100 <= n && n <= 107 {
                    self.bg = Color::Indexed((n - 92) as u8);
                }
            },
        }
    }
}

/// Read the colour that SGR 38 or 48 at group `i` names.
fn read_extended_color(params: &Vec<Vec<u16>>, i: usize) -> (r: (Option<Color>, usize))
    requires
        i < params@.len(),
    ensures
        r.0 == extended_color(groups(params@), i as int).0,
        r.1 == extended_color(groups(params@), i as int).1,
        1 <= r.1 <= params@.len() - i,
{
    let left: usize = params.len() - i;
    let g = &params[i];
    if g.len() > 1 {
        if g[1] == 5 && g.len() >= 3 {
            (Some(Color::Indexed(g[2] as u8)), 1)
        } else if g[1] == 2 && g.len() >= 6 {
            (Some(Color::Rgb(g[3] as u8, g[4] as u8, g[5] as u8)), 1)
        } else if g[1] == 2 && g.len() >= 5 {
            (Some(Color::Rgb(g[2] as u8, g[3] as u8, g[4] as u8)), 1)
        } else {
            (None, 1)
        }
    } else if left > 1 {
        let kind: u16 = param_or(params, i + 1, 0);
        if kind == 5 && left > 2 {
            (Some(Color::Indexed(param_or(params, i + 2, 0) as u8)), 3)
        } else if kind == 2 && left > 4 {
            (
                Some(
                    Color::Rgb(
                        param_or(params, i + 2, 0) as u8,
                        param_or(params, i + 3, 0) as u8,
                        param_or(params, i + 4, 0) as u8,
                    ),
                ),
                5,
            )
        } else {
            (None, 1)
        }
    } else {
        (None, 1)
    }
}

impl Grid {
    /// Apply an SGR sequence to the pen.
    pub fn apply_sgr(&mut self, params: &Vec<Vec<u16>>)
        requires
            old(self).wf(),
        ensures
            final(self).wf(),
            final(self)@ == old(self)@.with_pen(old(self)@.pen.styled(groups(params@), 0)),
    {
        let mut pen = self.pen;
        let ghost gs = groups(params@);
        let mut i: usize = 0;
        while i < params.len()
            invariant
                i <= params@.len(),
                gs == groups(params@),
                pen.styled(gs, i as int) == old(self)@.pen.styled(gs, 0),
                *self == *old(self),
            decreases params@.len() - i,
        {
            let n: u16 = param_or(params, i, 0);
            if n == 38 || n == 48 {
                let (color, taken): (Option<Color>, usize) = read_extended_color(params, i);
                match color {
                    None => {},
                    Some(c) => {
                        if n == 38 {
                            pen.fg = c;
                        } else {
                            pen.bg = c;
                        }
                    },
                }
                i = i + taken;
            } else {
                let style: u8 = if params[i].len() > 1 {
                    params[i][1] as u8
                } else {
                    1
                };
                pen.apply_code(n, style);
                i = i + 1;
            }
        }
        self.pen = pen;
    }
}

// ---------------------------------------------------------------------------
// Laws
// ---------------------------------------------------------------------------

proof fn styled_skips(pen: Pen, params: Seq<Seq<u16>>, i: int, k: int)
    requires
        0 <= k <= i <= params.len(),
    ensures
        pen.styled(params, i) == pen.styled(params.skip(k), i - k),
    decreases params.len() - i,
{
    let rest = params.skip(k);
    if i < params.len() {
        assert(rest[i - k] == params[i]);
        let n = value_or(params, i, 0);
        assert(n == value_or(rest, i - k, 0));
        if n == 38 || n == 48 {
            assert(i + 1 < params.len() ==> rest[i - k + 1] == params[i + 1]);
            assert(i + 2 < params.len() ==> rest[i - k + 2] == params[i + 2]);
            assert(i + 3 < params.len() ==> rest[i - k + 3] == params[i + 3]);
            assert(i + 4 < params.len() ==> rest[i - k + 4] == params[i + 4]);
            assert(extended_color(params, i) == extended_color(rest, i - k));
            let (color, taken) = extended_color(params, i);
            let next = match color {
                None => pen,
                Some(c) => if n == 38 {
                    Pen { fg: c, ..pen }
                } else {
                    Pen { bg: c, ..pen }
                },
            };
            assert(i + taken <= params.len());
            styled_skips(next, params, i + taken, k);
        } else {
            let style = if params[i].len() > 1 {
                params[i][1] as u8
            } else {
                1
            };
            styled_skips(pen.with_code(n, style), params, i + 1, k);
        }
    }
}

/// The pen that SGR leaves, by the parameters of the sequence.
pub open spec fn sgr(g: GridState, params: Seq<Seq<u16>>) -> Pen {
    g.csi(params, Seq::empty(), 0x6d).pen
}

proof fn sgr_styles(g: GridState, params: Seq<Seq<u16>>)
    ensures
        g.csi(params, Seq::empty(), 0x6d) == g.with_pen(g.pen.styled(params, 0)),
{
    reveal(GridState::csi);
    assert(super::csi::csi_of(params, Seq::empty(), 0x6d) == super::csi::Csi::Setting(
        super::csi::Setting::Sgr,
    ));
}

/// A colour of the palette, `38;5;n` or `48;5;n`, sets that colour and nothing
/// else; what follows is carried out after it. The form with colons does the
/// same.
pub proof fn palette_colors(g: GridState, n: u16, rest: Seq<Seq<u16>>)
    requires
        n <= 255,
    ensures
        ({
            let front = Pen { fg: Color::Indexed(n as u8), ..g.pen };
            let back = Pen { bg: Color::Indexed(n as u8), ..g.pen };
            &&& sgr(g, seq![seq![38u16], seq![5u16], seq![n]] + rest) == sgr(g.with_pen(front), rest)
            &&& sgr(g, seq![seq![48u16], seq![5u16], seq![n]] + rest) == sgr(g.with_pen(back), rest)
            &&& sgr(g, seq![seq![38u16, 5, n]] + rest) == sgr(g.with_pen(front), rest)
            &&& sgr(g, seq![seq![48u16, 5, n]] + rest) == sgr(g.with_pen(back), rest)
        }),
{
    let front = Pen { fg: Color::Indexed(n as u8), ..g.pen };
    let back = Pen { bg: Color::Indexed(n as u8), ..g.pen };
    let a = seq![seq![38u16], seq![5u16], seq![n]] + rest;
    let b = seq![seq![48u16], seq![5u16], seq![n]] + rest;
    let c = seq![seq![38u16, 5, n]] + rest;
    let d = seq![seq![48u16, 5, n]] + rest;
    sgr_styles(g, a);
    sgr_styles(g, b);
    sgr_styles(g, c);
    sgr_styles(g, d);
    sgr_styles(g.with_pen(front), rest);
    sgr_styles(g.with_pen(back), rest);
    assert(a[0] == seq![38u16] && a[1] == seq![5u16] && a[2] == seq![n]);
    assert(b[0] == seq![48u16] && b[1] == seq![5u16] && b[2] == seq![n]);
    assert(c[0] == seq![38u16, 5, n] && d[0] == seq![48u16, 5, n]);
    assert(a.skip(3) =~= rest && b.skip(3) =~= rest && c.skip(1) =~= rest && d.skip(1) =~= rest);
    styled_skips(front, a, 3, 3);
    styled_skips(back, b, 3, 3);
    styled_skips(front, c, 1, 1);
    styled_skips(back, d, 1, 1);
    assert(g.pen.styled(a, 0) == front.styled(a, 3));
    assert(g.pen.styled(b, 0) == back.styled(b, 3));
    assert(g.pen.styled(c, 0) == front.styled(c, 1));
    assert(g.pen.styled(d, 0) == back.styled(d, 1));
}

/// A colour by its parts, `38;2;r;g;b` or `48;2;r;g;b`, sets that colour and
/// nothing else; what follows is carried out after it. The forms with colons,
/// with or without a colour space, do the same.
pub proof fn direct_colors(g: GridState, r: u16, h: u16, b: u16, rest: Seq<Seq<u16>>, t: u16)
    requires
        r <= 255,
        h <= 255,
        b <= 255,
    ensures
        ({
            let c = Color::Rgb(r as u8, h as u8, b as u8);
            let front = Pen { fg: c, ..g.pen };
            let back = Pen { bg: c, ..g.pen };
            &&& sgr(g, seq![seq![38u16], seq![2u16], seq![r], seq![h], seq![b]] + rest) == sgr(
                g.with_pen(front),
                rest,
            )
            &&& sgr(g, seq![seq![48u16], seq![2u16], seq![r], seq![h], seq![b]] + rest) == sgr(
                g.with_pen(back),
                rest,
            )
            &&& sgr(g, seq![seq![38u16, 2, r, h, b]] + rest) == sgr(g.with_pen(front), rest)
            &&& sgr(g, seq![seq![48u16, 2, r, h, b]] + rest) == sgr(g.with_pen(back), rest)
            &&& sgr(g, seq![seq![38u16, 2, t, r, h, b]] + rest) == sgr(g.with_pen(front), rest)
            &&& sgr(g, seq![seq![48u16, 2, t, r, h, b]] + rest) == sgr(g.with_pen(back), rest)
        }),
{
    direct_color(g, 38, r, h, b, rest, t);
    direct_color(g, 48, r, h, b, rest, t);
}

proof fn direct_color(g: GridState, n: u16, r: u16, h: u16, b: u16, rest: Seq<Seq<u16>>, t: u16)
    requires
        n == 38 || n == 48,
    ensures
        ({
            let c = Color::Rgb(r as u8, h as u8, b as u8);
            let next = if n == 38 {
                Pen { fg: c, ..g.pen }
            } else {
                Pen { bg: c, ..g.pen }
            };
            &&& sgr(g, seq![seq![n], seq![2u16], seq![r], seq![h], seq![b]] + rest) == sgr(
                g.with_pen(next),
                rest,
            )
            &&& sgr(g, seq![seq![n, 2, r, h, b]] + rest) == sgr(g.with_pen(next), rest)
            &&& sgr(g, seq![seq![n, 2, t, r, h, b]] + rest) == sgr(g.with_pen(next), rest)
        }),
{
    let c = Color::Rgb(r as u8, h as u8, b as u8);
    let next = if n == 38 {
        Pen { fg: c, ..g.pen }
    } else {
        Pen { bg: c, ..g.pen }
    };
    let x = seq![seq![n], seq![2u16], seq![r], seq![h], seq![b]] + rest;
    let y = seq![seq![n, 2, r, h, b]] + rest;
    let z = seq![seq![n, 2, t, r, h, b]] + rest;
    sgr_styles(g, x);
    sgr_styles(g, y);
    sgr_styles(g, z);
    sgr_styles(g.with_pen(next), rest);
    assert(x[0] == seq![n] && x[1] == seq![2u16] && x[2] == seq![r] && x[3] == seq![h] && x[4]
        == seq![b]);
    assert(y[0] == seq![n, 2, r, h, b] && z[0] == seq![n, 2, t, r, h, b]);
    assert(x.skip(5) =~= rest && y.skip(1) =~= rest && z.skip(1) =~= rest);
    styled_skips(next, x, 5, 5);
    styled_skips(next, y, 1, 1);
    styled_skips(next, z, 1, 1);
    assert(g.pen.styled(x, 0) == next.styled(x, 5));
    assert(g.pen.styled(y, 0) == next.styled(y, 1));
    assert(g.pen.styled(z, 0) == next.styled(z, 1));
}

/// Codes in one sequence do what they do in sequences of their own.
pub proof fn codes_add_up(g: GridState, n: u16, rest: Seq<Seq<u16>>)
    requires
        n != 38 && n != 48,
    ensures
        sgr(g, seq![seq![n]] + rest) == sgr(g.with_pen(sgr(g, seq![seq![n]])), rest),
        sgr(g, Seq::empty()) == g.pen,
        g.csi(rest, Seq::empty(), 0x6d) == (GridState { pen: sgr(g, rest), ..g }),
{
    let one = seq![seq![n]];
    let all = one + rest;
    sgr_styles(g, all);
    sgr_styles(g, one);
    sgr_styles(g, Seq::empty());
    sgr_styles(g, rest);
    let next = g.pen.with_code(n, 1);
    sgr_styles(g.with_pen(next), rest);
    assert(all[0] == seq![n] && one[0] == seq![n]);
    assert(all.skip(1) =~= rest);
    styled_skips(next, all, 1, 1);
    reveal_with_fuel(Pen::styled, 2);
}

/// What each code does: it sets or clears the attributes that it is for, or
/// sets a colour, and leaves the rest of the pen as it is.
pub proof fn codes_mean(g: GridState, n: u16)
    requires
        n != 38 && n != 48,
    ensures
        ({
            let p = sgr(g, seq![seq![n]]);
            let a = g.pen.attrs@;
            let same = Pen { attrs: p.attrs, ..g.pen };
            let plain = AttrFlags {
                bold: false,
                dim: false,
                italic: false,
                underline: false,
                blink: false,
                blink_rapid: false,
                inverse: false,
                invisible: false,
                strikethrough: false,
                protected: a.protected,
                underline_style: 0,
            };
            &&& n == 0 ==> p.fg == Color::Default && p.bg == Color::Default && p.attrs@ == plain
            &&& 1 <= n <= 29 ==> p == same
            &&& n == 1 ==> p.attrs@ == (AttrFlags { bold: true, ..a })
            &&& n == 2 ==> p.attrs@ == (AttrFlags { dim: true, ..a })
            &&& n == 3 ==> p.attrs@ == (AttrFlags { italic: true, ..a })
            &&& n == 4 ==> p.attrs@ == (AttrFlags { underline: true, underline_style: 1, ..a })
            &&& n == 5 ==> p.attrs@ == (AttrFlags { blink: true, ..a })
            &&& n == 6 ==> p.attrs@ == (AttrFlags { blink_rapid: true, ..a })
            &&& n == 7 ==> p.attrs@ == (AttrFlags { inverse: true, ..a })
            &&& n == 8 ==> p.attrs@ == (AttrFlags { invisible: true, ..a })
            &&& n == 9 ==> p.attrs@ == (AttrFlags { strikethrough: true, ..a })
            &&& n == 22 ==> p.attrs@ == (AttrFlags { bold: false, dim: false, ..a })
            &&& n == 23 ==> p.attrs@ == (AttrFlags { italic: false, ..a })
            &&& n == 24 ==> p.attrs@ == (AttrFlags { underline: false, underline_style: 0, ..a })
            &&& n == 25 ==> p.attrs@ == (AttrFlags { blink: false, ..a })
            &&& n == 27 ==> p.attrs@ == (AttrFlags { inverse: false, ..a })
            &&& n == 28 ==> p.attrs@ == (AttrFlags { invisible: false, ..a })
            &&& n == 29 ==> p.attrs@ == (AttrFlags { strikethrough: false, ..a })
            &&& 10 <= n <= 21 || n == 26 || 50 <= n <= 89 || n >= 108 ==> p == g.pen
            &&& 30 <= n <= 37 ==> p == (Pen { fg: Color::Indexed((n - 30) as u8), ..g.pen })
            &&& 40 <= n <= 47 ==> p == (Pen { bg: Color::Indexed((n - 40) as u8), ..g.pen })
            &&& 90 <= n <= 97 ==> p == (Pen { fg: Color::Indexed((n - 90 + 8) as u8), ..g.pen })
            &&& 100 <= n <= 107 ==> p == (Pen { bg: Color::Indexed((n - 100 + 8) as u8), ..g.pen })
            &&& n == 39 ==> p == (Pen { fg: Color::Default, ..g.pen })
            &&& n == 49 ==> p == (Pen { bg: Color::Default, ..g.pen })
        }),
{
    let one = seq![seq![n]];
    sgr_styles(g, one);
    assert(one[0] == seq![n]);
    reveal_with_fuel(Pen::styled, 2);
    assert(sgr(g, one) == g.pen.with_code(n, 1));
    let a = g.pen.attrs;
    reset_keeps_protection(g.pen);
    super::attrs::bold_is_independent(a, n == 1);
    super::attrs::dim_is_independent(a, n == 2);
    super::attrs::dim_is_independent(a.with(BOLD, false), false);
    super::attrs::italic_is_independent(a, n == 3);
    super::attrs::style_is_independent(
        a,
        if n == 4 {
            1
        } else {
            0
        },
    );
    super::attrs::blink_is_independent(a, n == 5);
    super::attrs::blink_rapid_is_independent(a, true);
    super::attrs::inverse_is_independent(a, n == 7);
    super::attrs::invisible_is_independent(a, n == 8);
    super::attrs::strikethrough_is_independent(a, n == 9);
    no_attributes();
}

pub(super) proof fn no_attributes()
    ensures
        Attrs::none()@ == (AttrFlags {
            bold: false,
            dim: false,
            italic: false,
            underline: false,
            blink: false,
            blink_rapid: false,
            inverse: false,
            invisible: false,
            strikethrough: false,
            protected: false,
            underline_style: 0,
        }),
{
    assert(forall|k: u16| 0u16 & k == 0) by (bit_vector);
    assert(0u16 >> 9u16 == 0) by (bit_vector);
}

/// The style of an underline, `4:n`: none for 0, and underlined otherwise.
pub proof fn underline_styles(g: GridState, n: u16)
    requires
        n <= 5,
    ensures
        sgr(g, seq![seq![4u16, n]]).attrs@ == (AttrFlags {
            underline: n != 0,
            underline_style: n as u8,
            ..g.pen.attrs@
        }),
        sgr(g, seq![seq![4u16, n]]).fg == g.pen.fg,
        sgr(g, seq![seq![4u16, n]]).bg == g.pen.bg,
{
    let one = seq![seq![4u16, n]];
    sgr_styles(g, one);
    assert(one[0] == seq![4u16, n]);
    reveal_with_fuel(Pen::styled, 2);
    super::attrs::style_is_independent(g.pen.attrs, n as u8);
}

} // verus!
