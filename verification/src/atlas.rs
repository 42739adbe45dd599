//! The glyph atlas: packing glyph bitmaps on shelves, and synthesized styles.
//!
//! ```text
//! +-------------------------------+
//! | [A][B][C][D]                  |  shelf 0, as high as its highest glyph
//! | [E][F]                        |  shelf 1
//! |                               |
//! +-------------------------------+
//! ```
use vstd::prelude::*;

use crate::text::{char_of_code, coded_char};

verus! {

/// Width and height of the atlas in pixels.
pub const ATLAS_SIZE: u32 = 1024;

/// Pixel metrics needed to position a glyph within its cell.
#[derive(Debug, Clone, Copy, PartialEq, Eq, Structural)]
pub struct GlyphMetrics {
    pub width: u32,
    pub height: u32,
    /// Offset from the top of the cell to the top of the glyph bitmap.
    pub ymin: i32,
    /// Offset from the left of the cell to the left of the glyph bitmap.
    pub xmin: i32,
}

/// Where a glyph stands in the atlas.
#[derive(Debug, Clone, Copy, PartialEq, Eq, Structural)]
pub struct Spot {
    pub x: u32,
    pub y: u32,
    pub width: u32,
    pub height: u32,
}

impl Spot {
    /// The pixel belongs to the glyph.
    pub open spec fn covers(self, px: int, py: int) -> bool {
        self.x <= px < self.x + self.width && self.y <= py < self.y + self.height
    }
}

/// The bitmap of the atlas and the shelf being filled.
#[derive(Debug)]
pub struct GlyphSheet {
    /// One byte of coverage for each pixel, row by row.
    pub bitmap: Vec<u8>,
    /// Left end of the free part of the shelf.
    pub shelf_x: u32,
    /// Top of the shelf.
    pub shelf_y: u32,
    /// Height of the highest glyph on the shelf.
    pub shelf_h: u32,
    /// Glyphs were added since the atlas was last uploaded.
    pub dirty: bool,
}

impl GlyphSheet {
    /// The bitmap is complete, and the shelf lies within it unless the atlas
    /// is full.
    pub open spec fn wf(&self) -> bool {
        &&& self.bitmap@.len() == 1024 * 1024
        &&& self.shelf_x <= 1025
        &&& self.shelf_y + self.shelf_h <= 1024 || (self.shelf_y == 1025 && self.shelf_h == 0
            && self.shelf_x == 0)
    }

    /// The value of a pixel.
    pub open spec fn pixel(&self, px: int, py: int) -> u8 {
        self.bitmap@[py * 1024 + px]
    }

    /// The pixel may belong to a glyph that was packed before.
    pub open spec fn used(&self, px: int, py: int) -> bool {
        py < self.shelf_y || (py < self.shelf_y + self.shelf_h && px < self.shelf_x)
    }

    /// Where the next glyph of this width goes, and the height of the shelf
    /// there: on the shelf, or below it where the shelf has no room. There is
    /// nothing below the last shelf of a full atlas.
    pub open spec fn next_place(&self, width: u32) -> (int, int, int) {
        if self.shelf_x + width > ATLAS_SIZE && self.shelf_y <= ATLAS_SIZE {
            (0, self.shelf_y + self.shelf_h + 1, 0)
        } else {
            (self.shelf_x as int, self.shelf_y as int, self.shelf_h as int)
        }
    }

    /// An empty atlas.
    pub fn new() -> (r: Self)
        ensures
            r.wf(),
            forall|i: int| 0 <= i < 1024 * 1024 ==> r.bitmap@[i] == 0,
            r.shelf_x == 0 && r.shelf_y == 0 && r.shelf_h == 0,
            !r.dirty,
    {
        let mut bitmap: Vec<u8> = Vec::new();
        let mut i: u32 = 0;
        while i < 1024 * 1024
            invariant
                i <= 1024 * 1024,
                bitmap@.len() == i,
                forall|j: int| 0 <= j < i ==> bitmap@[j] == 0,
            decreases 1024 * 1024 - i,
        {
            bitmap.push(0);
            i += 1;
        }
        GlyphSheet { bitmap, shelf_x: 0, shelf_y: 0, shelf_h: 0, dirty: false }
    }

    /// Copy the pixels of a glyph into the atlas.
    fn blit(&mut self, spot: Spot, pixels: &Vec<u8>)
        requires
            old(self).wf(),
            spot.x + spot.width <= 1024,
            spot.y + spot.height <= 1024,
            pixels@.len() == spot.width * spot.height,
        ensures
            *final(self) == (GlyphSheet { bitmap: final(self).bitmap, ..*old(self) }),
            final(self).bitmap@.len() == 1024 * 1024,
            forall|px: int, py: int|
                0 <= px < 1024 && 0 <= py < 1024 ==> #[trigger] final(self).pixel(px, py)
                    == if spot.covers(px, py) {
                    pixels@[(py - spot.y) * spot.width + (px - spot.x)]
                } else {
                    old(self).pixel(px, py)
                },
    {
        let mut row: u32 = 0;
        while row < spot.height
            invariant
                row <= spot.height,
                spot.x + spot.width <= 1024,
                spot.y + spot.height <= 1024,
                pixels@.len() == spot.width * spot.height,
                *self == (GlyphSheet { bitmap: self.bitmap, ..*old(self) }),
                self.bitmap@.len() == 1024 * 1024,
                forall|px: int, py: int|
                    0 <= px < 1024 && 0 <= py < 1024 ==> #[trigger] self.pixel(px, py)
                        == if spot.covers(px, py) && py < spot.y + row {
                        pixels@[(py - spot.y) * spot.width + (px - spot.x)]
                    } else {
                        old(self).pixel(px, py)
                    },
            decreases spot.height - row,
        {
            let mut col: u32 = 0;
            while col < spot.width
                invariant
                    row < spot.height,
                    col <= spot.width,
                    spot.x + spot.width <= 1024,
                    spot.y + spot.height <= 1024,
                    pixels@.len() == spot.width * spot.height,
                    *self == (GlyphSheet { bitmap: self.bitmap, ..*old(self) }),
                    self.bitmap@.len() == 1024 * 1024,
                    forall|px: int, py: int|
                        0 <= px < 1024 && 0 <= py < 1024 ==> #[trigger] self.pixel(px, py)
                            == if spot.covers(px, py) && (py < spot.y + row || (py == spot.y + row
                            && px < spot.x + col)) {
                            pixels@[(py - spot.y) * spot.width + (px - spot.x)]
                        } else {
                            old(self).pixel(px, py)
                        },
                decreases spot.width - col,
            {
                let ghost before = *self;
                proof {
                    let w = spot.width as int;
                    let h = spot.height as int;
                    let r = row as int;
                    let c = col as int;
                    assert(0 <= r * w + c < w * h) by (nonlinear_arith)
                        requires
                            0 <= r < h,
                            0 <= c < w,
                    ;
                    assert(w * h <= 1024 * 1024) by (nonlinear_arith)
                        requires
                            0 <= w <= 1024,
                            0 <= h <= 1024,
                    ;
                    assert(0 <= r * w <= r * w + c) by (nonlinear_arith)
                        requires
                            0 <= r,
                            0 <= c,
                            0 <= w,
                    ;
                }
                let src: u32 = row * spot.width + col;
                let dst: u32 = (spot.y + row) * 1024 + (spot.x + col);
                let v: u8 = pixels[src as usize];
                self.bitmap.set(dst as usize, v);
                proof {
                    assert forall|px: int, py: int|
                        0 <= px < 1024 && 0 <= py < 1024 implies #[trigger] self.pixel(px, py)
                        == if spot.covers(px, py) && (py < spot.y + row || (py == spot.y + row
                        && px < spot.x + col + 1)) {
                        pixels@[(py - spot.y) * spot.width + (px - spot.x)]
                    } else {
                        old(self).pixel(px, py)
                    } by {
                        let here = before.pixel(px, py);
                        if px == spot.x + col && py == spot.y + row {
                            assert(py * 1024 + px == dst);
                            assert((py - spot.y) * spot.width + (px - spot.x) == src) by (
                            nonlinear_arith)
                                requires
                                    py - spot.y == row,
                                    px - spot.x == col,
                                    src == row * spot.width + col,
                            ;
                        } else {
                            assert(py * 1024 + px != dst);
                            assert(self.pixel(px, py) == here);
                        }
                    }
                }
                col += 1;
            }
            row += 1;
        }
    }

    /// Pack a rasterized glyph of `width` by `height` pixels. Returns its place,
    /// or `None` where the atlas has no room for it: it is full, or the glyph is
    /// wider than the atlas. A glyph never covers one that was packed before.
    pub fn pack(&mut self, width: u32, height: u32, pixels: &Vec<u8>) -> (r: Option<Spot>)
        requires
            old(self).wf(),
            pixels@.len() == width * height,
        ensures
            final(self).wf(),
            ({
                let (x, y, h) = old(self).next_place(width);
                if y + height > ATLAS_SIZE || width > ATLAS_SIZE {
                    &&& r is None
                    &&& (final(self).shelf_x, final(self).shelf_y, final(self).shelf_h) == (
                        x as u32,
                        y as u32,
                        h as u32,
                    )
                    &&& final(self).bitmap@ == old(self).bitmap@
                    &&& final(self).dirty == old(self).dirty
                } else {
                    &&& r == Some(Spot { x: x as u32, y: y as u32, width, height })
                    &&& (final(self).shelf_x, final(self).shelf_y, final(self).shelf_h) == (
                        (x + width + 1) as u32,
                        y as u32,
                        if height > h {
                            height
                        } else {
                            h as u32
                        },
                    )
                    &&& final(self).dirty
                }
            }),
            r matches Some(spot) ==> {
                &&& forall|px: int, py: int|
                    0 <= px < 1024 && 0 <= py < 1024 ==> #[trigger] final(self).pixel(px, py)
                        == if spot.covers(px, py) {
                        pixels@[(py - spot.y) * width + (px - spot.x)]
                    } else {
                        old(self).pixel(px, py)
                    }
                &&& forall|px: int, py: int|
                    spot.covers(px, py) ==> !old(self).used(px, py) && final(self).used(px, py)
            },
            forall|px: int, py: int| old(self).used(px, py) ==> final(self).used(px, py),
    {
        if self.shelf_y <= ATLAS_SIZE && (width > ATLAS_SIZE || self.shelf_x + width
            > ATLAS_SIZE) {
            self.shelf_y = self.shelf_y + self.shelf_h + 1;
            self.shelf_x = 0;
            self.shelf_h = 0;
        }
        if width > ATLAS_SIZE || self.shelf_y > ATLAS_SIZE || height > ATLAS_SIZE - self.shelf_y {
            return None;
        }
        let spot = Spot { x: self.shelf_x, y: self.shelf_y, width, height };
        let ghost moved = *self;
        self.blit(spot, pixels);
        let ghost drawn = *self;
        self.shelf_x = self.shelf_x + width + 1;
        if height > self.shelf_h {
            self.shelf_h = height;
        }
        self.dirty = true;
        proof {
            assert forall|px: int, py: int|
                0 <= px < 1024 && 0 <= py < 1024 implies #[trigger] self.pixel(px, py)
                == if spot.covers(px, py) {
                pixels@[(py - spot.y) * width + (px - spot.x)]
            } else {
                old(self).pixel(px, py)
            } by {
                assert(self.pixel(px, py) == drawn.pixel(px, py));
                assert(old(self).pixel(px, py) == moved.pixel(px, py));
            }
        }
        Some(spot)
    }

    /// True when glyphs were added since the last upload; clears the flag.
    pub fn take_dirty(&mut self) -> (r: bool)
        ensures
            r == old(self).dirty,
            *final(self) == (GlyphSheet { dirty: false, ..*old(self) }),
    {
        let r = self.dirty;
        self.dirty = false;
        r
    }
}

/// True for the characters that have no glyph: space and the controls.
pub fn is_blank_glyph(ch: char) -> (r: bool)
    ensures
        r == (ch == ' ' || (ch as int) < 0x20),
{
    ch == ' ' || (ch as u32) < 0x20
}

/// True for a bitmap without pixels.
pub fn is_blank_bitmap(width: usize, height: usize) -> (r: bool)
    ensures
        r == (width == 0 || height == 0),
{
    width == 0 || height == 0
}

/// A glyph that shaping chose, and where it puts it, in the font's units.
#[derive(Debug, Clone, Copy, PartialEq, Eq, Structural)]
pub struct ShapedId {
    pub glyph_id: u32,
    pub x_offset: i32,
    pub y_offset: i32,
    pub x_advance: i32,
}

/// A glyph of a font, and where shaping puts it.
#[derive(Debug, Clone, Copy, PartialEq, Eq, Structural)]
pub struct KeptGlyph {
    /// Its number in the font.
    pub index: u16,
    /// The character that the atlas keeps it under: the one whose code is its
    /// number.
    pub key: char,
    pub x_offset: i32,
    pub y_offset: i32,
    pub x_advance: i32,
}

/// The shaped glyphs that a font can hold, in order: a font counts its glyphs
/// in 16 bits.
pub open spec fn kept(shaped: Seq<ShapedId>) -> Seq<KeptGlyph>
    decreases shaped.len(),
{
    if shaped.len() == 0 {
        Seq::empty()
    } else {
        let g = shaped.last();
        let rest = kept(shaped.drop_last());
        if g.glyph_id <= 0xffff {
            rest.push(
                KeptGlyph {
                    index: g.glyph_id as u16,
                    key: coded_char(g.glyph_id as u16),
                    x_offset: g.x_offset,
                    y_offset: g.y_offset,
                    x_advance: g.x_advance,
                },
            )
        } else {
            rest
        }
    }
}

/// The shaped glyphs to rasterize.
pub fn kept_glyphs(shaped: &Vec<ShapedId>) -> (r: Vec<KeptGlyph>)
    ensures
        r@ == kept(shaped@),
{
    let mut r: Vec<KeptGlyph> = Vec::new();
    let mut i: usize = 0;
    while i < shaped.len()
        invariant
            i <= shaped@.len(),
            r@ == kept(shaped@.take(i as int)),
        decreases shaped@.len() - i,
    {
        let g = shaped[i];
        proof {
            assert(shaped@.take(i + 1).drop_last() =~= shaped@.take(i as int));
        }
        if g.glyph_id <= 0xffff {
            let index: u16 = g.glyph_id as u16;
            assert(shaped@.take(i + 1).last() == g);
            let key: char = char_of_code(index);
            r.push(
                KeptGlyph {
                    index,
                    key,
                    x_offset: g.x_offset,
                    y_offset: g.y_offset,
                    x_advance: g.x_advance,
                },
            );
        }
        i += 1;
    }
    proof {
        assert(shaped@.take(shaped@.len() as int) =~= shaped@);
    }
    r
}

/// A pixel smeared one column to the right.
pub open spec fn bolded(b: Seq<u8>, width: int, i: int) -> u8 {
    if i % width > 0 && b[i - 1] > b[i] {
        b[i - 1]
    } else {
        b[i]
    }
}

/// A bitmap smeared one column to the right; one that is narrower than two
/// pixels stays as it is.
pub open spec fn smeared(b: Seq<u8>, width: int, height: int) -> Seq<u8> {
    if width < 2 {
        b
    } else {
        Seq::new(
            b.len(),
            |i: int|
                if i < width * height {
                    bolded(b, width, i)
                } else {
                    b[i]
                },
        )
    }
}

/// Synthesize bold by smearing each pixel one column rightward, used only when
/// no dedicated bold face is loaded.
pub fn apply_faux_bold(bitmap: &mut Vec<u8>, width: usize, height: usize)
    requires
        width * height <= old(bitmap)@.len(),
    ensures
        final(bitmap)@ == smeared(old(bitmap)@, width as int, height as int),
{
    if width < 2 {
        return ;
    }
    let len: usize = bitmap.len();
    assert(width * height <= len);
    let n: usize = width * height;
    let ghost source = bitmap@;
    let mut i: usize = n;
    while i > 0
        invariant
            i <= n <= len,
            len == bitmap@.len(),
            len == source.len(),
            n == width * height,
            width >= 2,
            forall|j: int| 0 <= j < i ==> bitmap@[j] == source[j],
            forall|j: int| i <= j < n ==> bitmap@[j] == bolded(source, width as int, j),
            forall|j: int| n <= j < len ==> bitmap@[j] == source[j],
        decreases i,
    {
        i -= 1;
        if i % width > 0 {
            proof {
                assert(i > 0) by (nonlinear_arith)
                    requires
                        i % width > 0,
                        width >= 2,
                        i >= 0,
                ;
            }
            let v: u8 = bitmap[i - 1];
            if v > bitmap[i] {
                bitmap.set(i, v);
            }
        }
    }
    proof {
        assert(bitmap@ =~= smeared(source, width as int, height as int));
    }
}

/// How far the rows lean: an eighth of the height, at least one pixel and at
/// most four.
pub open spec fn lean(height: int) -> int {
    if height / 8 < 1 {
        1
    } else if height / 8 > 4 {
        4
    } else {
        height / 8
    }
}

/// How far row `row` is moved to the right: the top row by the whole lean, the
/// bottom row not at all.
pub open spec fn row_offset(height: int, row: int) -> int {
    (lean(height) * (height - 1 - row)) / (height - 1)
}

/// A pixel of the sheared bitmap.
pub open spec fn slanted(b: Seq<u8>, width: int, height: int, i: int) -> u8 {
    let offset = row_offset(height, i / width);
    if i % width >= offset {
        b[i - offset]
    } else {
        0
    }
}

/// A bitmap sheared to the right; one that is smaller than two pixels either
/// way stays as it is.
pub open spec fn sheared(b: Seq<u8>, width: int, height: int) -> Seq<u8> {
    if width < 2 || height < 2 {
        b
    } else {
        Seq::new(b.len(), |i: int| slanted(b, width, height, i))
    }
}

/// Synthesize italic by shearing the glyph (top rows shift right, bottom rows
/// stay), used only when no dedicated italic face is loaded. Operates within
/// the existing width, clipping the slanted right edge by up to a few pixels.
pub fn apply_faux_italic(bitmap: &mut Vec<u8>, width: usize, height: usize)
    requires
        width * height == old(bitmap)@.len() || width < 2 || height < 2,
    ensures
        final(bitmap)@ == sheared(old(bitmap)@, width as int, height as int),
{
    if width < 2 || height < 2 {
        return ;
    }
    let eighth: usize = height / 8;
    let skew: usize = if eighth < 1 {
        1
    } else if eighth > 4 {
        4
    } else {
        eighth
    };
    let n: usize = bitmap.len();
    let ghost source = bitmap@;
    let mut out: Vec<u8> = Vec::new();
    let mut i: usize = 0;
    while i < n
        invariant
            i <= n,
            n == bitmap@.len(),
            n == width * height,
            width >= 2,
            height >= 2,
            skew == lean(height as int),
            1 <= skew <= 4,
            bitmap@ == source,
            out@.len() == i,
            forall|j: int|
                0 <= j < i ==> out@[j] == slanted(source, width as int, height as int, j),
        decreases n - i,
    {
        let row: usize = i / width;
        proof {
            assert(i / width < height) by (nonlinear_arith)
                requires
                    i < width * height,
                    width >= 2,
            ;
        }
        let rows: u128 = (height - 1 - row) as u128;
        proof {
            assert(skew * rows <= 4 * rows) by (nonlinear_arith)
                requires
                    skew <= 4,
                    rows >= 0,
            ;
        }
        let wide: u128 = (skew as u128 * rows) / (height - 1) as u128;
        proof {
            let s = skew as int;
            let r = rows as int;
            let d = (height - 1) as int;
            assert((s * r) / d <= 4) by (nonlinear_arith)
                requires
                    0 <= s <= 4,
                    0 <= r <= d,
                    d >= 1,
            ;
        }
        let offset: usize = wide as usize;
        if i % width >= offset {
            proof {
                assert(i >= i % width) by (nonlinear_arith)
                    requires
                        width >= 2,
                        i >= 0,
                ;
            }
            let v: u8 = bitmap[i - offset];
            out.push(v);
        } else {
            out.push(0);
        }
        i += 1;
    }
    *bitmap = out;
    proof {
        assert(bitmap@ =~= sheared(source, width as int, height as int));
    }
}

/// A face of the font.
#[derive(Debug, Clone, Copy, PartialEq, Eq, Structural)]
pub enum Face {
    Primary,
    Bold,
    Italic,
}

/// The face for a style: a dedicated one where it is loaded, italic before
/// bold, and the primary face otherwise.
pub fn face_for(bold: bool, italic: bool, has_bold: bool, has_italic: bool) -> (r: Face)
    ensures
        r == if italic && has_italic {
            Face::Italic
        } else if bold && !italic && has_bold {
            Face::Bold
        } else {
            Face::Primary
        },
{
    if italic {
        if has_italic {
            Face::Italic
        } else {
            Face::Primary
        }
    } else if bold && has_bold {
        Face::Bold
    } else {
        Face::Primary
    }
}

/// A glyph with the styles synthesized for which no face is loaded: bold first,
/// and then italic.
pub open spec fn styled(
    b: Seq<u8>,
    width: int,
    height: int,
    faux_bold: bool,
    faux_italic: bool,
) -> Seq<u8> {
    let bold = if faux_bold {
        smeared(b, width, height)
    } else {
        b
    };
    if faux_italic {
        sheared(bold, width, height)
    } else {
        bold
    }
}

/// Synthesize the styles of a glyph for which no face is loaded.
pub fn synthesize(
    bitmap: &mut Vec<u8>,
    width: usize,
    height: usize,
    bold: bool,
    italic: bool,
    has_bold: bool,
    has_italic: bool,
)
    requires
        width * height == old(bitmap)@.len(),
    ensures
        final(bitmap)@ == styled(
            old(bitmap)@,
            width as int,
            height as int,
            bold && !has_bold,
            italic && !has_italic,
        ),
{
    if bold && !has_bold {
        apply_faux_bold(bitmap, width, height);
    }
    if italic && !has_italic {
        apply_faux_italic(bitmap, width, height);
    }
}

/// Synthesizing a style keeps the size of a glyph.
pub proof fn styles_keep_size(b: Seq<u8>, width: int, height: int, bold: bool, italic: bool)
    ensures
        styled(b, width, height, bold, italic).len() == b.len(),
{
}

proof fn place_in_row(width: int, x: int, y: int)
    requires
        0 <= x < width,
        0 <= y,
    ensures
        (y * width + x) % width == x,
        (y * width + x) / width == y,
{
    vstd::arithmetic::div_mod::lemma_fundamental_div_mod_converse(y * width + x, width, y, x);
}

proof fn place_in_bitmap(width: int, height: int, x: int, y: int)
    requires
        0 <= x < width,
        0 <= y < height,
    ensures
        0 <= y * width + x < width * height,
{
    assert(0 <= y * width + x < width * height) by (nonlinear_arith)
        requires
            0 <= x < width,
            0 <= y < height,
    ;
}

/// Synthesized bold has at each pixel the darker of it and the one to its left,
/// and nothing runs over from one row to the next.
pub proof fn bold_is_one_pixel_wider(b: Seq<u8>, width: int, height: int, x: int, y: int)
    requires
        2 <= width,
        0 <= x < width,
        0 <= y < height,
        b.len() == width * height,
    ensures
        ({
            let s = styled(b, width, height, true, false);
            let i = y * width + x;
            &&& s[i] >= b[i]
            &&& x > 0 ==> s[i] >= b[i - 1]
            &&& s[i] == b[i] || (x > 0 && s[i] == b[i - 1])
        }),
{
    place_in_row(width, x, y);
    place_in_bitmap(width, height, x, y);
}

/// Synthesized italic moves each row to the right, by as many pixels as `d`
/// says: the top one by an eighth of the height, the bottom one not at all.
pub proof fn italic_leans(b: Seq<u8>, width: int, height: int, x: int, y: int) -> (d: int)
    requires
        2 <= width,
        2 <= height,
        0 <= x < width,
        0 <= y < height,
        b.len() == width * height,
    ensures
        ({
            let s = styled(b, width, height, false, true);
            let i = y * width + x;
            &&& 0 <= d <= 4
            &&& y == height - 1 ==> d == 0
            &&& y == 0 ==> 1 <= d && (8 <= height <= 39 ==> d == height / 8)
            &&& s[i] == if x >= d {
                b[i - d]
            } else {
                0
            }
        }),
{
    place_in_row(width, x, y);
    place_in_bitmap(width, height, x, y);
    let l = lean(height);
    let d = row_offset(height, y);
    let h = height - 1;
    let p = l * (height - 1 - y);
    assert(0 <= p <= l * h) by (nonlinear_arith)
        requires
            p == l * (height - 1 - y),
            h == height - 1,
            0 <= y < height,
            1 <= l,
    ;
    vstd::arithmetic::div_mod::lemma_fundamental_div_mod(p, h);
    assert(0 <= d <= l) by (nonlinear_arith)
        requires
            p == h * d + p % h,
            0 <= p % h < h,
            0 <= p <= l * h,
            h >= 1,
    ;
    if y == height - 1 {
        assert(p == 0) by (nonlinear_arith)
            requires
                p == l * (height - 1 - y),
                y == height - 1,
        ;
        assert(d == 0) by (nonlinear_arith)
            requires
                p == h * d + p % h,
                0 <= p % h < h,
                p == 0,
                h >= 1,
                0 <= d,
        ;
    }
    if y == 0 {
        assert(d == l) by (nonlinear_arith)
            requires
                p == l * h,
                p == h * d + p % h,
                0 <= p % h < h,
                h >= 1,
        ;
    }
    d
}

/// Where the next glyph goes no glyph was packed before, neither there nor
/// anywhere to the right of it and below.
pub proof fn places_are_free(s: GlyphSheet, width: u32, px: int, py: int)
    requires
        s.wf(),
        s.next_place(width).0 <= px,
        s.next_place(width).1 <= py,
    ensures
        !s.used(px, py),
{
}

} // verus!
