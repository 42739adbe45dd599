//! Bitmap images, where they stand on the screen, and the sixel format.
use vstd::prelude::*;

use crate::grid::state::{max, min};
use crate::text::decimal;

verus! {

/// At most this many placements are kept; the oldest is dropped first.
pub const MAX_LIVE_SIXELS: usize = 16;

/// A decoded bitmap: `width * height` RGBA8 pixels, row by row.
#[derive(Debug)]
pub struct SixelImage {
    pub width: u32,
    pub height: u32,
    pub rgba: Vec<u8>,
}

/// What an image holds.
#[verifier::ext_equal]
pub struct ImageState {
    pub width: u32,
    pub height: u32,
    pub rgba: Seq<u8>,
}

impl View for SixelImage {
    type V = ImageState;

    open spec fn view(&self) -> ImageState {
        ImageState { width: self.width, height: self.height, rgba: self.rgba@ }
    }
}

impl Clone for SixelImage {
    fn clone(&self) -> (r: Self)
        ensures
            r@ == self@,
    {
        SixelImage {
            width: self.width,
            height: self.height,
            rgba: crate::text::copy_bytes(self.rgba.as_slice()),
        }
    }
}

/// An image anchored at a cell of the screen.
#[derive(Debug)]
pub struct SixelPlacement {
    pub id: u64,
    pub col: usize,
    pub row: usize,
    pub image: SixelImage,
    /// Client-assigned id of a kitty graphics image, 0 for a sixel.
    pub image_id: u32,
}

/// What a placement holds.
#[verifier::ext_equal]
pub struct PlacementState {
    pub id: u64,
    pub col: int,
    pub row: int,
    pub image: ImageState,
    pub image_id: u32,
}

impl View for SixelPlacement {
    type V = PlacementState;

    open spec fn view(&self) -> PlacementState {
        PlacementState {
            id: self.id,
            col: self.col as int,
            row: self.row as int,
            image: self.image@,
            image_id: self.image_id,
        }
    }
}

impl Clone for SixelPlacement {
    fn clone(&self) -> (r: Self)
        ensures
            r@ == self@,
    {
        SixelPlacement {
            id: self.id,
            col: self.col,
            row: self.row,
            image: self.image.clone(),
            image_id: self.image_id,
        }
    }
}

/// The views of a list of placements.
pub open spec fn placements(v: Seq<SixelPlacement>) -> Seq<PlacementState> {
    Seq::new(v.len(), |i: int| v[i]@)
}

// ---------------------------------------------------------------------------
// The sixel format
// ---------------------------------------------------------------------------

/// No image is wider or higher than this.
pub const MAX_SIXEL_SIDE: u32 = 8192;

/// The largest number that a parameter takes.
pub const MAX_SIXEL_PARAM: u32 = 65535;

/// The most parameters that a command keeps.
pub const MAX_SIXEL_PARAMS: usize = 8;

/// A pixel: red, green, blue, alpha.
pub type Pixel = (u8, u8, u8, u8);

/// The command whose parameters are being read.
#[derive(Debug, Clone, Copy, PartialEq, Eq, Structural)]
pub enum SixelCommand {
    Idle,
    /// `!`: a repeat count.
    Repeat,
    /// `#`: a colour, selected or defined.
    Color,
    /// `"`: the size of the image.
    Raster,
}

/// A decoder in the middle of its data.
pub struct SixelState {
    pub x: int,
    pub y: int,
    pub max_w: int,
    pub max_h: int,
    pub color: Pixel,
    /// Opaque colours by number.
    pub palette: Seq<Pixel>,
    /// How often the next sixel is drawn.
    pub count: int,
    pub command: SixelCommand,
    pub params: Seq<u32>,
    /// Size that the data declares.
    pub raster_w: int,
    pub raster_h: int,
    /// Size that was drawn on; 0 as long as nothing was.
    pub drawn_w: int,
    pub drawn_h: int,
    /// Rows of pixels; what is missing is transparent.
    pub lines: Seq<Seq<Pixel>>,
}

/// `row` with `n` pixels from `x` on set to `c`.
pub open spec fn run_put(row: Seq<Pixel>, x: int, n: int, c: Pixel) -> Seq<Pixel> {
    Seq::new(
        max(row.len() as int, x + n) as nat,
        |i: int|
            if x <= i < x + n {
                c
            } else if i < row.len() {
                row[i]
            } else {
                (0u8, 0u8, 0u8, 0u8)
            },
    )
}

/// `lines` with empty rows added until there are `n`.
pub open spec fn grown(lines: Seq<Seq<Pixel>>, n: int) -> Seq<Seq<Pixel>> {
    Seq::new(
        max(lines.len() as int, n) as nat,
        |i: int|
            if i < lines.len() {
                lines[i]
            } else {
                Seq::empty()
            },
    )
}

/// `lines` with `n` pixels of row `y` set to `c`.
pub open spec fn line_put(lines: Seq<Seq<Pixel>>, y: int, x: int, n: int, c: Pixel) -> Seq<
    Seq<Pixel>,
> {
    grown(lines, y + 1).update(y, run_put(grown(lines, y + 1)[y], x, n, c))
}

/// 2 to the power of `k`, for `k < 6`.
pub open spec fn weight(k: int) -> int {
    if k == 0 {
        1
    } else if k == 1 {
        2
    } else if k == 2 {
        4
    } else if k == 3 {
        8
    } else if k == 4 {
        16
    } else {
        32
    }
}

/// The rows `k..6` of a sixel drawn: bit `k` of `mask` is row `y + k`.
pub open spec fn band_put(
    lines: Seq<Seq<Pixel>>,
    k: int,
    mask: int,
    y: int,
    max_h: int,
    x: int,
    n: int,
    c: Pixel,
) -> Seq<Seq<Pixel>>
    decreases 6 - k,
{
    if k < 0 || k >= 6 {
        lines
    } else if mask / weight(k) % 2 == 1 && y + k < max_h {
        band_put(line_put(lines, y + k, x, n, c), k + 1, mask, y, max_h, x, n, c)
    } else {
        band_put(lines, k + 1, mask, y, max_h, x, n, c)
    }
}

/// A percentage as a colour channel.
pub open spec fn percent(p: int) -> u8 {
    ((if p > 100 {
        100
    } else {
        p
    }) * 255 / 100) as u8
}

/// The colours at power-up: those of a VT340, then black.
pub open spec fn default_sixel_color(i: int) -> Pixel {
    if i == 1 {
        (51, 51, 204, 255)
    } else if i == 2 {
        (204, 33, 33, 255)
    } else if i == 3 {
        (51, 204, 51, 255)
    } else if i == 4 {
        (204, 51, 204, 255)
    } else if i == 5 {
        (51, 204, 204, 255)
    } else if i == 6 {
        (204, 204, 51, 255)
    } else if i == 7 {
        (135, 135, 135, 255)
    } else if i == 8 {
        (66, 66, 66, 255)
    } else if i == 9 {
        (84, 84, 153, 255)
    } else if i == 10 {
        (153, 66, 66, 255)
    } else if i == 11 {
        (84, 153, 84, 255)
    } else if i == 12 {
        (153, 84, 153, 255)
    } else if i == 13 {
        (84, 153, 153, 255)
    } else if i == 14 {
        (153, 153, 84, 255)
    } else if i == 15 {
        (204, 204, 204, 255)
    } else {
        (0, 0, 0, 255)
    }
}

/// A parameter, 0 where it is missing.
pub open spec fn sixel_param(params: Seq<u32>, i: int) -> u32 {
    if 0 <= i < params.len() {
        params[i]
    } else {
        0
    }
}

impl SixelState {
    /// The decoder before its data.
    pub open spec fn initial(max_w: int, max_h: int) -> SixelState {
        SixelState {
            x: 0,
            y: 0,
            max_w,
            max_h,
            color: default_sixel_color(0),
            palette: Seq::new(256, |i: int| default_sixel_color(i)),
            count: 1,
            command: SixelCommand::Idle,
            params: Seq::empty(),
            raster_w: 0,
            raster_h: 0,
            drawn_w: 0,
            drawn_h: 0,
            lines: Seq::empty(),
        }
    }

    /// A colour selected, and defined where its components are given in
    /// percent (`2`).
    pub open spec fn colored(self) -> SixelState {
        let i = sixel_param(self.params, 0) % 256;
        let palette = if self.params.len() >= 5 && self.params[1] == 2 {
            self.palette.update(
                i as int,
                (
                    percent(self.params[2] as int),
                    percent(self.params[3] as int),
                    percent(self.params[4] as int),
                    255u8,
                ),
            )
        } else {
            self.palette
        };
        SixelState { palette, color: palette[i as int], ..self }
    }

    /// The command that was being read carried out.
    pub open spec fn finished(self) -> SixelState {
        let done = match self.command {
            SixelCommand::Idle => self,
            SixelCommand::Repeat => SixelState {
                count: if sixel_param(self.params, 0) == 0 {
                    1
                } else {
                    sixel_param(self.params, 0) as int
                },
                ..self
            },
            SixelCommand::Color => self.colored(),
            SixelCommand::Raster => SixelState {
                raster_w: sixel_param(self.params, 2) as int,
                raster_h: sixel_param(self.params, 3) as int,
                ..self
            },
        };
        SixelState { command: SixelCommand::Idle, params: Seq::empty(), ..done }
    }

    /// One more digit of the last parameter.
    pub open spec fn digit(self, d: int) -> SixelState {
        let last = if self.params.len() == 0 {
            0
        } else {
            self.params.last() as int
        };
        let v = if last * 10 + d > MAX_SIXEL_PARAM {
            MAX_SIXEL_PARAM
        } else {
            (last * 10 + d) as u32
        };
        SixelState {
            params: if self.params.len() == 0 {
                seq![v]
            } else {
                self.params.update(self.params.len() - 1, v)
            },
            ..self
        }
    }

    /// The next parameter begun.
    pub open spec fn separator(self) -> SixelState {
        let params = if self.params.len() == 0 {
            seq![0u32]
        } else {
            self.params
        };
        SixelState {
            params: if params.len() < MAX_SIXEL_PARAMS {
                params.push(0)
            } else {
                params
            },
            ..self
        }
    }

    /// How many pixels of a run lie within the image.
    pub open spec fn room(self) -> int {
        if self.x >= self.max_w {
            0
        } else if self.count < self.max_w - self.x {
            self.count
        } else {
            self.max_w - self.x
        }
    }

    /// A sixel drawn `count` times, as far as the image reaches.
    pub open spec fn drawn(self, mask: int) -> SixelState {
        let n = self.room();
        let inside = n > 0;
        SixelState {
            lines: if inside {
                band_put(
                    self.lines,
                    0,
                    mask,
                    self.y,
                    self.max_h,
                    self.x,
                    n,
                    self.color,
                )
            } else {
                self.lines
            },
            x: min(self.x + self.count, MAX_SIXEL_PARAM as int),
            drawn_w: if inside {
                max(self.drawn_w, self.x + n)
            } else {
                self.drawn_w
            },
            drawn_h: if inside {
                max(self.drawn_h, min(self.y + 6, self.max_h))
            } else {
                self.drawn_h
            },
            count: 1,
            ..self
        }
    }

    /// A byte outside parameters.
    pub open spec fn literal(self, b: u8) -> SixelState {
        if 0x3f <= b <= 0x7e {
            self.drawn(b - 0x3f)
        } else if b == 0x21 {
            SixelState { command: SixelCommand::Repeat, ..self }
        } else if b == 0x23 {
            SixelState { command: SixelCommand::Color, ..self }
        } else if b == 0x22 {
            SixelState { command: SixelCommand::Raster, ..self }
        } else if b == 0x24 {
            SixelState { x: 0, ..self }
        } else if b == 0x2d {
            SixelState {
                x: 0,
                y: if self.y + 6 > MAX_SIXEL_PARAM {
                    MAX_SIXEL_PARAM as int
                } else {
                    self.y + 6
                },
                ..self
            }
        } else {
            self
        }
    }

    /// One byte of the data taken.
    pub open spec fn step(self, b: u8) -> SixelState {
        if self.command != SixelCommand::Idle && 0x30 <= b <= 0x39 {
            self.digit(b - 0x30)
        } else if self.command != SixelCommand::Idle && b == 0x3b {
            self.separator()
        } else {
            self.finished().literal(b)
        }
    }

    /// The bytes of `data` taken from index `i` on.
    pub open spec fn fed(self, data: Seq<u8>, i: int) -> SixelState
        decreases data.len() - i,
    {
        if i < 0 || i >= data.len() {
            self
        } else {
            self.step(data[i]).fed(data, i + 1)
        }
    }

    /// Width of the image: what was drawn on or declared.
    pub open spec fn width(self) -> int {
        min(max(self.drawn_w, self.raster_w), self.max_w)
    }

    /// Height of the image: what was drawn on or declared.
    pub open spec fn height(self) -> int {
        min(max(self.drawn_h, self.raster_h), self.max_h)
    }

    /// The pixel in column `x` of row `y`.
    pub open spec fn pixel(self, x: int, y: int) -> Pixel {
        if 0 <= y < self.lines.len() && 0 <= x < self.lines[y].len() {
            self.lines[y][x]
        } else {
            (0, 0, 0, 0)
        }
    }

    /// The four channels of the pixels, row by row.
    pub open spec fn rgba(self, w: int, h: int) -> Seq<u8> {
        Seq::new(
            (w * h * 4) as nat,
            |i: int| channel(self.pixel(i / 4 % w, i / 4 / w), i % 4),
        )
    }

    /// The image, `None` where nothing was drawn.
    pub open spec fn image(self) -> Option<ImageState> {
        if self.drawn_w == 0 || self.drawn_h == 0 {
            None
        } else {
            Some(
                ImageState {
                    width: self.width() as u32,
                    height: self.height() as u32,
                    rgba: self.rgba(self.width(), self.height()),
                },
            )
        }
    }
}

/// A channel of a pixel.
pub open spec fn channel(p: Pixel, k: int) -> u8 {
    if k == 0 {
        p.0
    } else if k == 1 {
        p.1
    } else if k == 2 {
        p.2
    } else {
        p.3
    }
}

/// A limit on a side of an image.
pub open spec fn side(max: u32) -> int {
    if max > MAX_SIXEL_SIDE {
        MAX_SIXEL_SIDE as int
    } else {
        max as int
    }
}

/// The image that sixel data describes, clipped to `max_w` by `max_h` pixels;
/// `None` where it draws nothing.
pub open spec fn sixel_image(data: Seq<u8>, max_w: u32, max_h: u32) -> Option<ImageState> {
    SixelState::initial(side(max_w), side(max_h)).fed(data, 0).finished().image()
}

/// The rows of a canvas.
pub open spec fn rows_view(v: Seq<Vec<Pixel>>) -> Seq<Seq<Pixel>> {
    Seq::new(v.len(), |i: int| v[i]@)
}

/// A sixel decoder.
struct Decoder {
    x: u32,
    y: u32,
    max_w: u32,
    max_h: u32,
    color: Pixel,
    palette: Vec<Pixel>,
    count: u32,
    command: SixelCommand,
    params: Vec<u32>,
    raster_w: u32,
    raster_h: u32,
    drawn_w: u32,
    drawn_h: u32,
    lines: Vec<Vec<Pixel>>,
}

impl View for Decoder {
    type V = SixelState;

    closed spec fn view(&self) -> SixelState {
        SixelState {
            x: self.x as int,
            y: self.y as int,
            max_w: self.max_w as int,
            max_h: self.max_h as int,
            color: self.color,
            palette: self.palette@,
            count: self.count as int,
            command: self.command,
            params: self.params@,
            raster_w: self.raster_w as int,
            raster_h: self.raster_h as int,
            drawn_w: self.drawn_w as int,
            drawn_h: self.drawn_h as int,
            lines: rows_view(self.lines@),
        }
    }
}

/// Set `n` pixels of `row` from `x` on.
fn put_run(row: &mut Vec<Pixel>, x: usize, n: usize, c: Pixel)
    requires
        x + n <= 65535,
    ensures
        final(row)@ == run_put(old(row)@, x as int, n as int, c),
{
    let ghost before = row@;
    let end: usize = x + n;
    let mut i: usize = x;
    while row.len() < end
        invariant
            end <= 65535,
            row@.len() == max(before.len() as int, row@.len() as int),
            row@.len() <= max(before.len() as int, end as int),
            forall|j: int| 0 <= j < before.len() ==> row@[j] == before[j],
            forall|j: int| before.len() <= j < row@.len() ==> row@[j] == (0u8, 0u8, 0u8, 0u8),
        decreases end - row@.len(),
    {
        row.push((0, 0, 0, 0));
    }
    let ghost mid = row@;
    while i < end
        invariant
            x <= i <= end,
            end <= row@.len(),
            row@.len() == mid.len(),
            forall|j: int|
                0 <= j < row@.len() ==> row@[j] == if x <= j < i {
                    c
                } else {
                    mid[j]
                },
        decreases end - i,
    {
        row[i] = c;
        i += 1;
    }
    proof {
        assert(row@ =~= run_put(before, x as int, n as int, c));
    }
}

/// Set `n` pixels of row `y`.
fn put_line(lines: &mut Vec<Vec<Pixel>>, y: usize, x: usize, n: usize, c: Pixel)
    requires
        x + n <= 65535,
        y < 65535,
    ensures
        rows_view(final(lines)@) == line_put(rows_view(old(lines)@), y as int, x as int, n as int, c),
{
    let ghost before = rows_view(lines@);
    while lines.len() <= y
        invariant
            y < 65535,
            lines@.len() >= before.len(),
            lines@.len() <= max(before.len() as int, y + 1),
            forall|j: int| 0 <= j < before.len() ==> lines@[j]@ == before[j],
            forall|j: int| before.len() <= j < lines@.len() ==> lines@[j]@ == Seq::<Pixel>::empty(),
        decreases y + 1 - lines@.len(),
    {
        lines.push(Vec::new());
    }
    let ghost mid = lines@;
    proof {
        assert(rows_view(mid) =~= grown(before, y + 1));
        assert(grown(before, y + 1)[y as int] == mid[y as int]@);
    }
    put_run(&mut lines[y], x, n, c);
    proof {
        assert(rows_view(lines@) =~= line_put(before, y as int, x as int, n as int, c));
    }
}

impl Decoder {
    /// The limits are those of an image; there are 256 colours.
    closed spec fn wf(&self) -> bool {
        &&& self.max_w <= MAX_SIXEL_SIDE
        &&& self.max_h <= MAX_SIXEL_SIDE
        &&& self.drawn_w <= self.max_w
        &&& self.drawn_h <= self.max_h
        &&& self.palette@.len() == 256
        &&& self.x <= MAX_SIXEL_PARAM
        &&& self.y <= MAX_SIXEL_PARAM
        &&& 1 <= self.count <= MAX_SIXEL_PARAM
        &&& self.params@.len() <= MAX_SIXEL_PARAMS
        &&& forall|i: int| 0 <= i < self.params@.len() ==> #[trigger] self.params@[i]
            <= MAX_SIXEL_PARAM
    }

    fn new(max_w: u32, max_h: u32) -> (r: Decoder)
        requires
            max_w <= MAX_SIXEL_SIDE,
            max_h <= MAX_SIXEL_SIDE,
        ensures
            r.wf(),
            r@ == SixelState::initial(max_w as int, max_h as int),
    {
        let mut palette: Vec<Pixel> = Vec::new();
        let mut i: usize = 0;
        while i < 256
            invariant
                i <= 256,
                palette@ == Seq::new(i as nat, |j: int| default_sixel_color(j)),
            decreases 256 - i,
        {
            palette.push(start_color(i));
            i += 1;
            proof {
                assert(palette@ =~= Seq::new(i as nat, |j: int| default_sixel_color(j)));
            }
        }
        let r = Decoder {
            x: 0,
            y: 0,
            max_w,
            max_h,
            color: start_color(0),
            palette,
            count: 1,
            command: SixelCommand::Idle,
            params: Vec::new(),
            raster_w: 0,
            raster_h: 0,
            drawn_w: 0,
            drawn_h: 0,
            lines: Vec::new(),
        };
        proof {
            assert(r@.lines =~= Seq::empty());
            assert(r@.params =~= Seq::empty());
        }
        r
    }

    fn param(&self, i: usize) -> (r: u32)
        requires
            self.wf(),
        ensures
            r == sixel_param(self@.params, i as int),
            r <= MAX_SIXEL_PARAM,
    {
        if i < self.params.len() {
            self.params[i]
        } else {
            0
        }
    }

    fn set_color(&mut self)
        requires
            old(self).wf(),
        ensures
            final(self).wf(),
            final(self)@ == old(self)@.colored(),
    {
        let i: usize = (self.param(0) % 256) as usize;
        if self.params.len() >= 5 && self.params[1] == 2 {
            let c = (
                channel_of(self.params[2]),
                channel_of(self.params[3]),
                channel_of(self.params[4]),
                255u8,
            );
            self.palette[i] = c;
        }
        self.color = self.palette[i];
    }

    fn finish(&mut self)
        requires
            old(self).wf(),
        ensures
            final(self).wf(),
            final(self)@ == old(self)@.finished(),
    {
        match self.command {
            SixelCommand::Idle => {},
            SixelCommand::Repeat => {
                let n: u32 = self.param(0);
                self.count = if n == 0 {
                    1
                } else {
                    n
                };
            },
            SixelCommand::Color => self.set_color(),
            SixelCommand::Raster => {
                self.raster_w = self.param(2);
                self.raster_h = self.param(3);
            },
        }
        self.command = SixelCommand::Idle;
        self.params = Vec::new();
        proof {
            assert(self@.params =~= Seq::empty());
        }
    }

    fn digit(&mut self, d: u8)
        requires
            old(self).wf(),
            d <= 9,
        ensures
            final(self).wf(),
            final(self)@ == old(self)@.digit(d as int),
    {
        let len: usize = self.params.len();
        let last: u32 = if len == 0 {
            0
        } else {
            self.params[len - 1]
        };
        let v: u32 = if last * 10 + d as u32 > MAX_SIXEL_PARAM {
            MAX_SIXEL_PARAM
        } else {
            last * 10 + d as u32
        };
        let ghost before = self.params@;
        if len == 0 {
            self.params.push(v);
            proof {
                assert(self.params@ =~= seq![v]);
            }
        } else {
            self.params[len - 1] = v;
            proof {
                assert(self.params@ =~= before.update(len - 1, v));
            }
        }
    }

    fn separate(&mut self)
        requires
            old(self).wf(),
        ensures
            final(self).wf(),
            final(self)@ == old(self)@.separator(),
    {
        if self.params.len() == 0 {
            self.params.push(0);
            proof {
                assert(self.params@ =~= seq![0u32]);
            }
        }
        if self.params.len() < MAX_SIXEL_PARAMS {
            self.params.push(0);
        }
    }

    fn draw(&mut self, mask: u8)
        requires
            old(self).wf(),
            mask < 64,
        ensures
            final(self).wf(),
            final(self)@ == old(self)@.drawn(mask as int),
    {
        let n: u32 = if self.x >= self.max_w {
            0
        } else if self.count < self.max_w - self.x {
            self.count
        } else {
            self.max_w - self.x
        };
        if n > 0 {
            self.draw_band(mask, n);
            let end: u32 = self.x + n;
            if end > self.drawn_w {
                self.drawn_w = end;
            }
            let low: u32 = if self.y + 6 < self.max_h {
                self.y + 6
            } else {
                self.max_h
            };
            if low > self.drawn_h {
                self.drawn_h = low;
            }
        }
        self.x = if self.x + self.count < MAX_SIXEL_PARAM {
            self.x + self.count
        } else {
            MAX_SIXEL_PARAM
        };
        self.count = 1;
    }

    fn draw_band(&mut self, mask: u8, n: u32)
        requires
            old(self).wf(),
            mask < 64,
            old(self).x + n <= MAX_SIXEL_SIDE,
        ensures
            final(self).wf(),
            *final(self) == (Decoder { lines: final(self).lines, ..*old(self) }),
            rows_view(final(self).lines@) == band_put(
                rows_view(old(self).lines@),
                0,
                mask as int,
                old(self).y as int,
                old(self).max_h as int,
                old(self).x as int,
                n as int,
                old(self).color,
            ),
    {
        let x: usize = self.x as usize;
        let y: usize = self.y as usize;
        let max_h: usize = self.max_h as usize;
        let color = self.color;
        let ghost goal = band_put(
            rows_view(self.lines@),
            0,
            mask as int,
            y as int,
            max_h as int,
            x as int,
            n as int,
            color,
        );
        let mut k: usize = 0;
        while k < 6
            invariant
                k <= 6,
                mask < 64,
                x + n <= MAX_SIXEL_SIDE,
                y <= MAX_SIXEL_PARAM,
                max_h <= MAX_SIXEL_SIDE,
                goal == band_put(
                    rows_view(self.lines@),
                    k as int,
                    mask as int,
                    y as int,
                    max_h as int,
                    x as int,
                    n as int,
                    color,
                ),
                *self == (Decoder { lines: self.lines, ..*old(self) }),
            decreases 6 - k,
        {
            let w: u8 = weight_of(k);
            if mask / w % 2 == 1 && y + k < max_h {
                put_line(&mut self.lines, y + k, x, n as usize, color);
            }
            k += 1;
        }
    }

    fn literal(&mut self, b: u8)
        requires
            old(self).wf(),
        ensures
            final(self).wf(),
            final(self)@ == old(self)@.literal(b),
    {
        if 0x3f <= b && b <= 0x7e {
            self.draw(b - 0x3f);
        } else if b == 0x21 {
            self.command = SixelCommand::Repeat;
        } else if b == 0x23 {
            self.command = SixelCommand::Color;
        } else if b == 0x22 {
            self.command = SixelCommand::Raster;
        } else if b == 0x24 {
            self.x = 0;
        } else if b == 0x2d {
            self.x = 0;
            self.y = if self.y + 6 > MAX_SIXEL_PARAM {
                MAX_SIXEL_PARAM
            } else {
                self.y + 6
            };
        }
    }

    fn step(&mut self, b: u8)
        requires
            old(self).wf(),
        ensures
            final(self).wf(),
            final(self)@ == old(self)@.step(b),
    {
        if self.command != SixelCommand::Idle && 0x30 <= b && b <= 0x39 {
            self.digit(b - 0x30);
        } else if self.command != SixelCommand::Idle && b == 0x3b {
            self.separate();
        } else {
            self.finish();
            self.literal(b);
        }
    }

    fn pixel(&self, x: usize, y: usize) -> (r: Pixel)
        ensures
            r == self@.pixel(x as int, y as int),
    {
        if y < self.lines.len() && x < self.lines[y].len() {
            self.lines[y][x]
        } else {
            (0, 0, 0, 0)
        }
    }

    fn rgba(&self, w: u32, h: u32) -> (r: Vec<u8>)
        requires
            1 <= w <= MAX_SIXEL_SIDE,
            h <= MAX_SIXEL_SIDE,
        ensures
            r@ == self@.rgba(w as int, h as int),
    {
        let mut out: Vec<u8> = Vec::new();
        let ghost goal = self@.rgba(w as int, h as int);
        let ghost mut p: int = 0;
        let mut y: u32 = 0;
        proof {
            assert(0 * w == 0) by (nonlinear_arith);
        }
        while y < h
            invariant
                1 <= w <= MAX_SIXEL_SIDE,
                y <= h <= MAX_SIXEL_SIDE,
                p == y * w,
                goal == self@.rgba(w as int, h as int),
                out@.len() == 4 * p,
                forall|i: int| 0 <= i < 4 * p ==> out@[i] == goal[i],
            decreases h - y,
        {
            let mut x: u32 = 0;
            while x < w
                invariant
                    1 <= w <= MAX_SIXEL_SIDE,
                    x <= w,
                    y < h <= MAX_SIXEL_SIDE,
                    p == y * w + x,
                    goal == self@.rgba(w as int, h as int),
                    out@.len() == 4 * p,
                    forall|i: int| 0 <= i < 4 * p ==> out@[i] == goal[i],
                decreases w - x,
            {
                let c = self.pixel(x as usize, y as usize);
                let ghost before = out@;
                out.push(c.0);
                out.push(c.1);
                out.push(c.2);
                out.push(c.3);
                proof {
                    vstd::arithmetic::div_mod::lemma_fundamental_div_mod_converse(
                        p,
                        w as int,
                        y as int,
                        x as int,
                    );
                    assert(p + 1 <= w * h && 0 <= p) by (nonlinear_arith)
                        requires
                            p == y * w + x,
                            0 <= x < w,
                            0 <= y < h,
                    ;
                    assert forall|i: int| 4 * p <= i < 4 * (p + 1) implies out@[i] == goal[i] by {
                        assert(i / 4 == p);
                        assert(goal.len() == w * h * 4);
                        assert(goal[i] == channel(self@.pixel(x as int, y as int), i % 4));
                    }
                    p = p + 1;
                }
                x += 1;
            }
            y += 1;
            proof {
                assert(p == y * w) by (nonlinear_arith)
                    requires
                        p == (y - 1) * w + w,
                ;
            }
        }
        proof {
            assert(h * w * 4 == w * h * 4) by (nonlinear_arith);
            assert(out@ =~= goal);
        }
        out
    }

    fn image(&self) -> (r: Option<SixelImage>)
        requires
            self.wf(),
        ensures
            match r {
                Some(i) => self@.image() == Some(i@),
                None => self@.image() is None,
            },
    {
        if self.drawn_w == 0 || self.drawn_h == 0 {
            return None;
        }
        let w: u32 = clipped(self.drawn_w, self.raster_w, self.max_w);
        let h: u32 = clipped(self.drawn_h, self.raster_h, self.max_h);
        Some(SixelImage { width: w, height: h, rgba: self.rgba(w, h) })
    }
}

/// The larger of two sizes, within a limit.
fn clipped(drawn: u32, raster: u32, limit: u32) -> (r: u32)
    ensures
        r == min(max(drawn as int, raster as int), limit as int),
{
    let size: u32 = if drawn >= raster {
        drawn
    } else {
        raster
    };
    if size <= limit {
        size
    } else {
        limit
    }
}

fn weight_of(k: usize) -> (r: u8)
    ensures
        r == weight(k as int),
        r >= 1,
{
    if k == 0 {
        1
    } else if k == 1 {
        2
    } else if k == 2 {
        4
    } else if k == 3 {
        8
    } else if k == 4 {
        16
    } else {
        32
    }
}

fn channel_of(p: u32) -> (r: u8)
    ensures
        r == percent(p as int),
{
    let q: u32 = if p > 100 {
        100
    } else {
        p
    };
    (q * 255 / 100) as u8
}

fn start_color(i: usize) -> (r: Pixel)
    ensures
        r == default_sixel_color(i as int),
{
    if i == 1 {
        (51, 51, 204, 255)
    } else if i == 2 {
        (204, 33, 33, 255)
    } else if i == 3 {
        (51, 204, 51, 255)
    } else if i == 4 {
        (204, 51, 204, 255)
    } else if i == 5 {
        (51, 204, 204, 255)
    } else if i == 6 {
        (204, 204, 51, 255)
    } else if i == 7 {
        (135, 135, 135, 255)
    } else if i == 8 {
        (66, 66, 66, 255)
    } else if i == 9 {
        (84, 84, 153, 255)
    } else if i == 10 {
        (153, 66, 66, 255)
    } else if i == 11 {
        (84, 153, 84, 255)
    } else if i == 12 {
        (153, 84, 153, 255)
    } else if i == 13 {
        (84, 153, 153, 255)
    } else if i == 14 {
        (153, 153, 84, 255)
    } else if i == 15 {
        (204, 204, 204, 255)
    } else {
        (0, 0, 0, 255)
    }
}

/// Decode sixel data into an image of at most `max_w` by `max_h` pixels;
/// `None` where it draws nothing.
pub fn decode_sixel(data: &[u8], max_w: u32, max_h: u32) -> (r: Option<SixelImage>)
    ensures
        match r {
            Some(i) => sixel_image(data@, max_w, max_h) == Some(i@),
            None => sixel_image(data@, max_w, max_h) is None,
        },
{
    let w: u32 = if max_w > MAX_SIXEL_SIDE {
        MAX_SIXEL_SIDE
    } else {
        max_w
    };
    let h: u32 = if max_h > MAX_SIXEL_SIDE {
        MAX_SIXEL_SIDE
    } else {
        max_h
    };
    let mut decoder = Decoder::new(w, h);
    let ghost start = decoder@;
    let mut i: usize = 0;
    while i < data.len()
        invariant
            i <= data@.len(),
            decoder.wf(),
            start.fed(data@, 0) == decoder@.fed(data@, i as int),
        decreases data@.len() - i,
    {
        decoder.step(data[i]);
        i += 1;
    }
    decoder.finish();
    decoder.image()
}

/// The pixel in column `x` of row `y` of `lines`; what is missing is transparent.
pub open spec fn pixel_of(lines: Seq<Seq<Pixel>>, x: int, y: int) -> Pixel {
    if 0 <= y < lines.len() && 0 <= x < lines[y].len() {
        lines[y][x]
    } else {
        (0, 0, 0, 0)
    }
}

proof fn runs_paint(lines: Seq<Seq<Pixel>>, y: int, x: int, n: int, c: Pixel, i: int, j: int)
    requires
        0 <= x,
        0 < n,
        0 <= y,
        0 <= i,
        0 <= j,
    ensures
        pixel_of(line_put(lines, y, x, n, c), i, j) == if j == y && x <= i < x + n {
            c
        } else {
            pixel_of(lines, i, j)
        },
{
}

proof fn bands_paint(
    lines: Seq<Seq<Pixel>>,
    k: int,
    mask: int,
    y: int,
    max_h: int,
    x: int,
    n: int,
    c: Pixel,
    i: int,
    j: int,
)
    requires
        0 <= k <= 6,
        0 <= x,
        0 < n,
        0 <= y,
        0 <= i,
        0 <= j < max_h,
    ensures
        pixel_of(band_put(lines, k, mask, y, max_h, x, n, c), i, j) == if y + k <= j < y + 6
            && mask / weight(j - y) % 2 == 1 && x <= i < x + n {
            c
        } else {
            pixel_of(lines, i, j)
        },
    decreases 6 - k,
{
    if k < 6 {
        let drawn = mask / weight(k) % 2 == 1 && y + k < max_h;
        let next = if drawn {
            line_put(lines, y + k, x, n, c)
        } else {
            lines
        };
        if drawn {
            runs_paint(lines, y + k, x, n, c, i, j);
        }
        bands_paint(next, k + 1, mask, y, max_h, x, n, c, i, j);
    }
}

/// A sixel paints the pixels of the bits that it has, lowest bit on top, in the
/// current color and as often as it is repeated; it leaves every other pixel of
/// the image, and the next one goes to the right of it.
pub proof fn sixels_paint_their_bits(s: SixelState, b: u8, i: int, j: int)
    requires
        s.command == SixelCommand::Idle,
        s.params.len() == 0,
        0x3f <= b <= 0x7e,
        0 <= s.x,
        0 <= s.y,
        1 <= s.count,
        0 <= i < s.max_w,
        0 <= j < s.max_h,
    ensures
        ({
            let t = s.step(b);
            let bits = b - 0x3f;
            let painted = (j == s.y && bits % 2 == 1) || (j == s.y + 1 && bits / 2 % 2 == 1) || (j
                == s.y + 2 && bits / 4 % 2 == 1) || (j == s.y + 3 && bits / 8 % 2 == 1) || (j
                == s.y + 4 && bits / 16 % 2 == 1) || (j == s.y + 5 && bits / 32 % 2 == 1);
            &&& t.pixel(i, j) == if s.x <= i < s.x + s.count && painted {
                s.color
            } else {
                s.pixel(i, j)
            }
            &&& s.x + s.count <= MAX_SIXEL_PARAM ==> t.x == s.x + s.count
            &&& t.y == s.y && t.count == 1 && t.color == s.color && t.palette == s.palette
        }),
{
    let n = s.room();
    if n > 0 {
        bands_paint(s.lines, 0, b - 0x3f, s.y, s.max_h, s.x, n, s.color, i, j);
    }
}

/// `$` returns to the left edge and `-` goes on to the next six rows; neither
/// paints.
pub proof fn sixel_lines_follow(s: SixelState)
    requires
        s.command == SixelCommand::Idle,
        s.params.len() == 0,
        s.y + 6 <= MAX_SIXEL_PARAM,
    ensures
        s.step(0x24) == (SixelState { x: 0, ..s }),
        s.step(0x2d) == (SixelState { x: 0, y: s.y + 6, ..s }),
{
    assert(s.params =~= Seq::empty());
}

proof fn fed_push(s: SixelState, data: Seq<u8>, b: u8, i: int)
    requires
        0 <= i <= data.len(),
    ensures
        s.fed(data.push(b), i) == s.fed(data, i).step(b),
    decreases data.len() - i,
{
    let all = data.push(b);
    if i < data.len() {
        assert(all[i] == data[i]);
        fed_push(s.step(data[i]), data, b, i + 1);
    } else {
        assert(all[i] == b);
        assert(s.fed(all, i) == s.step(b).fed(all, i + 1));
    }
}

proof fn numbers_are_taken(s: SixelState, n: nat)
    requires
        s.command != SixelCommand::Idle,
        s.params.len() == 0,
        n <= MAX_SIXEL_PARAM,
    ensures
        s.fed(decimal(n), 0) == (SixelState { params: seq![n as u32], ..s }),
    decreases n,
{
    if n < 10 {
        let d = decimal(n);
        let none = Seq::<u8>::empty();
        assert(d =~= none.push((48 + n) as u8));
        fed_push(s, none, (48 + n) as u8, 0);
        assert(s.fed(none, 0) == s);
        assert(s.step((48 + n) as u8).params =~= seq![n as u32]);
    } else {
        numbers_are_taken(s, n / 10);
        let b = (48 + n % 10) as u8;
        fed_push(s, decimal(n / 10), b, 0);
        let t = s.fed(decimal(n / 10), 0);
        assert(t.params.last() == n / 10);
        assert(t.step(b).params =~= seq![n as u32]);
    }
}

/// `!` and a number have the next sixel repeated that often, and paint nothing.
pub proof fn repeats_are_counted(s: SixelState, n: nat)
    requires
        s.command == SixelCommand::Idle,
        s.params.len() == 0,
        0 < n <= MAX_SIXEL_PARAM,
    ensures
        s.step(0x21).fed(decimal(n), 0).finished() == (SixelState { count: n as int, ..s }),
{
    numbers_are_taken(s.step(0x21), n);
    assert(s.params =~= Seq::empty());
}

/// `#` with a number and three percentages defines a color and selects it; the
/// other colors stay.
pub proof fn colors_are_defined(s: SixelState, i: u8, r: u32, g: u32, b: u32, k: int)
    requires
        s.command == SixelCommand::Color,
        s.params == seq![i as u32, 2u32, r, g, b],
        s.palette.len() == 256,
        r <= 100,
        g <= 100,
        b <= 100,
        0 <= k < 256,
    ensures
        ({
            let t = s.finished();
            &&& t.color == (
                (r * 255 / 100) as u8,
                (g * 255 / 100) as u8,
                (b * 255 / 100) as u8,
                255u8,
            )
            &&& t.palette[k] == if k == i {
                t.color
            } else {
                s.palette[k]
            }
            &&& t.lines == s.lines && t.x == s.x && t.y == s.y
        }),
{
    let p = s.params;
    assert(p[0] == i && p[1] == 2 && p[2] == r && p[3] == g && p[4] == b);
}

/// The image holds its pixels row by row, four bytes each.
pub proof fn images_hold_their_pixels(s: SixelState, x: int, y: int, k: int)
    requires
        s.drawn_w > 0,
        s.drawn_h > 0,
        0 <= x < s.width(),
        0 <= y < s.height(),
        0 <= k < 4,
    ensures
        s.image() is Some,
        ({
            let rgba = s.image()->0.rgba;
            let p = s.pixel(x, y);
            let at = 4 * (y * s.width() + x);
            &&& rgba.len() == s.width() * s.height() * 4
            &&& 0 <= at && at + 3 < rgba.len()
            &&& rgba[at] == p.0 && rgba[at + 1] == p.1 && rgba[at + 2] == p.2 && rgba[at + 3] == p.3
        }),
{
    let w = s.width();
    let h = s.height();
    let n = y * w + x;
    assert(0 <= n < w * h) by (nonlinear_arith)
        requires
            n == y * w + x,
            0 <= x < w,
            0 <= y < h,
    ;
    vstd::arithmetic::div_mod::lemma_fundamental_div_mod_converse(n, w, y, x);
    assert(4 * n / 4 == n && (4 * n + 1) / 4 == n && (4 * n + 2) / 4 == n && (4 * n + 3) / 4 == n);
}

} // verus!
