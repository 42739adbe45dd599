//! Images: sixel placement and the kitty graphics protocol.
use vstd::prelude::*;
use vstd::utf8::*;

use super::cell::Cursor;
use super::screen::Screen;
use super::state::{
    last_of, max, min, FileState, GraphicsState, GridState, PendingState, ScreenState, StoredState,
};
use super::{
    files_view, frame_view, pending_view, stored_view, Grid, KittyFile, KittyGfxPending, KittyImage,
};
use crate::codec::{
    base64_data, base64_decode, decode_png_rgba, opaque_pixels, png_rgba, rgb_to_rgba,
};
use crate::sixel::{
    decode_sixel, placements, sixel_image, ImageState, PlacementState, SixelImage, SixelPlacement,
    MAX_LIVE_SIXELS,
};
use crate::text::{
    copy_range, decimal, find_byte, lit, lossy_text, position_from, put_bytes, put_decimal,
    put_str, split, split_bytes, utf8_lossy, views,
};

verus! {

// ---------------------------------------------------------------------------
// Control data
// ---------------------------------------------------------------------------

/// The number that the decimal digits among `s` write, modulo 2^32; other
/// bytes are passed over.
pub open spec fn ascii_number(s: Seq<u8>) -> u32
    decreases s.len(),
{
    if s.len() == 0 {
        0
    } else {
        let acc = ascii_number(s.drop_last());
        if 0x30 <= s.last() <= 0x39 {
            ((acc * 10 + (s.last() - 0x30)) % 0x1_0000_0000) as u32
        } else {
            acc
        }
    }
}

/// Read the decimal digits of `bytes`, passing over all else.
pub fn parse_ascii_u32(bytes: &[u8]) -> (r: u32)
    ensures
        r == ascii_number(bytes@),
{
    let mut acc: u32 = 0;
    let mut i: usize = 0;
    proof {
        assert(bytes@.take(0) =~= Seq::<u8>::empty());
    }
    while i < bytes.len()
        invariant
            i <= bytes@.len(),
            acc == ascii_number(bytes@.take(i as int)),
        decreases bytes@.len() - i,
    {
        let b: u8 = bytes[i];
        proof {
            assert(bytes@.take(i + 1).drop_last() =~= bytes@.take(i as int));
            assert(bytes@.take(i + 1).last() == b);
        }
        if 0x30 <= b && b <= 0x39 {
            acc = ((acc as u64 * 10 + (b - 0x30) as u64) % 0x1_0000_0000) as u32;
        }
        i += 1;
    }
    proof {
        assert(bytes@.take(bytes@.len() as int) =~= bytes@);
    }
    acc
}

/// The keys of a graphics command.
#[derive(Debug, Clone, Copy, PartialEq, Eq, Structural)]
pub struct Control {
    pub action: u8,
    pub format: u32,
    pub width: u32,
    pub height: u32,
    pub image_id: u32,
    pub delete: u8,
    pub transmission: u8,
    pub more: bool,
}

/// The first byte of `v`.
pub open spec fn first_or(v: Seq<u8>, default: u8) -> u8 {
    if v.len() > 0 {
        v[0]
    } else {
        default
    }
}

impl Control {
    /// The keys that a command leaves out.
    pub open spec fn initial() -> Control {
        Control {
            action: 0,
            format: 32,
            width: 0,
            height: 0,
            image_id: 0,
            delete: 0,
            transmission: 0x64,
            more: false,
        }
    }

    /// One key set.
    pub open spec fn with_key(self, key: u8, v: Seq<u8>) -> Control {
        Control {
            action: if key == 0x61 {
                first_or(v, 0)
            } else {
                self.action
            },
            format: if key == 0x66 {
                ascii_number(v)
            } else {
                self.format
            },
            width: if key == 0x73 {
                ascii_number(v)
            } else {
                self.width
            },
            height: if key == 0x76 {
                ascii_number(v)
            } else {
                self.height
            },
            image_id: if key == 0x69 {
                ascii_number(v)
            } else {
                self.image_id
            },
            delete: if key == 0x64 {
                first_or(v, 0)
            } else {
                self.delete
            },
            transmission: if key == 0x74 {
                first_or(v, 0x64)
            } else {
                self.transmission
            },
            more: if key == 0x6d {
                ascii_number(v) == 1
            } else {
                self.more
            },
        }
    }

    /// A piece `key=value` taken in; one without `=`, or whose key is not one
    /// byte, is passed over.
    pub open spec fn with_piece(self, s: Seq<u8>) -> Control {
        let eq = find_byte(s, 0x3d, 0);
        if eq == 1 && s.len() > 1 {
            self.with_key(s[0], s.subrange(2, s.len() as int))
        } else {
            self
        }
    }

    /// The pieces from index `i` on taken in.
    pub open spec fn with_pieces(self, parts: Seq<Seq<u8>>, i: int) -> Control
        decreases parts.len() - i,
    {
        if i < 0 || i >= parts.len() {
            self
        } else {
            self.with_piece(parts[i]).with_pieces(parts, i + 1)
        }
    }
}

fn first_of(v: &[u8], default: u8) -> (r: u8)
    ensures
        r == first_or(v@, default),
{
    if v.len() > 0 {
        v[0]
    } else {
        default
    }
}

impl Control {
    fn set_key(&mut self, key: u8, v: &[u8])
        ensures
            *final(self) == old(self).with_key(key, v@),
    {
        if key == 0x61 {
            self.action = first_of(v, 0);
        } else if key == 0x66 {
            self.format = parse_ascii_u32(v);
        } else if key == 0x73 {
            self.width = parse_ascii_u32(v);
        } else if key == 0x76 {
            self.height = parse_ascii_u32(v);
        } else if key == 0x69 {
            self.image_id = parse_ascii_u32(v);
        } else if key == 0x64 {
            self.delete = first_of(v, 0);
        } else if key == 0x74 {
            self.transmission = first_of(v, 0x64);
        } else if key == 0x6d {
            self.more = parse_ascii_u32(v) == 1;
        }
    }

    /// Read the keys of a command.
    pub fn read(control: &[u8]) -> (r: Control)
        ensures
            r == Control::initial().with_pieces(split(control@, 0x2c), 0),
    {
        let parts = split_bytes(control, 0x2c);
        let ghost vs = views(parts@);
        let mut c = Control {
            action: 0,
            format: 32,
            width: 0,
            height: 0,
            image_id: 0,
            delete: 0,
            transmission: 0x64,
            more: false,
        };
        let mut i: usize = 0;
        while i < parts.len()
            invariant
                i <= parts@.len(),
                vs == views(parts@),
                c.with_pieces(vs, i as int) == Control::initial().with_pieces(vs, 0),
            decreases parts@.len() - i,
        {
            let p = &parts[i];
            proof {
                assert(vs[i as int] == p@);
            }
            let eq: usize = position_from(p.as_slice(), 0x3d, 0);
            if eq == 1 && p.len() > 1 {
                let v = copy_range(p.as_slice(), 2, p.len());
                c.set_key(p[0], v.as_slice());
            }
            i += 1;
        }
        c
    }
}

// ---------------------------------------------------------------------------
// State changes
// ---------------------------------------------------------------------------

/// An acknowledgement of the kitty graphics protocol.
pub open spec fn kitty_reply(image_id: u32, status: Seq<u8>) -> Seq<u8> {
    lit("\x1b_Gi=") + decimal(image_id as nat) + lit(";") + status + lit("\x1b\\")
}

/// The index of the first kept image with this id, at or after `i`; the
/// length where there is none.
pub open spec fn stored_index(stored: Seq<StoredState>, id: u32, i: int) -> int
    decreases stored.len() - i,
{
    if i < 0 || i >= stored.len() || stored[i].id == id {
        i
    } else {
        stored_index(stored, id, i + 1)
    }
}

/// Kept images other than those with this id.
pub open spec fn other_stored(id: u32) -> spec_fn(StoredState) -> bool {
    |k: StoredState| k.id != id
}

/// Placements other than those of the image with this id.
pub open spec fn other_placed(id: u32) -> spec_fn(PlacementState) -> bool {
    |p: PlacementState| p.image_id != id
}

/// `a * b`, but not beyond what 32 bits hold.
pub open spec fn saturated(a: int, b: int) -> u32 {
    if a * b > 0xffff_ffff {
        0xffff_ffff
    } else {
        (a * b) as u32
    }
}

/// True when the path lies in a file system that no image is read from.
pub open spec fn path_blocked(path: Seq<char>) -> bool {
    path == "/proc"@ || path == "/sys"@ || path == "/dev"@ || "/proc/"@.is_prefix_of(path)
        || "/sys/"@.is_prefix_of(path) || "/dev/"@.is_prefix_of(path)
}

/// What a transmission's bytes are as an image.
pub enum Received {
    Image(ImageState),
    /// Why it is none.
    Fault(Seq<u8>),
}

/// The image that `raw` holds, in the format and size that `p` gives.
pub open spec fn received(p: PendingState, raw: Seq<u8>) -> Received {
    if p.format == 24 {
        sized_image(p.width, p.height, opaque_pixels(raw))
    } else if p.format == 32 {
        sized_image(p.width, p.height, raw)
    } else if p.format == 100 {
        match png_rgba(raw) {
            Some(f) => sized_image(f.0, f.1, f.2),
            None => Received::Fault(lit("EIO:png decode failed")),
        }
    } else {
        Received::Fault(lit("EIO:unsupported format"))
    }
}

/// The pixels as an image, if there are as many as its size asks for.
pub open spec fn sized_image(width: u32, height: u32, rgba: Seq<u8>) -> Received {
    if rgba.len() == width * height * 4 {
        Received::Image(ImageState { width, height, rgba })
    } else {
        Received::Fault(lit("EIO:size mismatch"))
    }
}

impl GridState {
    pub open spec fn with_graphics(self, graphics: GraphicsState) -> GridState {
        GridState { graphics, ..self }
    }

    /// An image shown at a cell; the oldest gives way beyond the limit.
    pub open spec fn image_placed_at(
        self,
        image: ImageState,
        image_id: u32,
        row: int,
        col: int,
    ) -> GridState {
        let p = PlacementState { id: self.graphics.next_id, col, row, image, image_id };
        self.with_graphics(
            GraphicsState { next_id: self.graphics.next_id.wrapping_add(1), ..self.graphics },
        ).with_screen(
            ScreenState {
                images: last_of(self.screen.images.push(p), MAX_LIVE_SIXELS as int),
                ..self.screen
            },
        ).all_dirty()
    }

    /// An image shown at the cursor.
    pub open spec fn image_placed(self, image: ImageState, image_id: u32) -> GridState {
        self.image_placed_at(image, image_id, self.row, self.col)
    }

    /// The sixel image of the device control string shown at the cursor, which
    /// moves to the start of the line below it.
    pub open spec fn sixel_placed(self) -> GridState {
        let image = sixel_image(
            self.dcs.buf,
            saturated(self.screen.cols, self.graphics.cell_w as int),
            saturated(self.screen.rows, self.graphics.cell_h as int),
        );
        match image {
            Some(i) => {
                let rows = (i.height + self.graphics.cell_h - 1) / self.graphics.cell_h as int;
                self.image_placed(i, 0).at(min(self.row + rows, self.screen.rows - 1), 0)
            },
            None => self,
        }
    }

    pub open spec fn kitty_replying(self, image_id: u32, status: Seq<u8>) -> GridState {
        self.replying(kitty_reply(image_id, status))
    }

    /// A kept image shown at the cursor.
    pub open spec fn stored_placed(self, image_id: u32) -> GridState {
        let i = stored_index(self.graphics.stored, image_id, 0);
        if i < self.graphics.stored.len() {
            self.image_placed(self.graphics.stored[i].image, image_id).kitty_replying(
                image_id,
                lit("OK"),
            )
        } else {
            self.kitty_replying(image_id, lit("ENOENT:no such image"))
        }
    }

    /// A kept image and its placements removed.
    pub open spec fn image_deleted(self, image_id: u32) -> GridState {
        self.with_graphics(
            GraphicsState {
                stored: self.graphics.stored.filter(other_stored(image_id)),
                ..self.graphics
            },
        ).with_screen(
            ScreenState {
                images: self.screen.images.filter(other_placed(image_id)),
                ..self.screen
            },
        ).all_dirty()
    }

    /// All kept images and all placements removed.
    pub open spec fn images_cleared(self) -> GridState {
        self.with_graphics(
            GraphicsState { stored: Seq::empty(), ..self.graphics },
        ).with_screen(ScreenState { images: Seq::empty(), ..self.screen }).all_dirty()
    }

    /// An image kept under its client id.
    pub open spec fn image_stored(self, id: u32, image: ImageState) -> GridState {
        let i = stored_index(self.graphics.stored, id, 0);
        self.with_graphics(
            GraphicsState {
                stored: if i < self.graphics.stored.len() {
                    self.graphics.stored.update(i, StoredState { id, image })
                } else {
                    self.graphics.stored.push(StoredState { id, image })
                },
                ..self.graphics
            },
        ).kitty_replying(id, lit("OK"))
    }

    /// A transmission that came to nothing: only one that is to be kept is
    /// answered.
    pub open spec fn transmission_failed(self, p: PendingState, status: Seq<u8>) -> GridState {
        if p.transmit_only {
            self.kitty_replying(p.image_id, status)
        } else {
            self
        }
    }

    /// The bytes of a complete transmission kept, or shown at a cell.
    pub open spec fn image_received(
        self,
        p: PendingState,
        raw: Seq<u8>,
        row: int,
        col: int,
    ) -> GridState {
        match received(p, raw) {
            Received::Image(image) => if p.transmit_only {
                self.image_stored(p.image_id, image)
            } else {
                self.image_placed_at(image, p.image_id, row, col)
            },
            Received::Fault(status) => self.transmission_failed(p, status),
        }
    }

    /// A transmission complete: its payload is the image, or the path of a file
    /// that is still to be read.
    pub open spec fn kitty_finalized(self, p: PendingState) -> GridState {
        match base64_data(p.data) {
            Some(payload) => if p.transmission == 0x66 || p.transmission == 0x74 {
                let path = lossy_text(payload);
                if path_blocked(path) {
                    self.transmission_failed(
                        p,
                        lit("EIO:path not allowed: ") + encode_utf8(path),
                    )
                } else {
                    self.with_graphics(
                        GraphicsState {
                            files: self.graphics.files.push(
                                FileState { path, pending: p, row: self.row, col: self.col },
                            ),
                            ..self.graphics
                        },
                    )
                }
            } else {
                self.image_received(p, payload, self.row, self.col)
            },
            None => self.transmission_failed(p, lit("EIO:base64 decode failed")),
        }
    }

    pub open spec fn with_pending(self, pending: Option<PendingState>) -> GridState {
        self.with_graphics(GraphicsState { pending, ..self.graphics })
    }

    /// A transmission's bytes so far: complete unless more are to come.
    pub open spec fn transmitted(self, p: PendingState, more: bool) -> GridState {
        if more {
            self.with_pending(Some(p))
        } else {
            self.with_pending(None).kitty_finalized(p)
        }
    }

    /// A graphics command carried out.
    pub open spec fn kitty_command(self, c: Control, payload: Seq<u8>) -> GridState {
        if c.action == 0x54 || c.action == 0x74 {
            self.transmitted(
                PendingState {
                    format: c.format,
                    width: c.width,
                    height: c.height,
                    image_id: c.image_id,
                    transmit_only: c.action == 0x74,
                    transmission: c.transmission,
                    data: payload,
                },
                c.more,
            )
        } else if c.action == 0x70 {
            self.stored_placed(c.image_id)
        } else if c.action == 0x71 {
            self.kitty_replying(c.image_id, lit("OK"))
        } else if c.action == 0x64 {
            if c.delete == 0x41 {
                self.images_cleared()
            } else {
                self.image_deleted(c.image_id)
            }
        } else {
            match self.graphics.pending {
                Some(p) => self.transmitted(
                    PendingState { data: p.data + payload, ..p },
                    c.more,
                ),
                None => self,
            }
        }
    }

    /// An application program command: a kitty graphics command, or ignored.
    #[verifier::opaque]
    pub open spec fn apc(self, data: Seq<u8>) -> GridState {
        if data.len() > 0 && data[0] == 0x47 {
            let end = find_byte(data, 0x3b, 1);
            let control = data.subrange(1, end);
            let payload = if end < data.len() {
                data.subrange(end + 1, data.len() as int)
            } else {
                Seq::empty()
            };
            self.kitty_command(Control::initial().with_pieces(split(control, 0x2c), 0), payload)
        } else {
            self
        }
    }

    /// A file that an image was to be read from has been read, or could not
    /// be: the image is shown where the cursor stood when it was asked for.
    pub open spec fn file_read(
        self,
        f: FileState,
        contents: Result<Seq<u8>, Seq<char>>,
    ) -> GridState {
        match contents {
            Ok(raw) => self.image_received(f.pending, raw, f.row, f.col),
            Err(e) => self.transmission_failed(f.pending, lit("EIO:") + encode_utf8(e)),
        }
    }

    /// A new frame of the inline video, or none.
    pub open spec fn video_set(self, frame: Option<ImageState>) -> GridState {
        self.with_graphics(
            GraphicsState {
                video: frame,
                video_version: self.graphics.video_version.wrapping_add(1),
                ..self.graphics
            },
        ).all_dirty()
    }
}

// ---------------------------------------------------------------------------
// Files
// ---------------------------------------------------------------------------

/// The largest image file that is read.
pub const MAX_GRAPHICS_FILE: u64 = 33_554_432;

/// Why the image file at `path` is not read: it is no regular file, or too
/// large.
pub open spec fn file_fault(path: Seq<char>, is_file: bool, len: u64) -> Option<Seq<u8>> {
    if !is_file {
        Some(lit("not a regular file: ") + encode_utf8(path))
    } else if len > MAX_GRAPHICS_FILE {
        Some(lit("file too large (") + decimal(len as nat) + lit(" bytes)"))
    } else {
        None
    }
}

/// `None` when an image file may be read, else why not.
pub fn read_graphics_file(path: &str, is_file: bool, len: u64) -> (r: Option<Vec<u8>>)
    ensures
        match r {
            Some(v) => file_fault(path@, is_file, len) == Some(v@),
            None => file_fault(path@, is_file, len) is None,
        },
{
    if !is_file {
        let mut out: Vec<u8> = Vec::new();
        put_str(&mut out, "not a regular file: ");
        put_str(&mut out, path);
        proof {
            assert(out@ =~= lit("not a regular file: ") + encode_utf8(path@));
        }
        Some(out)
    } else if len > MAX_GRAPHICS_FILE {
        let mut out: Vec<u8> = Vec::new();
        put_str(&mut out, "file too large (");
        put_decimal(&mut out, len);
        put_str(&mut out, " bytes)");
        proof {
            assert(out@ =~= lit("file too large (") + decimal(len as nat) + lit(" bytes)"));
        }
        Some(out)
    } else {
        None
    }
}

/// True when `s` begins with `prefix`.
fn begins(s: &[char], prefix: &str) -> (r: bool)
    ensures
        r == prefix@.is_prefix_of(s@),
{
    let p = crate::text::chars_of(prefix);
    if p.len() > s.len() {
        return false;
    }
    let mut i: usize = 0;
    while i < p.len()
        invariant
            i <= p@.len() <= s@.len(),
            p@ == prefix@,
            forall|j: int| 0 <= j < i ==> p@[j] == s@[j],
        decreases p@.len() - i,
    {
        if p[i] != s[i] {
            proof {
                if prefix@.is_prefix_of(s@) {
                    assert(s@.subrange(0, p@.len() as int)[i as int] == s@[i as int]);
                }
            }
            return false;
        }
        i += 1;
    }
    proof {
        assert(prefix@ =~= s@.subrange(0, p@.len() as int));
    }
    true
}

/// True when no image is read from this path.
pub fn graphics_path_blocked(path: &str) -> (r: bool)
    ensures
        r == path_blocked(path@),
{
    let s = crate::text::chars_of(path);
    let len: usize = s.len();
    proof {
        reveal_strlit("/proc");
        reveal_strlit("/sys");
        reveal_strlit("/dev");
        assert("/proc"@.is_prefix_of(path@) && len == 5 ==> path@ =~= "/proc"@);
        assert("/sys"@.is_prefix_of(path@) && len == 4 ==> path@ =~= "/sys"@);
        assert("/dev"@.is_prefix_of(path@) && len == 4 ==> path@ =~= "/dev"@);
        assert(path@ == "/proc"@ ==> path@.subrange(0, 5) =~= path@);
        assert(path@ == "/sys"@ ==> path@.subrange(0, 4) =~= path@);
        assert(path@ == "/dev"@ ==> path@.subrange(0, 4) =~= path@);
    }
    let chars = s.as_slice();
    (len == 5 && begins(chars, "/proc")) || (len == 4 && begins(chars, "/sys")) || (len == 4
        && begins(chars, "/dev")) || begins(chars, "/proc/") || begins(chars, "/sys/") || begins(
        chars,
        "/dev/",
    )
}

// ---------------------------------------------------------------------------
// Executable
// ---------------------------------------------------------------------------

/// The index of the first kept image with this id; the length where there is
/// none.
fn find_stored(v: &Vec<KittyImage>, id: u32) -> (r: usize)
    ensures
        r == stored_index(stored_view(v@), id, 0),
        r <= v@.len(),
{
    let mut i: usize = 0;
    while i < v.len() && v[i].id != id
        invariant
            i <= v@.len(),
            stored_index(stored_view(v@), id, 0) == stored_index(stored_view(v@), id, i as int),
        decreases v@.len() - i,
    {
        proof {
            assert(stored_view(v@)[i as int].id == v@[i as int].id);
        }
        i += 1;
    }
    proof {
        if i < v@.len() {
            assert(stored_view(v@)[i as int].id == v@[i as int].id);
        }
    }
    i
}

fn remove_stored(v: &mut Vec<KittyImage>, id: u32)
    ensures
        stored_view(final(v)@) == stored_view(old(v)@).filter(other_stored(id)),
{
    let ghost before = stored_view(v@);
    let ghost keep = other_stored(id);
    let ghost mut done: int = 0;
    let mut i: usize = 0;
    proof {
        reveal(Seq::filter);
        assert(before.take(0) =~= Seq::<StoredState>::empty());
        assert(stored_view(v@).take(0) =~= Seq::<StoredState>::empty());
    }
    while i < v.len()
        invariant
            0 <= i <= done <= before.len(),
            keep == other_stored(id),
            v@.len() - i == before.len() - done,
            stored_view(v@).take(i as int) == before.take(done).filter(keep),
            forall|k: int| 0 <= k < v@.len() - i ==> #[trigger] v@[i + k]@ == before[done + k],
        decreases v@.len() - i,
    {
        let ghost cur = v@;
        let ghost i0 = i as int;
        proof {
            assert(v@[i + 0]@ == before[done + 0]);
            assert(before.take(done + 1).drop_last() =~= before.take(done));
            reveal(Seq::filter);
        }
        if v[i].id == id {
            let _ = v.remove(i);
        } else {
            i += 1;
        }
        proof {
            done = done + 1;
            assert forall|k: int| 0 <= k < v@.len() - i implies #[trigger] v@[i + k]@ == before[done
                + k] by {
                assert(cur[i0 + (k + 1)]@ == before[done - 1 + (k + 1)]);
            }
            let sofar = before.take(done - 1).filter(keep);
            assert(stored_view(cur).take(i0) =~= sofar);
            if i == i0 {
                assert(stored_view(v@).take(i as int) =~= stored_view(cur).take(i0));
            } else {
                assert(stored_view(v@).take(i as int) =~= sofar.push(v@[i0]@));
            }
        }
    }
    proof {
        assert(before.take(before.len() as int) =~= before);
        assert(stored_view(v@).take(v@.len() as int) =~= stored_view(v@));
    }
}

fn remove_placed(v: &mut Vec<SixelPlacement>, id: u32)
    ensures
        placements(final(v)@) == placements(old(v)@).filter(other_placed(id)),
        final(v)@.len() <= old(v)@.len(),
{
    let ghost before = placements(v@);
    let ghost keep = other_placed(id);
    let ghost mut done: int = 0;
    let mut i: usize = 0;
    proof {
        reveal(Seq::filter);
        assert(before.take(0) =~= Seq::<PlacementState>::empty());
        assert(placements(v@).take(0) =~= Seq::<PlacementState>::empty());
    }
    while i < v.len()
        invariant
            0 <= i <= done <= before.len(),
            keep == other_placed(id),
            v@.len() - i == before.len() - done,
            placements(v@).take(i as int) == before.take(done).filter(keep),
            forall|k: int| 0 <= k < v@.len() - i ==> #[trigger] v@[i + k]@ == before[done + k],
        decreases v@.len() - i,
    {
        let ghost cur = v@;
        let ghost i0 = i as int;
        proof {
            assert(v@[i + 0]@ == before[done + 0]);
            assert(before.take(done + 1).drop_last() =~= before.take(done));
            reveal(Seq::filter);
        }
        if v[i].image_id == id {
            let _ = v.remove(i);
        } else {
            i += 1;
        }
        proof {
            done = done + 1;
            assert forall|k: int| 0 <= k < v@.len() - i implies #[trigger] v@[i + k]@ == before[done
                + k] by {
                assert(cur[i0 + (k + 1)]@ == before[done - 1 + (k + 1)]);
            }
            let sofar = before.take(done - 1).filter(keep);
            assert(placements(cur).take(i0) =~= sofar);
            if i == i0 {
                assert(placements(v@).take(i as int) =~= placements(cur).take(i0));
            } else {
                assert(placements(v@).take(i as int) =~= sofar.push(v@[i0]@));
            }
        }
    }
    proof {
        assert(before.take(before.len() as int) =~= before);
        assert(placements(v@).take(v@.len() as int) =~= placements(v@));
    }
}

impl Screen {
    /// Add an image; the oldest gives way beyond the limit.
    pub fn add_image(&mut self, p: SixelPlacement)
        requires
            old(self).wf(),
        ensures
            final(self).wf(),
            final(self)@ == (ScreenState {
                images: last_of(old(self)@.images.push(p@), MAX_LIVE_SIXELS as int),
                ..old(self)@
            }),
    {
        proof {
            reveal(ScreenState::filled);
        }
        let ghost before = placements(self.sixel_images@);
        self.sixel_images.push(p);
        let ghost all = placements(self.sixel_images@);
        proof {
            assert(all =~= before.push(p@));
        }
        if self.sixel_images.len() > MAX_LIVE_SIXELS {
            let _ = self.sixel_images.remove(0);
        }
        proof {
            assert(placements(self.sixel_images@) =~= last_of(all, MAX_LIVE_SIXELS as int));
        }
    }

    /// Remove the placements of the image with this id.
    pub fn remove_images_of(&mut self, image_id: u32)
        requires
            old(self).wf(),
        ensures
            final(self).wf(),
            final(self)@ == (ScreenState {
                images: old(self)@.images.filter(other_placed(image_id)),
                ..old(self)@
            }),
    {
        proof {
            reveal(ScreenState::filled);
        }
        remove_placed(&mut self.sixel_images, image_id);
    }
}

fn saturating_product(a: usize, b: u32) -> (r: u32)
    requires
        a <= 65535,
    ensures
        r == saturated(a as int, b as int),
{
    proof {
        assert(0 <= a * b <= 65535 * 0xffff_ffff) by (nonlinear_arith)
            requires
                0 <= a <= 65535,
                0 <= b <= 0xffff_ffff,
        ;
    }
    let p: u64 = a as u64 * b as u64;
    if p > 0xffff_ffff {
        0xffff_ffff
    } else {
        p as u32
    }
}

/// A transmission's bytes as an image, or why they are none.
fn read_image(p: &KittyGfxPending, raw: Vec<u8>) -> (r: Result<SixelImage, &'static str>)
    ensures
        match r {
            Ok(i) => received(p@, raw@) == Received::Image(i@),
            Err(e) => received(p@, raw@) == Received::Fault(lit(e)),
        },
{
    let (width, height, rgba) = if p.format == 24 {
        (p.width, p.height, rgb_to_rgba(raw.as_slice()))
    } else if p.format == 32 {
        (p.width, p.height, raw)
    } else if p.format == 100 {
        match decode_png_rgba(raw.as_slice()) {
            Some(f) => f,
            None => {
                return Err("EIO:png decode failed");
            },
        }
    } else {
        return Err("EIO:unsupported format");
    };
    proof {
        assert(0 <= width * height <= 0xffff_ffff * 0xffff_ffff) by (nonlinear_arith)
            requires
                0 <= width <= 0xffff_ffff,
                0 <= height <= 0xffff_ffff,
        ;
    }
    let expected: u128 = width as u128 * height as u128 * 4;
    if rgba.len() as u128 != expected {
        return Err("EIO:size mismatch");
    }
    Ok(SixelImage { width, height, rgba })
}

impl Grid {
    /// Show an image at a cell.
    fn place_image(&mut self, image: SixelImage, image_id: u32, row: usize, col: usize)
        requires
            old(self).wf(),
        ensures
            final(self).wf(),
            final(self)@ == old(self)@.image_placed_at(image@, image_id, row as int, col as int),
            final(self)@.screen.same_shape(old(self)@.screen),
    {
        let id: u64 = self.graphics.next_sixel_id;
        self.graphics.next_sixel_id = id.wrapping_add(1);
        self.screen.add_image(SixelPlacement { id, col, row, image, image_id });
        self.mark_all_dirty();
    }

    /// Decode and show a complete sixel image.
    pub fn place_sixel(&mut self)
        requires
            old(self).wf(),
        ensures
            final(self).wf(),
            final(self)@ == old(self)@.sixel_placed(),
    {
        let max_w: u32 = saturating_product(self.screen.cols, self.graphics.cell_w);
        let max_h: u32 = saturating_product(self.screen.rows, self.graphics.cell_h);
        match decode_sixel(self.dcs.dcs_buf.as_slice(), max_w, max_h) {
            Some(image) => {
                let cell_h: u64 = self.graphics.cell_h as u64;
                let rows: u64 = (image.height as u64 + cell_h - 1) / cell_h;
                let row: u64 = self.cursor.row as u64 + rows;
                let last: u64 = self.screen.rows as u64 - 1;
                let row: usize = if row < last {
                    row as usize
                } else {
                    last as usize
                };
                self.place_image(image, 0, self.cursor.row, self.cursor.col);
                self.cursor = Cursor { row, col: 0 };
            },
            None => {},
        }
    }

    /// Queue a kitty graphics acknowledgement.
    pub fn respond_kitty(&mut self, image_id: u32, status: &[u8])
        requires
            old(self).wf(),
        ensures
            final(self).wf(),
            final(self)@ == old(self)@.kitty_replying(image_id, status@),
    {
        let mut out: Vec<u8> = Vec::new();
        put_str(&mut out, "\x1b_Gi=");
        put_decimal(&mut out, image_id as u64);
        put_str(&mut out, ";");
        put_bytes(&mut out, status);
        put_str(&mut out, "\x1b\\");
        proof {
            assert(out@ =~= kitty_reply(image_id, status@));
        }
        self.respond(out);
    }

    /// Show a kept image at the cursor.
    pub fn place_kitty_image(&mut self, image_id: u32)
        requires
            old(self).wf(),
        ensures
            final(self).wf(),
            final(self)@ == old(self)@.stored_placed(image_id),
    {
        let i: usize = find_stored(&self.graphics.kitty_images, image_id);
        if i < self.graphics.kitty_images.len() {
            let image = self.graphics.kitty_images[i].image.clone();
            proof {
                assert(self@.graphics.stored[i as int].image == image@);
            }
            self.place_image(image, image_id, self.cursor.row, self.cursor.col);
            self.respond_kitty(image_id, "OK".as_bytes());
        } else {
            self.respond_kitty(image_id, "ENOENT:no such image".as_bytes());
        }
    }

    /// Remove a kept image and its placements.
    pub fn delete_kitty_image(&mut self, image_id: u32)
        requires
            old(self).wf(),
        ensures
            final(self).wf(),
            final(self)@ == old(self)@.image_deleted(image_id),
    {
        remove_stored(&mut self.graphics.kitty_images, image_id);
        self.screen.remove_images_of(image_id);
        self.mark_all_dirty();
    }

    fn clear_kitty_images(&mut self)
        requires
            old(self).wf(),
        ensures
            final(self).wf(),
            final(self)@ == old(self)@.images_cleared(),
    {
        self.graphics.kitty_images = Vec::new();
        proof {
            assert(self@.graphics.stored =~= Seq::empty());
        }
        self.screen.clear_images();
        self.mark_all_dirty();
    }

    fn store_image(&mut self, id: u32, image: SixelImage)
        requires
            old(self).wf(),
        ensures
            final(self).wf(),
            final(self)@ == old(self)@.image_stored(id, image@),
    {
        let i: usize = find_stored(&self.graphics.kitty_images, id);
        let ghost before = stored_view(self.graphics.kitty_images@);
        let item = KittyImage { id, image };
        if i < self.graphics.kitty_images.len() {
            self.graphics.kitty_images[i] = item;
            proof {
                assert(stored_view(self.graphics.kitty_images@) =~= before.update(i as int, item@));
            }
        } else {
            self.graphics.kitty_images.push(item);
            proof {
                assert(stored_view(self.graphics.kitty_images@) =~= before.push(item@));
            }
        }
        self.respond_kitty(id, "OK".as_bytes());
    }

    /// A transmission that came to nothing.
    fn fail_transmission(&mut self, p: &KittyGfxPending, status: &[u8])
        requires
            old(self).wf(),
        ensures
            final(self).wf(),
            final(self)@ == old(self)@.transmission_failed(p@, status@),
    {
        if p.transmit_only {
            self.respond_kitty(p.image_id, status);
        }
    }

    /// Keep or show the bytes of a complete transmission.
    pub fn receive_image(&mut self, p: KittyGfxPending, raw: Vec<u8>, row: usize, col: usize)
        requires
            old(self).wf(),
        ensures
            final(self).wf(),
            final(self)@ == old(self)@.image_received(p@, raw@, row as int, col as int),
    {
        match read_image(&p, raw) {
            Ok(image) => {
                if p.transmit_only {
                    self.store_image(p.image_id, image);
                } else {
                    self.place_image(image, p.image_id, row, col);
                }
            },
            Err(status) => self.fail_transmission(&p, status.as_bytes()),
        }
    }

    /// Finish a transmission.
    pub fn finalize_kitty(&mut self, p: KittyGfxPending)
        requires
            old(self).wf(),
        ensures
            final(self).wf(),
            final(self)@ == old(self)@.kitty_finalized(p@),
    {
        match base64_decode(p.data.as_slice()) {
            Some(payload) => {
                if p.transmission == 0x66 || p.transmission == 0x74 {
                    let path = utf8_lossy(payload.as_slice());
                    if graphics_path_blocked(path.as_str()) {
                        let mut out: Vec<u8> = Vec::new();
                        put_str(&mut out, "EIO:path not allowed: ");
                        put_str(&mut out, path.as_str());
                        proof {
                            assert(out@ =~= lit("EIO:path not allowed: ") + encode_utf8(path@));
                        }
                        self.fail_transmission(&p, out.as_slice());
                    } else {
                        let ghost before = files_view(self.graphics.kitty_files@);
                        let (row, col) = (self.cursor.row, self.cursor.col);
                        let file = KittyFile { path, pending: p, row, col };
                        self.graphics.kitty_files.push(file);
                        proof {
                            assert(files_view(self.graphics.kitty_files@) =~= before.push(file@));
                        }
                    }
                } else {
                    self.receive_image(p, payload, self.cursor.row, self.cursor.col);
                }
            },
            None => self.fail_transmission(&p, "EIO:base64 decode failed".as_bytes()),
        }
    }

    /// A transmission's bytes so far.
    fn transmit(&mut self, p: KittyGfxPending, more: bool)
        requires
            old(self).wf(),
        ensures
            final(self).wf(),
            final(self)@ == old(self)@.transmitted(p@, more),
    {
        if more {
            self.graphics.kitty_gfx = Some(p);
        } else {
            self.graphics.kitty_gfx = None;
            self.finalize_kitty(p);
        }
    }

    fn kitty_command(&mut self, c: Control, payload: Vec<u8>)
        requires
            old(self).wf(),
        ensures
            final(self).wf(),
            final(self)@ == old(self)@.kitty_command(c, payload@),
    {
        if c.action == 0x54 || c.action == 0x74 {
            self.transmit(
                KittyGfxPending {
                    format: c.format,
                    width: c.width,
                    height: c.height,
                    image_id: c.image_id,
                    transmit_only: c.action == 0x74,
                    transmission: c.transmission,
                    data: payload,
                },
                c.more,
            );
        } else if c.action == 0x70 {
            self.place_kitty_image(c.image_id);
        } else if c.action == 0x71 {
            self.respond_kitty(c.image_id, "OK".as_bytes());
        } else if c.action == 0x64 {
            if c.delete == 0x41 {
                self.clear_kitty_images();
            } else {
                self.delete_kitty_image(c.image_id);
            }
        } else {
            let ghost before = self@;
            let pending = self.graphics.kitty_gfx.take();
            if let Some(mut p) = pending {
                put_bytes(&mut p.data, payload.as_slice());
                self.transmit(p, c.more);
            }
        }
    }

    /// Handle an application program command.
    pub fn handle_apc(&mut self, data: &[u8])
        requires
            old(self).wf(),
        ensures
            final(self).wf(),
            final(self)@ == old(self)@.apc(data@),
    {
        proof {
            reveal(GridState::apc);
        }
        if data.len() > 0 && data[0] == 0x47 {
            let end: usize = position_from(data, 0x3b, 1);
            let control = copy_range(data, 1, end);
            let payload = if end < data.len() {
                copy_range(data, end + 1, data.len())
            } else {
                let v: Vec<u8> = Vec::new();
                proof {
                    assert(v@ =~= Seq::empty());
                }
                v
            };
            let c = Control::read(control.as_slice());
            self.kitty_command(c, payload);
        }
    }

    /// Take the images whose file is to be read.
    pub fn take_kitty_files(&mut self) -> (r: Vec<KittyFile>)
        requires
            old(self).wf(),
        ensures
            final(self).wf(),
            files_view(r@) == old(self)@.graphics.files,
            final(self)@ == old(self)@.with_graphics(
                (GraphicsState { files: Seq::empty(), ..old(self)@.graphics }),
            ),
    {
        let mut r: Vec<KittyFile> = Vec::new();
        core::mem::swap(&mut r, &mut self.graphics.kitty_files);
        proof {
            assert(files_view(self.graphics.kitty_files@) =~= Seq::empty());
        }
        r
    }

    /// The file of a transmission has been read, or could not be.
    pub fn complete_kitty_file(&mut self, file: KittyFile, contents: Result<Vec<u8>, String>)
        requires
            old(self).wf(),
        ensures
            final(self).wf(),
            final(self)@ == old(self)@.file_read(
                file@,
                match contents {
                    Ok(v) => Ok(v@),
                    Err(e) => Err(e@),
                },
            ),
    {
        match contents {
            Ok(raw) => self.receive_image(file.pending, raw, file.row, file.col),
            Err(e) => {
                let mut out: Vec<u8> = Vec::new();
                put_str(&mut out, "EIO:");
                put_str(&mut out, e.as_str());
                proof {
                    assert(out@ =~= lit("EIO:") + encode_utf8(e@));
                }
                self.fail_transmission(&file.pending, out.as_slice());
            },
        }
    }

    /// Record the cell size in pixels.
    pub fn set_cell_size(&mut self, w: u32, h: u32)
        requires
            old(self).wf(),
        ensures
            final(self).wf(),
            final(self)@ == old(self)@.with_graphics(
                (GraphicsState {
                    cell_w: if w == 0 {
                        1
                    } else {
                        w
                    },
                    cell_h: if h == 0 {
                        1
                    } else {
                        h
                    },
                    ..old(self)@.graphics
                }),
            ),
    {
        self.graphics.cell_w = if w == 0 {
            1
        } else {
            w
        };
        self.graphics.cell_h = if h == 0 {
            1
        } else {
            h
        };
    }

    /// Set or clear the inline video frame.
    pub fn set_video_frame(&mut self, frame: Option<SixelImage>)
        requires
            old(self).wf(),
        ensures
            final(self).wf(),
            final(self)@ == old(self)@.video_set(frame_view(frame)),
    {
        self.graphics.video_frame = frame;
        self.graphics.video_frame_version = self.graphics.video_frame_version.wrapping_add(1);
        self.mark_all_dirty();
    }
}

/// An image sent in two pieces is the image sent at once: a command that says
/// that more follows, and one that only brings the rest.
pub proof fn pieces_make_the_image(
    s: GridState,
    first: Control,
    rest: Control,
    a: Seq<u8>,
    b: Seq<u8>,
)
    requires
        first.action == 0x54 || first.action == 0x74,
        first.more,
        rest.action != 0x54 && rest.action != 0x74 && rest.action != 0x70 && rest.action != 0x71
            && rest.action != 0x64,
        !rest.more,
    ensures
        s.kitty_command(first, a).kitty_command(rest, b) == s.kitty_command(
            Control { more: false, ..first },
            a + b,
        ),
{
}

} // verus!
