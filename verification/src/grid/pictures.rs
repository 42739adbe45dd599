//! What the graphics commands do with an image: what is sent is kept or shown
//! as it was sent, and what is deleted is gone.
use vstd::prelude::*;

use super::effects::{means_ed, no_prefix};
use super::graphics::{
    ascii_number, other_placed, other_stored, stored_index, Control,
};
use super::replies::ascii_bytes;
use super::state::{
    image_in, image_scrolled, images_outside, images_scrolled, GridState, ScreenState, StoredState,
};
use crate::codec::base64_data;
use crate::sixel::{sixel_image, ImageState, PlacementState, MAX_LIVE_SIXELS};
use crate::text::{decimal, find_byte, lossy_text};

verus! {

proof fn numbers_are_read(n: nat)
    requires
        n <= u32::MAX,
    ensures
        ascii_number(decimal(n)) == n,
    decreases n,
{
    let d = decimal(n);
    if n < 10 {
        reveal_with_fuel(ascii_number, 2);
        assert(d.drop_last() =~= Seq::<u8>::empty());
        assert(d.last() == 48 + n);
    } else {
        numbers_are_read(n / 10);
        assert(d.drop_last() =~= decimal(n / 10));
        assert(d.last() == 48 + n % 10);
        assert((n / 10) * 10 + n % 10 == n);
    }
}

proof fn piece_is_read(c: Control, key: u8, v: Seq<u8>)
    requires
        key != 0x3d,
    ensures
        c.with_piece(seq![key, 0x3du8] + v) == c.with_key(key, v),
{
    let s = seq![key, 0x3du8] + v;
    reveal_with_fuel(find_byte, 3);
    assert(s[0] == key && s[1] == 0x3d);
    assert(find_byte(s, 0x3d, 0) == 1);
    assert(s.subrange(2, s.len() as int) =~= v);
}

/// Each key of a command sets what it is for and nothing else: `s` and `v` the
/// size, `i` the number of the image, `f` the format, `m` whether more follows,
/// and `a`, `d` and `t` by a letter what to do.
pub proof fn keys_are_read(c: Control, n: u32, b: u8)
    ensures
        c.with_piece(seq![0x73u8, 0x3d] + decimal(n as nat)) == (Control { width: n, ..c }),
        c.with_piece(seq![0x76u8, 0x3d] + decimal(n as nat)) == (Control { height: n, ..c }),
        c.with_piece(seq![0x69u8, 0x3d] + decimal(n as nat)) == (Control { image_id: n, ..c }),
        c.with_piece(seq![0x66u8, 0x3d] + decimal(n as nat)) == (Control { format: n, ..c }),
        c.with_piece(seq![0x6du8, 0x3d] + decimal(n as nat)) == (Control { more: n == 1, ..c }),
        c.with_piece(seq![0x61u8, 0x3d] + seq![b]) == (Control { action: b, ..c }),
        c.with_piece(seq![0x64u8, 0x3d] + seq![b]) == (Control { delete: b, ..c }),
        c.with_piece(seq![0x74u8, 0x3d] + seq![b]) == (Control { transmission: b, ..c }),
{
    numbers_are_read(n as nat);
    piece_is_read(c, 0x73, decimal(n as nat));
    piece_is_read(c, 0x76, decimal(n as nat));
    piece_is_read(c, 0x69, decimal(n as nat));
    piece_is_read(c, 0x66, decimal(n as nat));
    piece_is_read(c, 0x6d, decimal(n as nat));
    piece_is_read(c, 0x61, seq![b]);
    piece_is_read(c, 0x64, seq![b]);
    piece_is_read(c, 0x74, seq![b]);
}

proof fn found_where_it_stands(stored: Seq<StoredState>, id: u32, from: int, k: int)
    requires
        0 <= from <= k <= stored.len(),
        forall|j: int| from <= j < k ==> (#[trigger] stored[j]).id != id,
        k < stored.len() ==> stored[k].id == id,
    ensures
        stored_index(stored, id, from) == k,
    decreases k - from,
{
    if from < k {
        assert(stored[from].id != id);
        found_where_it_stands(stored, id, from + 1, k);
    }
}

proof fn index_bounds(stored: Seq<StoredState>, id: u32, from: int)
    requires
        0 <= from <= stored.len(),
    ensures
        from <= stored_index(stored, id, from) <= stored.len(),
        stored_index(stored, id, from) < stored.len() ==> stored[stored_index(
            stored,
            id,
            from,
        )].id == id,
    decreases stored.len() - from,
{
    if from < stored.len() && stored[from].id != id {
        index_bounds(stored, id, from + 1);
    }
}

/// The acknowledgement of a command about an image.
pub open spec fn acknowledged(id: u32) -> Seq<u8> {
    seq![0x1bu8, 0x5f, 0x47, 0x69, 0x3d] + decimal(id as nat) + seq![
        0x3bu8,
        0x4f,
        0x4b,
        0x1b,
        0x5c,
    ]
}

proof fn acknowledgement_is(id: u32)
    ensures
        super::graphics::kitty_reply(id, crate::text::lit("OK")) == acknowledged(id),
{
    reveal_strlit("\x1b_Gi=");
    reveal_strlit(";");
    reveal_strlit("OK");
    reveal_strlit("\x1b\\");
    ascii_bytes("\x1b_Gi="@, seq![0x1bu8, 0x5f, 0x47, 0x69, 0x3d]);
    ascii_bytes(";"@, seq![0x3bu8]);
    ascii_bytes("OK"@, seq![0x4fu8, 0x4b]);
    ascii_bytes("\x1b\\"@, seq![0x1bu8, 0x5c]);
    assert(super::graphics::kitty_reply(id, crate::text::lit("OK")) =~= acknowledged(id));
}

/// A command that sends all of an image of four bytes a pixel, of the size that
/// it says.
pub open spec fn sends(c: Control, payload: Seq<u8>, raw: Seq<u8>) -> bool {
    &&& base64_data(payload) == Some(raw)
    &&& c.format == 32
    &&& c.transmission == 0x64
    &&& !c.more
    &&& raw.len() == c.width * c.height * 4
}

/// An image that is sent to be kept is kept under its number, as it was sent,
/// in place of another with that number; that is acknowledged, and the screen
/// and the images with other numbers stay.
pub proof fn sent_images_are_kept(
    g: GridState,
    c: Control,
    payload: Seq<u8>,
    raw: Seq<u8>,
    j: int,
) -> (k: int)
    requires
        c.action == 0x74,
        sends(c, payload, raw),
    ensures
        ({
            let t = g.kitty_command(c, payload);
            let stored = t.graphics.stored;
            &&& 0 <= k < stored.len()
            &&& stored[k].id == c.image_id
            &&& stored[k].image == (ImageState { width: c.width, height: c.height, rgba: raw })
            &&& 0 <= j < g.graphics.stored.len() && g.graphics.stored[j].id != c.image_id
                ==> stored[j] == g.graphics.stored[j]
            &&& t.outbox.responses == g.outbox.responses.push(acknowledged(c.image_id))
            &&& t.screen == g.screen && t.row == g.row && t.col == g.col
        }),
{
    acknowledgement_is(c.image_id);
    index_bounds(g.graphics.stored, c.image_id, 0);
    stored_index(g.graphics.stored, c.image_id, 0)
}

/// An image that is sent to be shown is shown at the cursor, as it was sent.
pub proof fn sent_images_are_shown(g: GridState, c: Control, payload: Seq<u8>, raw: Seq<u8>)
    requires
        c.action == 0x54,
        sends(c, payload, raw),
        g.screen.images.len() < MAX_LIVE_SIXELS,
    ensures
        ({
            let t = g.kitty_command(c, payload);
            &&& t.screen.images == g.screen.images.push(
                PlacementState {
                    id: g.graphics.next_id,
                    col: g.col,
                    row: g.row,
                    image: ImageState { width: c.width, height: c.height, rgba: raw },
                    image_id: c.image_id,
                },
            )
            &&& t.graphics.stored == g.graphics.stored
            &&& t.outbox == g.outbox && t.row == g.row && t.col == g.col
        }),
{
    reveal(ScreenState::dirtied);
}

/// A kept image is shown at the cursor when it is asked for, and one that is
/// not kept is not.
pub proof fn kept_images_are_shown(g: GridState, c: Control, payload: Seq<u8>, k: int)
    requires
        c.action == 0x70,
        0 <= k <= g.graphics.stored.len(),
        forall|j: int| 0 <= j < k ==> (#[trigger] g.graphics.stored[j]).id != c.image_id,
        k < g.graphics.stored.len() ==> g.graphics.stored[k].id == c.image_id,
        g.screen.images.len() < MAX_LIVE_SIXELS,
    ensures
        ({
            let t = g.kitty_command(c, payload);
            &&& k < g.graphics.stored.len() ==> t.screen.images == g.screen.images.push(
                PlacementState {
                    id: g.graphics.next_id,
                    col: g.col,
                    row: g.row,
                    image: g.graphics.stored[k].image,
                    image_id: c.image_id,
                },
            ) && t.outbox.responses == g.outbox.responses.push(acknowledged(c.image_id))
            &&& k == g.graphics.stored.len() ==> t.screen == g.screen
            &&& t.graphics.stored == g.graphics.stored
        }),
{
    acknowledgement_is(c.image_id);
    found_where_it_stands(g.graphics.stored, c.image_id, 0, k);
    reveal(ScreenState::dirtied);
}

/// Of three bytes a pixel each pixel keeps its colours and becomes opaque.
pub proof fn pixels_become_opaque(rgb: Seq<u8>, k: int)
    requires
        0 <= k,
        3 * k + 3 <= rgb.len(),
    ensures
        ({
            let rgba = crate::codec::opaque_pixels(rgb);
            &&& rgba.len() == rgb.len() / 3 * 4
            &&& 4 * k + 4 <= rgba.len()
            &&& rgba[4 * k] == rgb[3 * k]
            &&& rgba[4 * k + 1] == rgb[3 * k + 1]
            &&& rgba[4 * k + 2] == rgb[3 * k + 2]
            &&& rgba[4 * k + 3] == 255
        }),
{
    assert(4 * k / 4 == k && (4 * k + 1) / 4 == k && (4 * k + 2) / 4 == k);
}

/// Of a grey and an alpha byte a pixel each pixel has the grey in its three
/// colours and keeps its alpha.
pub proof fn pixels_stay_grey(ga: Seq<u8>, k: int)
    requires
        0 <= k,
        2 * k + 2 <= ga.len(),
    ensures
        ({
            let rgba = crate::codec::gray_pixels(ga);
            &&& rgba.len() == ga.len() / 2 * 4
            &&& 4 * k + 4 <= rgba.len()
            &&& rgba[4 * k] == ga[2 * k]
            &&& rgba[4 * k + 1] == ga[2 * k]
            &&& rgba[4 * k + 2] == ga[2 * k]
            &&& rgba[4 * k + 3] == ga[2 * k + 1]
        }),
{
    assert(4 * k / 4 == k && (4 * k + 1) / 4 == k && (4 * k + 2) / 4 == k && (4 * k + 3) / 4 == k);
}

proof fn filtered<T>(s: Seq<T>, keep: spec_fn(T) -> bool, x: T)
    ensures
        s.filter(keep).contains(x) <==> s.contains(x) && keep(x),
    decreases s.len(),
{
    reveal(Seq::filter);
    if s.len() > 0 {
        let front = s.drop_last();
        let f = s.filter(keep);
        filtered(front, keep, x);
        let g = front.filter(keep);
        if keep(s.last()) {
            assert(f == g.push(s.last()));
            assert(f[g.len() as int] == s.last());
            if g.contains(x) {
                let k = choose|k: int| 0 <= k < g.len() && g[k] == x;
                assert(f[k] == x);
            }
            if f.contains(x) && x != s.last() {
                let k = choose|k: int| 0 <= k < f.len() && f[k] == x;
                assert(g[k] == x);
            }
        }
        if s.contains(x) && x != s.last() {
            let k = choose|k: int| 0 <= k < s.len() && s[k] == x;
            assert(front[k] == x);
        }
        if front.contains(x) {
            let k = choose|k: int| 0 <= k < front.len() && front[k] == x;
            assert(s[k] == x);
        }
        assert(s[s.len() - 1] == s.last());
    }
}

/// Deleting an image removes it and its placements, and no other; `A` removes
/// them all.
pub proof fn deleted_images_are_gone(
    g: GridState,
    c: Control,
    payload: Seq<u8>,
    p: PlacementState,
    k: StoredState,
)
    requires
        c.action == 0x64,
    ensures
        ({
            let t = g.kitty_command(c, payload);
            let all = c.delete == 0x41;
            &&& t.screen.images.contains(p) <==> !all && g.screen.images.contains(p) && p.image_id
                != c.image_id
            &&& t.graphics.stored.contains(k) <==> !all && g.graphics.stored.contains(k) && k.id
                != c.image_id
            &&& t.outbox == g.outbox && t.row == g.row && t.col == g.col
        }),
{
    reveal(ScreenState::dirtied);
    filtered(g.screen.images, other_placed(c.image_id), p);
    filtered(g.graphics.stored, other_stored(c.image_id), k);
}

/// A sixel image is shown at the cursor, which goes to the start of the first
/// line below it, or of the last line.
pub proof fn sixel_images_are_shown(g: GridState, image: ImageState)
    requires
        g.wf(),
        g.dcs.sixel,
        !g.dcs.request,
        g.graphics.cell_h > 0,
        g.screen.images.len() < MAX_LIVE_SIXELS,
        g.screen.cols * g.graphics.cell_w <= u32::MAX,
        g.screen.rows * g.graphics.cell_h <= u32::MAX,
        sixel_image(
            g.dcs.buf,
            (g.screen.cols * g.graphics.cell_w) as u32,
            (g.screen.rows * g.graphics.cell_h) as u32,
        ) == Some(image),
    ensures
        ({
            let t = g.unhooked();
            let h = g.graphics.cell_h as int;
            &&& t.screen.images == g.screen.images.push(
                PlacementState {
                    id: g.graphics.next_id,
                    col: g.col,
                    row: g.row,
                    image,
                    image_id: 0,
                },
            )
            &&& t.col == 0
            &&& g.row <= t.row < g.screen.rows
            &&& t.row == g.screen.rows - 1 || (t.row - g.row) * h >= image.height
            &&& t.row == g.row || (t.row - g.row - 1) * h < image.height
            &&& !t.dcs.sixel && t.dcs.buf.len() == 0
        }),
{
    reveal(GridState::unhooked);
    reveal(ScreenState::dirtied);
    let h = g.graphics.cell_h as int;
    let a = image.height as int;
    let rows = (a + h - 1) / h;
    vstd::arithmetic::div_mod::lemma_fundamental_div_mod(a + h - 1, h);
    assert(rows * h >= a && (rows - 1) * h < a && rows >= 0) by (nonlinear_arith)
        requires
            a + h - 1 == h * rows + (a + h - 1) % h,
            0 <= (a + h - 1) % h < h,
            h > 0,
            a >= 0,
    ;
    let t = g.unhooked();
    if t.row != g.row + rows {
        assert((t.row - g.row - 1) * h <= (rows - 1) * h) by (nonlinear_arith)
            requires
                t.row - g.row - 1 <= rows - 1,
                h > 0,
        ;
    }
}

proof fn scrolled_images_hold(
    images: Seq<PlacementState>,
    top: int,
    bot: int,
    n: int,
    up: bool,
    p: PlacementState,
    q: PlacementState,
)
    requires
        images.contains(p),
        image_scrolled(p, top, bot, n, up) == Some(q),
    ensures
        images_scrolled(images, top, bot, n, up).contains(q),
    decreases images.len(),
{
    let k = choose|k: int| 0 <= k < images.len() && images[k] == p;
    let front = images.drop_last();
    let rest = images_scrolled(front, top, bot, n, up);
    let all = images_scrolled(images, top, bot, n, up);
    if k == images.len() - 1 {
        assert(all == rest.push(q));
        assert(all[rest.len() as int] == q);
    } else {
        assert(front[k] == p);
        scrolled_images_hold(front, top, bot, n, up, p, q);
        let j = choose|j: int| 0 <= j < rest.len() && rest[j] == q;
        assert(all[j] == q);
    }
}

proof fn fewer_images(images: Seq<PlacementState>, top: int, bot: int, n: int, up: bool)
    ensures
        images_scrolled(images, top, bot, n, up).len() <= images.len(),
    decreases images.len(),
{
    if images.len() > 0 {
        fewer_images(images.drop_last(), top, bot, n, up);
    }
}

/// An image moves with the line that it stands on when the screen scrolls, and
/// so do the marks of the lines; one outside the margins stays.
pub proof fn images_and_marks_scroll(g: GridState, p: PlacementState, r: int)
    requires
        g.wf(),
        g.row == g.margins.bottom,
        g.screen.images.contains(p),
        0 <= r < g.screen.rows,
    ensures
        ({
            let t = g.executed(0x0a);
            let inside = g.margins.top <= p.row <= g.margins.bottom;
            &&& !inside ==> t.screen.images.contains(p)
            &&& inside && p.row >= 1 ==> t.screen.images.contains(
                PlacementState { row: p.row - 1, ..p },
            )
            &&& t.screen.images.len() <= g.screen.images.len()
            &&& t.screen.markers[r] == if g.margins.top <= r < g.margins.bottom {
                g.screen.markers[r + 1]
            } else if r == g.margins.bottom {
                0
            } else {
                g.screen.markers[r]
            }
            &&& !g.screen.alt_active && g.screen.scrollback.len() < g.screen.capacity
                ==> t.screen.history_markers == g.screen.history_markers.push(
                g.screen.markers[g.margins.top],
            )
        }),
{
    reveal(GridState::executed);
    reveal(ScreenState::lines_up);
    reveal(ScreenState::archived);
    reveal(ScreenState::dirtied);
    let top = g.margins.top;
    let bot = g.margins.bottom;
    fewer_images(g.screen.images, top, bot, 1, true);
    if !(top <= p.row <= bot) {
        scrolled_images_hold(g.screen.images, top, bot, 1, true, p, p);
    } else if p.row >= 1 {
        scrolled_images_hold(
            g.screen.images,
            top,
            bot,
            1,
            true,
            p,
            PlacementState { row: p.row - 1, ..p },
        );
    }
    let m = g.screen.markers;
    assert(m.subrange(top, top + 1) =~= seq![m[top]]);
    assert(g.screen.history_markers + m.subrange(top, top + 1)
        =~= g.screen.history_markers.push(m[top]));
}

proof fn images_left(
    images: Seq<PlacementState>,
    r0: int,
    r1: int,
    c0: int,
    c1: int,
    p: PlacementState,
)
    ensures
        images_outside(images, r0, r1, c0, c1).contains(p) <==> images.contains(p) && !image_in(
            p,
            r0,
            r1,
            c0,
            c1,
        ),
    decreases images.len(),
{
    if images.len() > 0 {
        let front = images.drop_last();
        let rest = images_outside(front, r0, r1, c0, c1);
        let all = images_outside(images, r0, r1, c0, c1);
        images_left(front, r0, r1, c0, c1, p);
        if !image_in(images.last(), r0, r1, c0, c1) {
            assert(all == rest.push(images.last()));
            assert(all[rest.len() as int] == images.last());
            if rest.contains(p) {
                let k = choose|k: int| 0 <= k < rest.len() && rest[k] == p;
                assert(all[k] == p);
            }
            if all.contains(p) && p != images.last() {
                let k = choose|k: int| 0 <= k < all.len() && all[k] == p;
                assert(rest[k] == p);
            }
        }
        if images.contains(p) && p != images.last() {
            let k = choose|k: int| 0 <= k < images.len() && images[k] == p;
            assert(front[k] == p);
        }
        if front.contains(p) {
            let k = choose|k: int| 0 <= k < front.len() && front[k] == p;
            assert(images[k] == p);
        }
        assert(images[images.len() - 1] == images.last());
    }
}

/// Erasing the screen from the cursor on takes the images with it that stand
/// below and to the right, erasing up to it those above and to the left, and
/// erasing all of it every one; the others stay.
pub proof fn images_go_with_what_is_erased(g: GridState, p: PlacementState)
    requires
        g.wf(),
        !g.margins.horizontal,
        g.col < g.screen.cols,
        g.screen.images.contains(p),
        0 <= p.row < g.screen.rows,
        0 <= p.col < g.screen.cols,
    ensures
        ({
            let from = g.csi(seq![seq![0u16]], no_prefix(), 0x4a);
            let until = g.csi(seq![seq![1u16]], no_prefix(), 0x4a);
            let all = g.csi(seq![seq![2u16]], no_prefix(), 0x4a);
            &&& from.screen.images.contains(p) <==> !(p.row >= g.row && p.col >= g.col)
            &&& until.screen.images.contains(p) <==> !(p.row <= g.row && p.col <= g.col)
            &&& all.screen.images.len() == 0
        }),
{
    let cols = g.screen.cols;
    means_ed(g, seq![seq![0u16]]);
    means_ed(g, seq![seq![1u16]]);
    means_ed(g, seq![seq![2u16]]);
    assert(seq![seq![0u16]][0] == seq![0u16]);
    assert(seq![seq![1u16]][0] == seq![1u16]);
    assert(seq![seq![2u16]][0] == seq![2u16]);
    images_left(g.screen.images, g.row, g.screen.rows - 1, g.col, cols, p);
    images_left(g.screen.images, 0, g.row, 0, g.col + 1, p);
}

/// An image that has not as many bytes as its size asks for is neither kept nor
/// shown.
pub proof fn mismatched_images_are_refused(g: GridState, c: Control, payload: Seq<u8>, raw: Seq<u8>)
    requires
        c.action == 0x74 || c.action == 0x54,
        !c.more,
        c.transmission == 0x64,
        c.format == 32,
        base64_data(payload) == Some(raw),
        raw.len() != c.width * c.height * 4,
    ensures
        ({
            let t = g.kitty_command(c, payload);
            &&& t.screen == g.screen && t.graphics.stored == g.graphics.stored
            &&& t.graphics.pending is None
            &&& c.action == 0x54 ==> t.outbox == g.outbox
            &&& c.action == 0x74 ==> t.outbox.responses.len() == g.outbox.responses.len() + 1
                && t.outbox.responses.last() != acknowledged(c.image_id)
        }),
{
    if c.action == 0x74 {
        refusal_is_no_acknowledgement(c.image_id);
    }
}

proof fn refusal_is_no_acknowledgement(id: u32)
    ensures
        super::graphics::kitty_reply(id, crate::text::lit("EIO:size mismatch"))
            != acknowledged(id),
{
    acknowledgement_is(id);
    reveal_strlit("OK");
    reveal_strlit("EIO:size mismatch");
    ascii_bytes("OK"@, seq![0x4fu8, 0x4b]);
    ascii_bytes(
        "EIO:size mismatch"@,
        seq![
            0x45u8,
            0x49,
            0x4f,
            0x3a,
            0x73,
            0x69,
            0x7a,
            0x65,
            0x20,
            0x6d,
            0x69,
            0x73,
            0x6d,
            0x61,
            0x74,
            0x63,
            0x68,
        ],
    );
    let a = super::graphics::kitty_reply(id, crate::text::lit("OK"));
    let b = super::graphics::kitty_reply(id, crate::text::lit("EIO:size mismatch"));
    assert(b.len() == a.len() + 15);
}

/// An image that is to be read from a file waits for it, with the place of the
/// cursor; but none is read from the file systems of the kernel.
pub proof fn files_of_the_kernel_are_not_read(
    g: GridState,
    c: Control,
    payload: Seq<u8>,
    raw: Seq<u8>,
)
    requires
        c.action == 0x74 || c.action == 0x54,
        !c.more,
        c.transmission == 0x66 || c.transmission == 0x74,
        base64_data(payload) == Some(raw),
    ensures
        ({
            let t = g.kitty_command(c, payload);
            let path = lossy_text(raw);
            let under = |dir: Seq<char>| path == dir || (dir.push('/')).is_prefix_of(path);
            let blocked = under(seq!['/', 'p', 'r', 'o', 'c']) || under(seq!['/', 's', 'y', 's'])
                || under(seq!['/', 'd', 'e', 'v']);
            &&& t.screen == g.screen && t.graphics.stored == g.graphics.stored
            &&& blocked ==> t.graphics.files == g.graphics.files
            &&& !blocked ==> {
                &&& t.graphics.files.len() == g.graphics.files.len() + 1
                &&& t.graphics.files.last().path == path
                &&& t.graphics.files.last().row == g.row
                &&& t.graphics.files.last().col == g.col
                &&& t.graphics.files.last().pending.image_id == c.image_id
                &&& t.graphics.files.last().pending.transmit_only == (c.action == 0x74)
                &&& t.outbox == g.outbox
            }
        }),
{
    reveal_strlit("/proc");
    reveal_strlit("/sys");
    reveal_strlit("/dev");
    reveal_strlit("/proc/");
    reveal_strlit("/sys/");
    reveal_strlit("/dev/");
    assert("/proc"@ =~= seq!['/', 'p', 'r', 'o', 'c']);
    assert("/sys"@ =~= seq!['/', 's', 'y', 's']);
    assert("/dev"@ =~= seq!['/', 'd', 'e', 'v']);
    assert("/proc/"@ =~= "/proc"@.push('/'));
    assert("/sys/"@ =~= "/sys"@.push('/'));
    assert("/dev/"@ =~= "/dev"@.push('/'));
}

} // verus!
