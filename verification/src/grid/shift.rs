//! Lists that move: lines, marks and images under scrolling.
use std::collections::VecDeque;
use std::sync::Arc;
use vstd::prelude::*;

use super::cell::{self, dirtied_line, line_mut, line_view, lines_view, share, Cell};
use super::state::{
    image_in, image_scrolled, images_outside, images_scrolled, last_of, shifted_down, shifted_up,
};
use crate::sixel::{placements, PlacementState, SixelPlacement};

verus! {

// ---------------------------------------------------------------------------
// Moving the elements of a list
// ---------------------------------------------------------------------------

pub(crate) fn shift_up<T: Copy>(v: &mut Vec<T>, top: usize, bot: usize, n: usize, fill: T)
    requires
        top <= bot < old(v)@.len(),
        bot < usize::MAX,
        n <= bot - top + 1,
    ensures
        final(v)@ == shifted_up(old(v)@, top as int, bot as int, n as int, fill),
{
    let ghost before = v@;
    let mut i: usize = top;
    while i <= bot
        invariant
            top <= i <= bot + 1,
            bot < v@.len() == before.len(),
            bot < usize::MAX,
            n <= bot - top + 1,
            v@ == Seq::new(
                before.len(),
                |k: int|
                    if top <= k < i {
                        if k + n <= bot {
                            before[k + n]
                        } else {
                            fill
                        }
                    } else {
                        before[k]
                    },
            ),
        decreases bot + 1 - i,
    {
        let x = if n <= bot - i {
            v[i + n]
        } else {
            fill
        };
        v[i] = x;
        i += 1;
        proof {
            assert(v@ =~= Seq::new(
                before.len(),
                |k: int|
                    if top <= k < i {
                        if k + n <= bot {
                            before[k + n]
                        } else {
                            fill
                        }
                    } else {
                        before[k]
                    },
            ));
        }
    }
    proof {
        assert(v@ =~= shifted_up(before, top as int, bot as int, n as int, fill));
    }
}

pub(crate) fn shift_down<T: Copy>(v: &mut Vec<T>, top: usize, bot: usize, n: usize, fill: T)
    requires
        top <= bot < old(v)@.len(),
        bot < usize::MAX,
        n <= bot - top + 1,
    ensures
        final(v)@ == shifted_down(old(v)@, top as int, bot as int, n as int, fill),
{
    let ghost before = v@;
    let mut i: usize = bot + 1;
    while i > top
        invariant
            top <= i <= bot + 1,
            bot < v@.len() == before.len(),
            bot < usize::MAX,
            n <= bot - top + 1,
            v@ == Seq::new(
                before.len(),
                |k: int|
                    if i <= k <= bot {
                        if k - n >= top {
                            before[k - n]
                        } else {
                            fill
                        }
                    } else {
                        before[k]
                    },
            ),
        decreases i,
    {
        i -= 1;
        let x = if n <= i - top {
            v[i - n]
        } else {
            fill
        };
        v[i] = x;
        proof {
            assert(v@ =~= Seq::new(
                before.len(),
                |k: int|
                    if i <= k <= bot {
                        if k - n >= top {
                            before[k - n]
                        } else {
                            fill
                        }
                    } else {
                        before[k]
                    },
            ));
        }
    }
    proof {
        assert(v@ =~= shifted_down(before, top as int, bot as int, n as int, fill));
    }
}

/// Move the lines of `[top, bot]` up by `n`; `blank` follows.
pub(crate) fn shift_lines_up(
    v: &mut Vec<Arc<Vec<Cell>>>,
    top: usize,
    bot: usize,
    n: usize,
    blank: &Arc<Vec<Cell>>,
)
    requires
        top <= bot < old(v)@.len(),
        n <= bot - top + 1,
    ensures
        lines_view(final(v)@) == shifted_up(
            lines_view(old(v)@),
            top as int,
            bot as int,
            n as int,
            line_view(blank@),
        ),
{
    let ghost before = v@;
    let mut k: usize = 0;
    while k < n
        invariant
            k <= n <= bot - top + 1,
            top <= bot < v@.len() == before.len(),
            forall|i: int|
                0 <= i < before.len() ==> #[trigger] v@[i] == if top <= i <= bot {
                    if i + k <= bot {
                        before[i + k]
                    } else {
                        *blank
                    }
                } else {
                    before[i]
                },
        decreases n - k,
    {
        let _ = v.remove(top);
        v.insert(bot, share(blank));
        k += 1;
    }
    proof {
        assert(lines_view(v@) =~= shifted_up(
            lines_view(before),
            top as int,
            bot as int,
            n as int,
            line_view(blank@),
        ));
    }
}

/// Move the lines of `[top, bot]` down by `n`; `blank` precedes.
pub(crate) fn shift_lines_down(
    v: &mut Vec<Arc<Vec<Cell>>>,
    top: usize,
    bot: usize,
    n: usize,
    blank: &Arc<Vec<Cell>>,
)
    requires
        top <= bot < old(v)@.len(),
        n <= bot - top + 1,
    ensures
        lines_view(final(v)@) == shifted_down(
            lines_view(old(v)@),
            top as int,
            bot as int,
            n as int,
            line_view(blank@),
        ),
{
    let ghost before = v@;
    let mut k: usize = 0;
    while k < n
        invariant
            k <= n <= bot - top + 1,
            top <= bot < v@.len() == before.len(),
            forall|i: int|
                0 <= i < before.len() ==> #[trigger] v@[i] == if top <= i <= bot {
                    if i - k >= top {
                        before[i - k]
                    } else {
                        *blank
                    }
                } else {
                    before[i]
                },
        decreases n - k,
    {
        let _ = v.remove(bot);
        v.insert(top, share(blank));
        k += 1;
    }
    proof {
        assert(lines_view(v@) =~= shifted_down(
            lines_view(before),
            top as int,
            bot as int,
            n as int,
            line_view(blank@),
        ));
    }
}

// ---------------------------------------------------------------------------
// Images
// ---------------------------------------------------------------------------

/// Move the images of the band `[top, bot]` along with its lines.
pub(crate) fn scroll_images(
    v: &mut Vec<SixelPlacement>,
    top: usize,
    bot: usize,
    n: usize,
    up: bool,
)
    requires
        bot <= 65535,
        n <= 65536,
    ensures
        placements(final(v)@) == images_scrolled(
            placements(old(v)@),
            top as int,
            bot as int,
            n as int,
            up,
        ),
        final(v)@.len() <= old(v)@.len(),
{
    let ghost before = placements(v@);
    let ghost mut done: int = 0;
    let mut i: usize = 0;
    proof {
        assert(before.take(0) =~= Seq::<PlacementState>::empty());
        assert(placements(v@).take(0) =~= Seq::<PlacementState>::empty());
    }
    while i < v.len()
        invariant
            0 <= i <= done <= before.len(),
            v@.len() - i == before.len() - done,
            bot <= 65535,
            n <= 65536,
            placements(v@).take(i as int) == images_scrolled(
                before.take(done),
                top as int,
                bot as int,
                n as int,
                up,
            ),
            forall|k: int| 0 <= k < v@.len() - i ==> #[trigger] v@[i + k]@ == before[done + k],
        decreases v@.len() - i,
    {
        let ghost cur = v@;
        proof {
            assert(v@[i + 0]@ == before[done + 0]);
            assert(before.take(done + 1).drop_last() =~= before.take(done));
        }
        let row: usize = v[i].row;
        if row < top || row > bot {
            i += 1;
        } else if up {
            if row < n {
                let _ = v.remove(i);
            } else {
                v[i].row = row - n;
                i += 1;
            }
        } else {
            if row + n > bot {
                let _ = v.remove(i);
            } else {
                v[i].row = row + n;
                i += 1;
            }
        }
        proof {
            done = done + 1;
            assert forall|k: int| 0 <= k < v@.len() - i implies #[trigger] v@[i + k]@ == before[done
                + k] by {
                let j = i + k - (cur.len() - (before.len() - (done - 1)));
                assert(cur[(cur.len() - (before.len() - (done - 1))) + (k + 1)]@ == before[done - 1
                    + (k + 1)]);
            }
            let sofar = images_scrolled(
                before.take(done - 1),
                top as int,
                bot as int,
                n as int,
                up,
            );
            let i0 = cur.len() - (before.len() - (done - 1));
            assert(placements(cur).take(i0) =~= sofar);
            if i == i0 {
                assert(placements(v@).take(i as int) =~= placements(cur).take(i0));
            } else {
                assert(placements(v@).take(i as int) =~= sofar.push(v@[i0]@));
            }
        }
    }
    proof {
        assert(before.take(before.len() as int) =~= before);
        assert(placements(v@).take(v@.len() as int) =~= placements(v@));
    }
}

/// Remove the images anchored in rows `r0..=r1` and columns `c0..c1`.
pub(crate) fn remove_images(
    v: &mut Vec<SixelPlacement>,
    r0: usize,
    r1: usize,
    c0: usize,
    c1: usize,
)
    ensures
        placements(final(v)@) == images_outside(
            placements(old(v)@),
            r0 as int,
            r1 as int,
            c0 as int,
            c1 as int,
        ),
        final(v)@.len() <= old(v)@.len(),
{
    let ghost before = placements(v@);
    let ghost mut done: int = 0;
    let mut i: usize = 0;
    proof {
        assert(before.take(0) =~= Seq::<PlacementState>::empty());
        assert(placements(v@).take(0) =~= Seq::<PlacementState>::empty());
    }
    while i < v.len()
        invariant
            0 <= i <= done <= before.len(),
            v@.len() - i == before.len() - done,
            placements(v@).take(i as int) == images_outside(
                before.take(done),
                r0 as int,
                r1 as int,
                c0 as int,
                c1 as int,
            ),
            forall|k: int| 0 <= k < v@.len() - i ==> #[trigger] v@[i + k]@ == before[done + k],
        decreases v@.len() - i,
    {
        let ghost cur = v@;
        proof {
            assert(v@[i + 0]@ == before[done + 0]);
            assert(before.take(done + 1).drop_last() =~= before.take(done));
        }
        let row: usize = v[i].row;
        let col: usize = v[i].col;
        if r0 <= row && row <= r1 && c0 <= col && col < c1 {
            let _ = v.remove(i);
        } else {
            i += 1;
        }
        proof {
            done = done + 1;
            assert forall|k: int| 0 <= k < v@.len() - i implies #[trigger] v@[i + k]@ == before[done
                + k] by {
                assert(cur[(cur.len() - (before.len() - (done - 1))) + (k + 1)]@ == before[done - 1
                    + (k + 1)]);
            }
            let sofar = images_outside(
                before.take(done - 1),
                r0 as int,
                r1 as int,
                c0 as int,
                c1 as int,
            );
            let i0 = cur.len() - (before.len() - (done - 1));
            assert(placements(cur).take(i0) =~= sofar);
            if i == i0 {
                assert(placements(v@).take(i as int) =~= placements(cur).take(i0));
            } else {
                assert(placements(v@).take(i as int) =~= sofar.push(v@[i0]@));
            }
        }
    }
    proof {
        assert(before.take(before.len() as int) =~= before);
        assert(placements(v@).take(v@.len() as int) =~= placements(v@));
    }
}

// ---------------------------------------------------------------------------
// Dirty rows
// ---------------------------------------------------------------------------

pub(crate) fn dirty_lines(v: &mut Vec<Arc<Vec<Cell>>>, is_blank: &Vec<bool>, top: usize, bot: usize)
    requires
        bot < old(v)@.len() == is_blank@.len(),
        bot < usize::MAX,
    ensures
        lines_view(final(v)@) == Seq::new(
            old(v)@.len(),
            |r: int|
                if top <= r <= bot && !is_blank@[r] {
                    dirtied_line(lines_view(old(v)@)[r])
                } else {
                    lines_view(old(v)@)[r]
                },
        ),
{
    let ghost before = lines_view(v@);
    let mut r: usize = top;
    while r <= bot
        invariant
            top <= r,
            top <= bot ==> r <= bot + 1,
            top > bot ==> r == top,
            bot < v@.len() == is_blank@.len(),
            before.len() == v@.len(),
            bot < usize::MAX,
            lines_view(v@) == Seq::new(
                before.len(),
                |i: int|
                    if top <= i < r && !is_blank@[i] {
                        dirtied_line(before[i])
                    } else {
                        before[i]
                    },
            ),
        decreases bot + 1 - r,
    {
        let ghost cur = lines_view(v@);
        proof {
            assert(cur[r as int] == before[r as int]);
        }
        if !is_blank[r] {
            broadcast use cell::lines_view_update;

            let line = line_mut(&mut v[r]);
            cell::dirty_cells(line);
        }
        r += 1;
        proof {
            assert(lines_view(v@) =~= Seq::new(
                before.len(),
                |i: int|
                    if top <= i < r && !is_blank@[i] {
                        dirtied_line(before[i])
                    } else {
                        before[i]
                    },
            ));
        }
    }
    proof {
        assert(lines_view(v@) =~= Seq::new(
            before.len(),
            |r: int|
                if top <= r <= bot && !is_blank@[r] {
                    dirtied_line(before[r])
                } else {
                    before[r]
                },
        ));
    }
}

pub(crate) fn dirty_blanks(v: &mut Vec<bool>, is_blank: &Vec<bool>, top: usize, bot: usize)
    requires
        bot < old(v)@.len() == is_blank@.len(),
        bot < usize::MAX,
    ensures
        final(v)@ == Seq::new(
            old(v)@.len(),
            |r: int| old(v)@[r] || (top <= r <= bot && is_blank@[r]),
        ),
{
    let ghost before = v@;
    let mut r: usize = top;
    while r <= bot
        invariant
            top <= r,
            top <= bot ==> r <= bot + 1,
            top > bot ==> r == top,
            bot < v@.len() == is_blank@.len(),
            before.len() == v@.len(),
            bot < usize::MAX,
            forall|i: int|
                0 <= i < v@.len() ==> #[trigger] v@[i] == (before[i] || (top <= i < r
                    && is_blank@[i])),
        decreases bot + 1 - r,
    {
        if is_blank[r] {
            v[r] = true;
        }
        r += 1;
    }
    proof {
        assert(v@ =~= Seq::new(
            before.len(),
            |r: int| before[r] || (top <= r <= bot && is_blank@[r]),
        ));
    }
}

// ---------------------------------------------------------------------------
// History
// ---------------------------------------------------------------------------

pub(crate) fn append_lines(
    d: &mut VecDeque<Arc<Vec<Cell>>>,
    lines: &Vec<Arc<Vec<Cell>>>,
    top: usize,
    n: usize,
)
    requires
        top + n <= lines@.len(),
        top + n <= usize::MAX,
    ensures
        lines_view(final(d)@) == lines_view(old(d)@) + lines_view(lines@).subrange(
            top as int,
            top + n,
        ),
{
    let ghost before = lines_view(d@);
    let mut k: usize = 0;
    proof {
        assert(before + lines_view(lines@).subrange(top as int, top as int) =~= before);
    }
    while k < n
        invariant
            k <= n,
            top + n <= lines@.len(),
            top + n <= usize::MAX,
            lines_view(d@) == before + lines_view(lines@).subrange(top as int, top + k),
        decreases n - k,
    {
        let ghost cur = d@;
        d.push_back(share(&lines[top + k]));
        proof {
            assert(lines_view(d@) =~= lines_view(cur).push(lines_view(lines@)[top + k]));
            assert(lines_view(lines@).subrange(top as int, top + k + 1) =~= lines_view(
                lines@,
            ).subrange(top as int, top + k).push(lines_view(lines@)[top + k]));
            assert(lines_view(d@) =~= before + lines_view(lines@).subrange(
                top as int,
                top + k + 1,
            ));
        }
        k += 1;
    }
}

pub(crate) fn append_marks(d: &mut VecDeque<u8>, marks: &Vec<u8>, top: usize, n: usize)
    requires
        top + n <= marks@.len(),
        top + n <= usize::MAX,
    ensures
        final(d)@ == old(d)@ + marks@.subrange(top as int, top + n),
{
    let ghost before = d@;
    let mut k: usize = 0;
    proof {
        assert(before + marks@.subrange(top as int, top as int) =~= before);
    }
    while k < n
        invariant
            k <= n,
            top + n <= marks@.len(),
            top + n <= usize::MAX,
            d@ == before + marks@.subrange(top as int, top + k),
        decreases n - k,
    {
        d.push_back(marks[top + k]);
        k += 1;
        proof {
            assert(d@ =~= before + marks@.subrange(top as int, top + k));
        }
    }
}

/// Drop elements from the front until at most `max` are left.
pub(crate) fn keep_last<T>(d: &mut VecDeque<T>, max: usize)
    ensures
        final(d)@ == last_of(old(d)@, max as int),
{
    let ghost before = d@;
    while d.len() > max
        invariant
            before.len() >= d@.len(),
            d@.len() >= max || d@ == before,
            d@ == before.subrange(before.len() - d@.len(), before.len() as int),
        decreases d@.len(),
    {
        let _ = d.pop_front();
    }
    proof {
        assert(d@ =~= last_of(before, max as int));
    }
}

} // verus!
