//! Hyperlinks of cells.
use std::collections::{HashMap, VecDeque};
use std::sync::Arc;
use vstd::prelude::*;

use super::cell::{line_view, lines_view, Cell, CellState};
use super::screen::Screen;
use super::state::{GridState, LinksState, ScreenState};
use super::{urls_view, Grid};

verus! {

broadcast use vstd::std_specs::hash::group_hash_axioms;

/// The hyperlinks that a line's cells belong to.
pub open spec fn line_ids(line: Seq<CellState>) -> Set<u32> {
    Set::new(
        |k: u32| k != 0 && exists|c: int| 0 <= c < line.len() && #[trigger] line[c].hyperlink_id == k,
    )
}

/// The hyperlinks that the cells of some lines belong to.
pub open spec fn lines_ids(lines: Seq<Seq<CellState>>) -> Set<u32> {
    Set::new(
        |k: u32| exists|r: int| 0 <= r < lines.len() && #[trigger] line_ids(lines[r]).contains(k),
    )
}

/// The entries of `urls` whose id is in `keep`.
pub open spec fn restricted(urls: Map<u32, Seq<char>>, keep: Set<u32>) -> Map<u32, Seq<char>> {
    Map::new(|k: u32| urls.dom().contains(k) && keep.contains(k), |k: u32| urls[k])
}

impl ScreenState {
    /// The hyperlinks that a cell on the shown screen or in the scrollback
    /// belongs to.
    pub open spec fn live_ids(self) -> Set<u32> {
        lines_ids(self.active()).union(lines_ids(self.scrollback))
    }
}

impl GridState {
    /// Hyperlinks that no cell belongs to forgotten.
    pub open spec fn links_pruned(self) -> GridState {
        GridState {
            links: LinksState {
                urls: restricted(self.links.urls, self.screen.live_ids()),
                ..self.links
            },
            ..self
        }
    }
}

/// Copy the targets of the links in `line`.
fn keep_line(line: &Vec<Cell>, all: &HashMap<u32, String>, kept: &mut HashMap<u32, String>, keep: Ghost<
    Set<u32>,
>)
    requires
        urls_view(old(kept)@) == restricted(urls_view(all@), keep@),
    ensures
        urls_view(final(kept)@) == restricted(
            urls_view(all@),
            keep@.union(line_ids(line_view(line@))),
        ),
{
    let ghost lv = line_view(line@);
    let ghost ids0 = Set::new(
        |k: u32| k != 0 && exists|c: int| 0 <= c < 0 && #[trigger] lv[c].hyperlink_id == k,
    );
    let mut c: usize = 0;
    proof {
        assert(keep@.union(ids0) =~= keep@);
    }
    while c < line.len()
        invariant
            c <= line@.len(),
            lv == line_view(line@),
            urls_view(kept@) == restricted(
                urls_view(all@),
                keep@.union(
                    Set::new(
                        |k: u32|
                            k != 0 && exists|j: int|
                                0 <= j < c && #[trigger] lv[j].hyperlink_id == k,
                    ),
                ),
            ),
        decreases line@.len() - c,
    {
        let id: u32 = line[c].hyperlink_id;
        let ghost before = Set::new(
            |k: u32| k != 0 && exists|j: int| 0 <= j < c && #[trigger] lv[j].hyperlink_id == k,
        );
        let ghost after = Set::new(
            |k: u32| k != 0 && exists|j: int| 0 <= j < c + 1 && #[trigger] lv[j].hyperlink_id == k,
        );
        proof {
            assert(lv[c as int].hyperlink_id == id);
            assert forall|k: u32| #[trigger] after.contains(k) == (before.contains(k) || (k == id
                && id != 0)) by {
                if after.contains(k) {
                    let j = choose|j: int| 0 <= j < c + 1 && #[trigger] lv[j].hyperlink_id == k;
                    if j < c {
                        assert(before.contains(k));
                    }
                }
                if before.contains(k) {
                    let j = choose|j: int| 0 <= j < c && #[trigger] lv[j].hyperlink_id == k;
                    assert(lv[j].hyperlink_id == k);
                }
            }
        }
        let ghost k0 = kept@;
        if id != 0 {
            if let Some(url) = all.get(&id) {
                kept.insert(id, url.clone());
            }
        }
        proof {
            let goal = restricted(urls_view(all@), keep@.union(after));
            let prev = restricted(urls_view(all@), keep@.union(before));
            assert(urls_view(k0) == prev);
            assert forall|k: u32| #[trigger]
                urls_view(kept@).dom().contains(k) == goal.dom().contains(k) by {
                assert(urls_view(k0).dom().contains(k) == k0.dom().contains(k));
                assert(prev.dom().contains(k) == (urls_view(all@).dom().contains(k)
                    && keep@.union(before).contains(k)));
                assert(after.contains(k) == (before.contains(k) || (k == id && id != 0)));
            }
            assert forall|k: u32| #[trigger] goal.dom().contains(k) implies urls_view(kept@)[k]
                == goal[k] by {
                assert(urls_view(kept@).dom().contains(k));
                assert(after.contains(k) == (before.contains(k) || (k == id && id != 0)));
                if k0.dom().contains(k) {
                    assert(urls_view(k0)[k] == prev[k]);
                }
            }
            assert(urls_view(kept@) =~= goal);
        }
        c += 1;
    }
    proof {
        let seen = Set::new(
            |k: u32|
                k != 0 && exists|j: int| 0 <= j < line@.len() && #[trigger] lv[j].hyperlink_id == k,
        );
        assert(seen =~= line_ids(lv));
    }
}

proof fn ids_step(lines: Seq<Seq<CellState>>, r: int)
    requires
        0 <= r < lines.len(),
    ensures
        lines_ids(lines.take(r + 1)) == lines_ids(lines.take(r)).union(line_ids(lines[r])),
{
    let a = lines_ids(lines.take(r + 1));
    let b = lines_ids(lines.take(r)).union(line_ids(lines[r]));
    assert forall|k: u32| a.contains(k) == b.contains(k) by {
        if a.contains(k) {
            let i = choose|i: int|
                0 <= i < lines.take(r + 1).len() && #[trigger] line_ids(
                    lines.take(r + 1)[i],
                ).contains(k);
            if i < r {
                assert(line_ids(lines.take(r)[i]).contains(k));
            }
        }
        if b.contains(k) {
            if line_ids(lines[r]).contains(k) {
                assert(line_ids(lines.take(r + 1)[r]).contains(k));
            } else {
                let i = choose|i: int|
                    0 <= i < lines.take(r).len() && #[trigger] line_ids(lines.take(r)[i]).contains(
                        k,
                    );
                assert(line_ids(lines.take(r + 1)[i]).contains(k));
            }
        }
    }
    assert(a =~= b);
}

impl Screen {
    /// The targets among `all` that some cell belongs to.
    fn live_links(&self, all: &HashMap<u32, String>) -> (kept: HashMap<u32, String>)
        requires
            self.wf(),
        ensures
            urls_view(kept@) == restricted(urls_view(all@), self@.live_ids()),
    {
        let mut kept: HashMap<u32, String> = HashMap::new();
        let ghost act = self@.active();
        let ghost sb = self@.scrollback;
        let mut r: usize = 0;
        proof {
            assert(lines_ids(act.take(0)) =~= Set::empty());
            assert(urls_view(kept@) =~= restricted(urls_view(all@), Set::empty()));
        }
        while r < self.rows
            invariant
                self.wf(),
                r <= self.rows,
                act == self@.active(),
                urls_view(kept@) == restricted(urls_view(all@), lines_ids(act.take(r as int))),
            decreases self.rows - r,
        {
            proof {
                ids_step(act, r as int);
            }
            keep_line(self.line(r), all, &mut kept, Ghost(lines_ids(act.take(r as int))));
            r += 1;
        }
        proof {
            assert(act.take(act.len() as int) =~= act);
            assert(lines_ids(sb.take(0)) =~= Set::empty());
            assert(lines_ids(act).union(lines_ids(sb.take(0))) =~= lines_ids(act));
        }
        let mut i: usize = 0;
        while i < self.scrollback.len()
            invariant
                self.wf(),
                i <= self.scrollback@.len(),
                sb == self@.scrollback,
                urls_view(kept@) == restricted(
                    urls_view(all@),
                    lines_ids(act).union(lines_ids(sb.take(i as int))),
                ),
            decreases self.scrollback@.len() - i,
        {
            proof {
                ids_step(sb, i as int);
                assert(lines_ids(act).union(lines_ids(sb.take(i + 1))) =~= lines_ids(act).union(
                    lines_ids(sb.take(i as int)),
                ).union(line_ids(sb[i as int])));
            }
            keep_line(
                &self.scrollback[i],
                all,
                &mut kept,
                Ghost(lines_ids(act).union(lines_ids(sb.take(i as int)))),
            );
            i += 1;
        }
        proof {
            assert(sb.take(sb.len() as int) =~= sb);
        }
        kept
    }
}

impl Grid {
    /// Forget the hyperlinks that no cell on the shown screen or in the
    /// scrollback belongs to.
    pub fn prune_hyperlinks(&mut self)
        requires
            old(self).wf(),
        ensures
            final(self).wf(),
            final(self)@ == old(self)@.links_pruned(),
    {
        let kept = self.screen.live_links(&self.links.hyperlinks);
        self.links.hyperlinks = kept;
    }

    /// The target of the hyperlink that `cell` belongs to.
    pub fn get_cell_hyperlink(&self, cell: &Cell) -> (r: Option<&str>)
        ensures
            r is Some <==> cell.hyperlink_id != 0 && self@.links.urls.dom().contains(
                cell.hyperlink_id,
            ),
            r matches Some(u) ==> u@ == self@.links.urls[cell.hyperlink_id],
    {
        let id: u32 = cell.hyperlink_id;
        if id == 0 {
            None
        } else {
            match self.links.hyperlinks.get(&id) {
                Some(s) => Some(s.as_str()),
                None => None,
            }
        }
    }

    /// The target of the hyperlink at a position of the shown screen; `None`
    /// off the screen.
    pub fn get_hyperlink_at(&self, col: usize, row: usize) -> (r: Option<&str>)
        requires
            self.wf(),
        ensures
            r is Some <==> col < self.screen.cols && row < self.screen.rows && {
                let id = self@.screen.active()[row as int][col as int].hyperlink_id;
                id != 0 && self@.links.urls.dom().contains(id)
            },
            r matches Some(u) ==> u@
                == self@.links.urls[self@.screen.active()[row as int][col as int].hyperlink_id],
    {
        if col >= self.screen.cols || row >= self.screen.rows {
            return None;
        }
        let line = self.screen.line(row);
        proof {
            assert(line_view(line@)[col as int] == line@[col as int]@);
        }
        self.get_cell_hyperlink(&line[col])
    }
}

/// Forgetting unused hyperlinks keeps the target of every link on the shown
/// screen.
pub proof fn pruning_keeps_shown_links(s: GridState, r: int, c: int)
    requires
        0 <= r < s.screen.active().len(),
        0 <= c < s.screen.active()[r].len(),
        s.screen.active()[r][c].hyperlink_id != 0,
        s.links.urls.dom().contains(s.screen.active()[r][c].hyperlink_id),
    ensures
        s.links_pruned().links.urls.dom().contains(s.screen.active()[r][c].hyperlink_id),
        s.links_pruned().links.urls[s.screen.active()[r][c].hyperlink_id]
            == s.links.urls[s.screen.active()[r][c].hyperlink_id],
{
    let id = s.screen.active()[r][c].hyperlink_id;
    assert(line_ids(s.screen.active()[r]).contains(id));
}

/// Forgetting unused hyperlinks keeps the target of every link in the
/// scrollback.
pub proof fn pruning_keeps_past_links(s: GridState, r: int, c: int)
    requires
        0 <= r < s.screen.scrollback.len(),
        0 <= c < s.screen.scrollback[r].len(),
        s.screen.scrollback[r][c].hyperlink_id != 0,
        s.links.urls.dom().contains(s.screen.scrollback[r][c].hyperlink_id),
    ensures
        s.links_pruned().links.urls.dom().contains(s.screen.scrollback[r][c].hyperlink_id),
        s.links_pruned().links.urls[s.screen.scrollback[r][c].hyperlink_id]
            == s.links.urls[s.screen.scrollback[r][c].hyperlink_id],
{
    let id = s.screen.scrollback[r][c].hyperlink_id;
    assert(line_ids(s.screen.scrollback[r]).contains(id));
}

} // verus!
