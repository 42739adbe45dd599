//! The tabs of a window.
use vstd::prelude::*;

use crate::engine::Engine;
use crate::grid::state::GridState;
use crate::grid::WinSize;
use crate::search::{next_index, prev_index};

verus! {

/// One tab.
pub struct Tab {
    pub engine: Engine,
    pub title: String,
}

/// The tabs of a window, one of which is active.
pub struct TabManager {
    pub tabs: Vec<Tab>,
    pub active: usize,
    /// Size of every tab in cells.
    pub size: WinSize,
    /// Lines of scrollback of a new tab.
    pub scrollback: usize,
    /// Cell size in pixels.
    pub cell_size: (u32, u32),
}

impl Tab {
    /// A tab as it is opened.
    pub open spec fn is_fresh(self, size: WinSize, scrollback: usize, cell_size: (u32, u32)) -> bool {
        let g = GridState::initial(size.cols as int, size.rows as int, scrollback as int);
        &&& self.engine.wf()
        &&& self.title@ == "Terminal"@
        &&& self.engine.grid@ == g.with_graphics(
            (crate::grid::state::GraphicsState {
                cell_w: if cell_size.0 == 0 {
                    1
                } else {
                    cell_size.0
                },
                cell_h: if cell_size.1 == 0 {
                    1
                } else {
                    cell_size.1
                },
                ..g.graphics
            }),
        )
    }

    fn open(size: WinSize, scrollback: usize, cell_size: (u32, u32)) -> (r: Tab)
        requires
            size.cols >= 1,
            size.rows >= 1,
        ensures
            r.is_fresh(size, scrollback, cell_size),
    {
        Tab { engine: Engine::new(size, scrollback, cell_size), title: "Terminal".to_owned() }
    }
}

impl TabManager {
    /// There is a tab, the active one is among them, and all are well formed.
    pub open spec fn wf(&self) -> bool {
        &&& self.active < self.tabs@.len()
        &&& self.size.cols >= 1
        &&& self.size.rows >= 1
        &&& forall|i: int| 0 <= i < self.tabs@.len() ==> (#[trigger] self.tabs@[i]).engine.wf()
    }

    /// A window with one tab.
    pub fn new(size: WinSize, scrollback: usize, cell_size: (u32, u32)) -> (r: Self)
        requires
            size.cols >= 1,
            size.rows >= 1,
        ensures
            r.wf(),
            r.tabs@.len() == 1,
            r.tabs@[0].is_fresh(size, scrollback, cell_size),
            r.active == 0,
            r.size == size,
            r.scrollback == scrollback,
            r.cell_size == cell_size,
    {
        let mut tabs: Vec<Tab> = Vec::new();
        tabs.push(Tab::open(size, scrollback, cell_size));
        TabManager { tabs, active: 0, size, scrollback, cell_size }
    }

    /// Number of tabs.
    pub fn len(&self) -> (r: usize)
        ensures
            r == self.tabs@.len(),
    {
        self.tabs.len()
    }

    /// Index of the active tab.
    pub fn active_index(&self) -> (r: usize)
        ensures
            r == self.active,
    {
        self.active
    }

    /// The titles of the tabs.
    pub fn titles(&self) -> (r: Vec<String>)
        ensures
            r@.len() == self.tabs@.len(),
            forall|i: int| 0 <= i < r@.len() ==> (#[trigger] r@[i])@ == self.tabs@[i].title@,
    {
        let mut v: Vec<String> = Vec::new();
        let n: usize = self.tabs.len();
        let mut i: usize = 0;
        while i < n
            invariant
                i <= n,
                n == self.tabs@.len(),
                v@.len() == i,
                forall|j: int| 0 <= j < i ==> (#[trigger] v@[j])@ == self.tabs@[j].title@,
            decreases n - i,
        {
            v.push(self.tabs[i].title.clone());
            i += 1;
        }
        v
    }

    /// Open a tab behind the others and make it active.
    pub fn new_tab(&mut self) -> (r: usize)
        requires
            old(self).wf(),
        ensures
            final(self).wf(),
            r == old(self).tabs@.len(),
            final(self).active == r,
            final(self).tabs@.len() == r + 1,
            final(self).tabs@.take(r as int) == old(self).tabs@,
            final(self).tabs@[r as int].is_fresh(
                old(self).size,
                old(self).scrollback,
                old(self).cell_size,
            ),
            final(self).size == old(self).size,
            final(self).scrollback == old(self).scrollback,
            final(self).cell_size == old(self).cell_size,
    {
        let r: usize = self.tabs.len();
        self.tabs.push(Tab::open(self.size, self.scrollback, self.cell_size));
        self.active = r;
        proof {
            assert(self.tabs@.take(r as int) =~= old(self).tabs@);
            assert forall|i: int| 0 <= i < self.tabs@.len() implies (
            #[trigger] self.tabs@[i]).engine.wf() by {
                if i < r {
                    assert(self.tabs@[i] == old(self).tabs@[i]);
                }
            }
        }
        r
    }

    /// Close a tab. The tab that was active stays so; where it was closed, the
    /// one in its place is, or the last. Returns the index of the active tab,
    /// or `None`, with nothing closed, where it was the only one or there is no
    /// such tab.
    pub fn close_tab(&mut self, index: usize) -> (r: Option<usize>)
        requires
            old(self).wf(),
        ensures
            final(self).wf(),
            r is Some <==> old(self).tabs@.len() > 1 && index < old(self).tabs@.len(),
            r is None ==> *final(self) == *old(self),
            r matches Some(i) ==> {
                let n = old(self).tabs@.len() - 1;
                &&& final(self).tabs@ == old(self).tabs@.remove(index as int)
                &&& final(self).active == i
                &&& i == if old(self).active > index || old(self).active == n {
                    (old(self).active - 1) as usize
                } else {
                    old(self).active
                }
                &&& final(self).size == old(self).size
                &&& final(self).scrollback == old(self).scrollback
                &&& final(self).cell_size == old(self).cell_size
            },
            r is Some && index != old(self).active ==> final(self).tabs@[final(self).active as int]
                == old(self).tabs@[old(self).active as int],
            r is Some && index == old(self).active && index + 1 < old(self).tabs@.len()
                ==> final(self).tabs@[final(self).active as int] == old(self).tabs@[index + 1],
            r is Some && index == old(self).active && index + 1 == old(self).tabs@.len()
                ==> final(self).tabs@[final(self).active as int] == old(self).tabs@[index - 1],
    {
        let n: usize = self.tabs.len();
        if n <= 1 || index >= n {
            return None;
        }
        let gone = self.tabs.remove(index);
        if self.active > index || self.active == n - 1 {
            self.active = self.active - 1;
        }
        proof {
            assert forall|i: int| 0 <= i < self.tabs@.len() implies (
            #[trigger] self.tabs@[i]).engine.wf() by {
                if i < index {
                    assert(self.tabs@[i] == old(self).tabs@[i]);
                } else {
                    assert(self.tabs@[i] == old(self).tabs@[i + 1]);
                }
            }
        }
        Some(self.active)
    }

    /// Close the active tab, as `close_tab` does.
    pub fn close_current(&mut self) -> (r: Option<usize>)
        requires
            old(self).wf(),
        ensures
            final(self).wf(),
            r is Some <==> old(self).tabs@.len() > 1,
            r is None ==> *final(self) == *old(self),
            r matches Some(i) ==> {
                &&& final(self).tabs@ == old(self).tabs@.remove(old(self).active as int)
                &&& final(self).active == i
                &&& i == if old(self).active == old(self).tabs@.len() - 1 {
                    (old(self).active - 1) as usize
                } else {
                    old(self).active
                }
            },
    {
        self.close_tab(self.active)
    }

    /// Make the next tab active, from the last to the first.
    pub fn next(&mut self)
        requires
            old(self).wf(),
        ensures
            final(self).wf(),
            final(self).active == next_index(
                old(self).active as int,
                old(self).tabs@.len() as int,
            ),
            *final(self) == (TabManager { active: final(self).active, ..*old(self) }),
    {
        proof {
            let n = self.tabs@.len() as int;
            let i = self.active as int;
            if i + 1 < n {
                vstd::arithmetic::div_mod::lemma_small_mod((i + 1) as nat, n as nat);
            } else {
                vstd::arithmetic::div_mod::lemma_mod_self_0(n);
            }
        }
        let n: usize = self.tabs.len();
        if self.active < n - 1 {
            self.active = self.active + 1;
        } else {
            self.active = 0;
        }
    }

    /// Make the previous tab active, from the first to the last.
    pub fn prev(&mut self)
        requires
            old(self).wf(),
        ensures
            final(self).wf(),
            final(self).active == prev_index(
                old(self).active as int,
                old(self).tabs@.len() as int,
            ),
            *final(self) == (TabManager { active: final(self).active, ..*old(self) }),
    {
        if self.active == 0 {
            self.active = self.tabs.len() - 1;
        } else {
            self.active = self.active - 1;
        }
    }

    /// Make a tab active, where there is one with this index.
    pub fn switch_to(&mut self, index: usize)
        requires
            old(self).wf(),
        ensures
            final(self).wf(),
            *final(self) == (TabManager {
                active: if index < old(self).tabs@.len() {
                    index
                } else {
                    old(self).active
                },
                ..*old(self)
            }),
    {
        if index < self.tabs.len() {
            self.active = index;
        }
    }
}

} // verus!
