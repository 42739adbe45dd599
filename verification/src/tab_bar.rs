//! The tab bar: where its parts stand, and what the pointer is over.
use vstd::prelude::*;

verus! {

/// Width of a tab in pixels.
pub const TAB_WIDTH: i64 = 150;

/// Side of a button that a pointer can hit, in pixels.
pub const HIT_SIZE: u32 = 24;

/// What the pointer can hit in the bar.
#[derive(Debug, Clone, Copy, PartialEq, Eq, Structural)]
pub enum TabBarTarget {
    Tab(usize),
    Close(usize),
    NewTab,
    Search,
}

/// A rectangle in pixels.
#[derive(Debug, Clone, Copy, PartialEq, Eq, Structural)]
pub struct Area {
    pub left: i128,
    pub top: i128,
    pub width: i128,
    pub height: i128,
}

impl Area {
    /// The pixel is in the rectangle.
    pub open spec fn holds(self, x: int, y: int) -> bool {
        self.left <= x < self.left + self.width && self.top <= y < self.top + self.height
    }

    /// A button of the bar.
    pub open spec fn button(left: int) -> Area {
        Area { left: left as i128, top: 0, width: HIT_SIZE as i128, height: HIT_SIZE as i128 }
    }
}

/// The tab bar.
pub struct TabBar {
    pub titles: Vec<String>,
    pub active: usize,
    pub hovered: Option<TabBarTarget>,
    pub pressed: Option<TabBarTarget>,
}

/// The close button of a tab: at the right end of it.
pub open spec fn close_area(index: int) -> Area {
    Area::button((index + 1) * TAB_WIDTH - HIT_SIZE)
}

/// The button that opens a tab: the last but one of the bar.
pub open spec fn new_tab_area(screen_width: int) -> Area {
    Area::button(screen_width - 2 * HIT_SIZE)
}

/// The button that opens the search: the last of the bar.
pub open spec fn search_area(screen_width: int) -> Area {
    Area::button(screen_width - HIT_SIZE)
}

/// What stands at a pixel of a bar with `tabs` tabs: buttons before tabs.
pub open spec fn target_of(tabs: int, x: int, y: int, screen_width: int) -> Option<TabBarTarget> {
    let index = x / (TAB_WIDTH as int);
    if 0 <= index < tabs && close_area(index).holds(x, y) {
        Some(TabBarTarget::Close(index as usize))
    } else if new_tab_area(screen_width).holds(x, y) {
        Some(TabBarTarget::NewTab)
    } else if search_area(screen_width).holds(x, y) {
        Some(TabBarTarget::Search)
    } else if 0 <= index < tabs {
        Some(TabBarTarget::Tab(index as usize))
    } else {
        None
    }
}

fn holds(a: &Area, x: i64, y: i64) -> (r: bool)
    requires
        -0x1_0000_0000 <= a.left <= 0x100_0000_0000_0000_0000,
        0 <= a.top <= 0x1_0000_0000,
        0 <= a.width <= 0x1_0000_0000,
        0 <= a.height <= 0x1_0000_0000,
    ensures
        r == a.holds(x as int, y as int),
{
    let (x, y) = (x as i128, y as i128);
    a.left <= x && x < a.left + a.width && a.top <= y && y < a.top + a.height
}

impl TabBar {
    pub fn new() -> (r: Self)
        ensures
            r.titles@.len() == 0,
            r.active == 0,
            r.hovered is None,
            r.pressed is None,
    {
        TabBar { titles: Vec::new(), active: 0, hovered: None, pressed: None }
    }

    /// Show these tabs.
    pub fn update_tabs(&mut self, titles: Vec<String>, active: usize)
        ensures
            *final(self) == (TabBar { titles, active, ..*old(self) }),
    {
        self.titles = titles;
        self.active = active;
    }

    /// Where the close button of a tab stands.
    pub fn close_button_rect(&self, index: usize) -> (r: Area)
        ensures
            r == close_area(index as int),
    {
        let left: i128 = (index as i128 + 1) * (TAB_WIDTH as i128) - HIT_SIZE as i128;
        Area { left, top: 0, width: HIT_SIZE as i128, height: HIT_SIZE as i128 }
    }

    /// Where the button stands that opens a tab.
    pub fn new_tab_button_rect(&self, screen_width: u32) -> (r: Area)
        ensures
            r == new_tab_area(screen_width as int),
    {
        let left: i128 = screen_width as i128 - 2 * (HIT_SIZE as i128);
        Area { left, top: 0, width: HIT_SIZE as i128, height: HIT_SIZE as i128 }
    }

    /// Where the button stands that opens the search.
    pub fn search_button_rect(&self, screen_width: u32) -> (r: Area)
        ensures
            r == search_area(screen_width as int),
    {
        let left: i128 = screen_width as i128 - HIT_SIZE as i128;
        Area { left, top: 0, width: HIT_SIZE as i128, height: HIT_SIZE as i128 }
    }

    /// What stands at a pixel of the bar.
    pub fn target_at_position(&self, x: i64, y: i64, screen_width: u32) -> (r: Option<TabBarTarget>)
        ensures
            r == target_of(self.titles@.len() as int, x as int, y as int, screen_width as int),
    {
        let tabs: usize = self.titles.len();
        let at: Option<usize> = if x >= 0 && (x / TAB_WIDTH) as u64 <= usize::MAX as u64 && ((x
            / TAB_WIDTH) as usize) < tabs {
            Some((x / TAB_WIDTH) as usize)
        } else {
            None
        };
        if let Some(index) = at {
            if holds(&self.close_button_rect(index), x, y) {
                return Some(TabBarTarget::Close(index));
            }
        }
        if holds(&self.new_tab_button_rect(screen_width), x, y) {
            Some(TabBarTarget::NewTab)
        } else if holds(&self.search_button_rect(screen_width), x, y) {
            Some(TabBarTarget::Search)
        } else {
            match at {
                Some(index) => Some(TabBarTarget::Tab(index)),
                None => None,
            }
        }
    }

    /// The pointer moved to a pixel of a window with a bar `height` pixels
    /// high.
    pub fn update_hover(&mut self, x: i64, y: i64, screen_width: u32, height: u32)
        ensures
            *final(self) == (TabBar {
                hovered: if y < height {
                    target_of(old(self).titles@.len() as int, x as int, y as int, screen_width as int)
                } else {
                    None
                },
                ..*old(self)
            }),
    {
        self.hovered = if y < height as i64 {
            self.target_at_position(x, y, screen_width)
        } else {
            None
        };
    }

    /// The main button went down or up over the bar. Returns what a press hits;
    /// `None` where it does not belong to the bar.
    pub fn update_pressed(
        &mut self,
        pressed: bool,
        x: i64,
        y: i64,
        screen_width: u32,
        height: u32,
    ) -> (r: Option<Option<TabBarTarget>>)
        ensures
            r == if pressed && y < height {
                Some(
                    target_of(
                        old(self).titles@.len() as int,
                        x as int,
                        y as int,
                        screen_width as int,
                    ),
                )
            } else {
                None
            },
            *final(self) == (TabBar {
                pressed: match r {
                    Some(target) => target,
                    None => None,
                },
                ..*old(self)
            }),
    {
        if pressed && y < height as i64 {
            let target = self.target_at_position(x, y, screen_width);
            self.pressed = target;
            Some(target)
        } else {
            self.pressed = None;
            None
        }
    }

    /// The pointer is over this part of the bar.
    pub fn is_hovered(&self, target: TabBarTarget) -> (r: bool)
        ensures
            r == (self.hovered == Some(target)),
    {
        match self.hovered {
            Some(t) => t == target,
            None => false,
        }
    }

    /// The button is held on this part of the bar.
    pub fn is_pressed(&self, target: TabBarTarget) -> (r: bool)
        ensures
            r == (self.pressed == Some(target)),
    {
        match self.pressed {
            Some(t) => t == target,
            None => false,
        }
    }
}

/// The close button of a tab is hit at every pixel that it is drawn on.
pub proof fn close_buttons_are_hit(tabs: int, index: int, x: int, y: int, screen_width: int)
    requires
        0 <= index < tabs <= usize::MAX,
        close_area(index).holds(x, y),
    ensures
        target_of(tabs, x, y, screen_width) == Some(TabBarTarget::Close(index as usize)),
{
    assert(x / 150 == index);
}

/// Every pixel of a tab hits that tab or a button drawn over it.
pub proof fn tabs_are_hit(tabs: int, index: int, x: int, y: int, screen_width: int)
    requires
        0 <= index < tabs <= usize::MAX,
        index * TAB_WIDTH <= x < (index + 1) * TAB_WIDTH,
        !close_area(index).holds(x, y),
        !new_tab_area(screen_width).holds(x, y),
        !search_area(screen_width).holds(x, y),
    ensures
        target_of(tabs, x, y, screen_width) == Some(TabBarTarget::Tab(index as usize)),
{
    assert(x / 150 == index);
}

/// The two buttons at the right end of the bar are hit at every pixel of theirs
/// that no tab covers: the last opens the search, the one before it a tab.
pub proof fn buttons_are_hit(tabs: int, x: int, y: int, screen_width: int)
    requires
        0 <= tabs <= usize::MAX,
        tabs * TAB_WIDTH <= x,
        2 * HIT_SIZE <= screen_width <= u32::MAX,
        0 <= y < HIT_SIZE,
        screen_width - 2 * HIT_SIZE <= x < screen_width,
    ensures
        target_of(tabs, x, y, screen_width) == Some(
            if x < screen_width - HIT_SIZE {
                TabBarTarget::NewTab
            } else {
                TabBarTarget::Search
            },
        ),
{
    assert(x / 150 >= tabs);
}

/// Beyond the tabs and left of the buttons the bar has nothing to press.
pub proof fn the_rest_is_bare(tabs: int, x: int, y: int, screen_width: int)
    requires
        0 <= tabs <= usize::MAX,
        tabs * TAB_WIDTH <= x,
        2 * HIT_SIZE <= screen_width <= u32::MAX,
        x < screen_width - 2 * HIT_SIZE,
    ensures
        target_of(tabs, x, y, screen_width) is None,
{
    assert(x / 150 >= tabs);
}

} // verus!
