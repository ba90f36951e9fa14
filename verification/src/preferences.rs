//! The IDE configuration page: a tabbed workspace (Settings · Keymap · Color
//! Scheme · Run Configs · Help · Dashboard) with the active page below a tab
//! strip. Which tab is active, how the tabs cycle, where each tab's label
//! falls on the strip and which label a click lands on are decided here; the
//! pages themselves are drawn and driven by the caller.

use vstd::prelude::*;

use crate::keys::Key;

verus! {

/// How many tabs the page has.
pub const TAB_COUNT: usize = 6;

/// The tabs' names, in order.
pub open spec fn tab_label(i: int) -> Seq<char> {
    if i == 0 {
        "Settings"@
    } else if i == 1 {
        "Keymap"@
    } else if i == 2 {
        "Color Scheme"@
    } else if i == 3 {
        "Run Configs"@
    } else if i == 4 {
        "Help"@
    } else {
        "Dashboard"@
    }
}

/// The name of tab `i`.
pub fn tab_name(i: usize) -> (r: &'static str)
    requires
        i < TAB_COUNT,
    ensures
        r@ == tab_label(i as int),
{
    if i == 0 {
        "Settings"
    } else if i == 1 {
        "Keymap"
    } else if i == 2 {
        "Color Scheme"
    } else if i == 3 {
        "Run Configs"
    } else if i == 4 {
        "Help"
    } else {
        "Dashboard"
    }
}

/// The width of tab `i`'s label on the strip: its name with a space either
/// side.
pub open spec fn tab_width(i: int) -> int {
    if i == 0 {
        10
    } else if i == 1 {
        8
    } else if i == 2 {
        14
    } else if i == 3 {
        13
    } else if i == 4 {
        6
    } else {
        11
    }
}

/// What the page starts on.
#[derive(Clone, PartialEq, Eq, Debug)]
pub enum Opening {
    /// Every page as it comes.
    Plain,
    /// The Help page filtered to this text.
    HelpFiltered(String),
    /// The Settings page filtered to this text.
    SettingsFiltered(String),
    /// The Settings page showing only settings changed from their default.
    SettingsModified,
}

/// The configuration page.
pub struct PreferencesPanel {
    pub tab: usize,
    pub opening: Opening,
    /// Where each tab's label was drawn: `(row, first column, end column, tab)`.
    pub tab_hits: Vec<(u16, u16, u16, usize)>,
}

/// The tab strip's labels from tab `i` on, the next starting at column `x`,
/// the strip ending before `right`: a label that would reach the end stops
/// the strip; after each a separator column.
pub open spec fn strip_from(i: int, x: int, right: int, row: u16) -> Seq<(u16, u16, u16, usize)>
    decreases TAB_COUNT - i,
{
    if i < 0 || i >= TAB_COUNT as int || x + tab_width(i) >= right {
        Seq::empty()
    } else {
        seq![(row, x as u16, (x + tab_width(i)) as u16, i as usize)] + strip_from(i + 1, x + tab_width(i) + 1, right, row)
    }
}

impl PreferencesPanel {
    /// The page open on `tab`, kept to the last tab.
    pub fn new(tab: usize) -> (p: Self)
        ensures
            p.tab == (if tab < TAB_COUNT { tab } else { (TAB_COUNT - 1) as usize }),
            p.opening == Opening::Plain,
            p.tab_hits@.len() == 0,
    {
        PreferencesPanel {
            tab: if tab < TAB_COUNT { tab } else { TAB_COUNT - 1 },
            opening: Opening::Plain,
            tab_hits: Vec::new(),
        }
    }

    /// Open directly on the Help tab, filtered to `filter`.
    pub fn new_help(filter: String) -> (p: Self)
        ensures
            p.tab == 4,
            p.opening matches Opening::HelpFiltered(f) && f@ == filter@,
    {
        let mut p = Self::new(4);
        p.opening = Opening::HelpFiltered(filter);
        p
    }

    /// Open directly on the Settings tab, filtered to `filter`.
    pub fn new_settings_filtered(filter: String) -> (p: Self)
        ensures
            p.tab == 0,
            p.opening matches Opening::SettingsFiltered(f) && f@ == filter@,
    {
        let mut p = Self::new(0);
        p.opening = Opening::SettingsFiltered(filter);
        p
    }

    /// Open directly on the Settings tab, showing only settings changed from
    /// their default.
    pub fn new_settings_modified() -> (p: Self)
        ensures
            p.tab == 0,
            p.opening == Opening::SettingsModified,
    {
        let mut p = Self::new(0);
        p.opening = Opening::SettingsModified;
        p
    }

    /// Step to the next (or previous) tab, wrapping round.
    pub fn cycle(&mut self, forward: bool)
        requires
            old(self).tab < TAB_COUNT,
        ensures
            final(self).tab == (if forward {
                (old(self).tab + 1) % (TAB_COUNT as int)
            } else {
                (old(self).tab + TAB_COUNT - 1) % (TAB_COUNT as int)
            }),
            final(self).tab < TAB_COUNT,
            final(self).opening == old(self).opening && final(self).tab_hits == old(self).tab_hits,
    {
        self.tab = if forward { (self.tab + 1) % TAB_COUNT } else { (self.tab + TAB_COUNT - 1) % TAB_COUNT };
    }

    /// Ctrl-Tab and Ctrl-Shift-Tab cycle the tabs from any page; whether the
    /// key was taken (else it goes to the active page).
    pub fn handle_key(&mut self, key: Key) -> (taken: bool)
        requires
            old(self).tab < TAB_COUNT,
        ensures
            taken == (key matches Key::CtrlTab { .. }),
            key matches Key::CtrlTab { back } ==> final(self).tab == (if !back {
                (old(self).tab + 1) % (TAB_COUNT as int)
            } else {
                (old(self).tab + TAB_COUNT - 1) % (TAB_COUNT as int)
            }),
            !(key matches Key::CtrlTab { .. }) ==> final(self).tab == old(self).tab,
            final(self).tab < TAB_COUNT,
            final(self).opening == old(self).opening && final(self).tab_hits == old(self).tab_hits,
    {
        match key {
            Key::CtrlTab { back } => {
                self.cycle(!back);
                true
            },
            _ => false,
        }
    }

    /// A left click at `(row, column)`: the tab whose label it lands on
    /// becomes active. Whether it landed on one.
    pub fn click(&mut self, row: u16, column: u16) -> (hit: bool)
        ensures
            hit == exists|k: int| 0 <= k < old(self).tab_hits@.len() && #[trigger] lands(old(self).tab_hits@[k], row, column),
            hit ==> lands(old(self).tab_hits@[first_hit(old(self).tab_hits@, row, column, 0)], row, column)
                && final(self).tab == old(self).tab_hits@[first_hit(old(self).tab_hits@, row, column, 0)].3,
            !hit ==> final(self).tab == old(self).tab,
            final(self).tab_hits == old(self).tab_hits,
    {
        let hits = &self.tab_hits;
        let mut k: usize = 0;
        let mut found: Option<usize> = None;
        while k < hits.len()
            invariant_except_break
                found is None,
            invariant
                k <= hits@.len(),
                first_hit(hits@, row, column, k as int) == first_hit(hits@, row, column, 0),
                forall|j: int| 0 <= j < k ==> !lands(#[trigger] hits@[j], row, column),
            ensures
                match found {
                    Some(t) => first_hit(hits@, row, column, 0) < hits@.len()
                        && lands(hits@[first_hit(hits@, row, column, 0)], row, column)
                        && t == hits@[first_hit(hits@, row, column, 0)].3,
                    None => forall|j: int| 0 <= j < hits@.len() ==> !lands(#[trigger] hits@[j], row, column),
                },
            decreases hits@.len() - k,
        {
            let (r, x0, x1, t) = hits[k];
            if row == r && column >= x0 && column < x1 {
                found = Some(t);
                break;
            }
            k = k + 1;
        }
        let ghost at = first_hit(self.tab_hits@, row, column, 0);
        proof {
            first_hit_bounds(self.tab_hits@, row, column, 0);
        }
        match found {
            Some(t) => {
                assert(lands(self.tab_hits@[at], row, column));
                self.tab = t;
                true
            },
            None => false,
        }
    }

    /// Lay the tab strip out on row `y` of an area from column `x` that is
    /// `width` columns wide, remembering where each label went.
    pub fn layout_tabs(&mut self, x: u16, y: u16, width: u16)
        requires
            x + width <= u16::MAX,
        ensures
            final(self).tab_hits@ == strip_from(0, x + 1, x + width, y),
            final(self).tab == old(self).tab,
    {
        let right = x + width;
        let mut hits: Vec<(u16, u16, u16, usize)> = Vec::new();
        let mut cx: u32 = x as u32 + 1;
        let mut i: usize = 0;
        while i < TAB_COUNT
            invariant
                i <= TAB_COUNT,
                cx <= right + 1,
                right == x + width,
                x + width <= u16::MAX,
                hits@ + strip_from(i as int, cx as int, right as int, y) == strip_from(0, x + 1, x + width, y),
            ensures
                hits@ == strip_from(0, x + 1, x + width, y),
            decreases TAB_COUNT - i,
        {
            let w: u32 = if i == 0 { 10 } else if i == 1 { 8 } else if i == 2 { 14 } else if i == 3 { 13 } else if i == 4 { 6 } else { 11 };
            if cx + w >= right as u32 {
                assert(hits@ =~= strip_from(0, x + 1, x + width, y));
                break;
            }
            let ghost before = hits@;
            hits.push((y, cx as u16, (cx + w) as u16, i));
            proof {
                let rest = strip_from(i as int + 1, cx + w + 1, right as int, y);
                assert(before + seq![(y, cx as u16, (cx + w) as u16, i)] + rest =~= before + (seq![(y, cx as u16, (cx + w) as u16, i)] + rest));
            }
            cx = cx + w + 1;
            i = i + 1;
            if i == TAB_COUNT {
                assert(hits@ =~= strip_from(0, x + 1, x + width, y));
            }
        }
        self.tab_hits = hits;
    }
}

/// Whether a click at `(row, column)` lands on a drawn label.
pub open spec fn lands(h: (u16, u16, u16, usize), row: u16, column: u16) -> bool {
    row == h.0 && h.1 <= column < h.2
}

/// The first drawn label from `k` on that a click lands on.
pub open spec fn first_hit(hits: Seq<(u16, u16, u16, usize)>, row: u16, column: u16, k: int) -> int
    decreases hits.len() - k,
{
    if k < 0 || k >= hits.len() {
        hits.len() as int
    } else if lands(hits[k], row, column) {
        k
    } else {
        first_hit(hits, row, column, k + 1)
    }
}

/// The first label a click lands on lies from `k` on, within the labels.
pub proof fn first_hit_bounds(hits: Seq<(u16, u16, u16, usize)>, row: u16, column: u16, k: int)
    requires
        0 <= k <= hits.len(),
    ensures
        k <= first_hit(hits, row, column, k) <= hits.len(),
    decreases hits.len() - k,
{
    if k < hits.len() && !lands(hits[k], row, column) {
        first_hit_bounds(hits, row, column, k + 1);
    }
}

/// Cycling forward and then back (or back and then forward) returns to the
/// same tab.
pub proof fn cycling_round_trips(t: int)
    requires
        0 <= t < TAB_COUNT,
    ensures
        (((t + 1) % (TAB_COUNT as int)) + TAB_COUNT - 1) % (TAB_COUNT as int) == t,
        (((t + TAB_COUNT - 1) % (TAB_COUNT as int)) + 1) % (TAB_COUNT as int) == t,
{
}

} // verus!
