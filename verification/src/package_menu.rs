//! The package menu's listing view: the filter keys read after `/`, the
//! filter text being typed, the marking and motion keys, and keeping the
//! selection in view. The listing itself (its rows, marks and filters) is
//! the menu model's; each key says what the model is to do.

use vstd::prelude::*;
use vstd::string::StrSliceExecFns;
use vstd::string::StringExecFns;

use crate::keys::Key;
use crate::text::{decimal, decimal_string};

verus! {

/// Whether any archive listing has been loaded: the listing has rows.
pub fn is_loaded(rows: usize) -> (r: bool)
    ensures
        r == (rows > 0),
{
    rows > 0
}

/// Which `package-menu-filter-by-*` command the typed text will feed.
#[derive(Clone, Copy, PartialEq, Eq, Debug, Structural)]
pub enum FilterKind {
    Name,
    Description,
    NameOrDescription,
    Keyword,
    Status,
    Archive,
    Version,
}

impl FilterKind {
    /// The prompt shown while the filter text is typed.
    pub fn prompt(self) -> (p: &'static str)
        ensures
            p@ == prompt_text(self),
    {
        proof {
            reveal_strlit("Filter by name (regexp): ");
            reveal_strlit("Filter by description (regexp): ");
            reveal_strlit("Filter by name or description: ");
            reveal_strlit("Filter by keyword: ");
            reveal_strlit("Filter by status: ");
            reveal_strlit("Filter by archive: ");
            reveal_strlit("Filter by version: ");
        }
        match self {
            FilterKind::Name => "Filter by name (regexp): ",
            FilterKind::Description => "Filter by description (regexp): ",
            FilterKind::NameOrDescription => "Filter by name or description: ",
            FilterKind::Keyword => "Filter by keyword: ",
            FilterKind::Status => "Filter by status: ",
            FilterKind::Archive => "Filter by archive: ",
            FilterKind::Version => "Filter by version: ",
        }
    }
}

/// The prompt for each filter kind.
pub open spec fn prompt_text(k: FilterKind) -> Seq<char> {
    match k {
        FilterKind::Name => "Filter by name (regexp): "@,
        FilterKind::Description => "Filter by description (regexp): "@,
        FilterKind::NameOrDescription => "Filter by name or description: "@,
        FilterKind::Keyword => "Filter by keyword: "@,
        FilterKind::Status => "Filter by status: "@,
        FilterKind::Archive => "Filter by archive: "@,
        FilterKind::Version => "Filter by version: "@,
    }
}

/// What the menu model is to do after a key.
#[derive(Clone, PartialEq, Eq, Debug)]
pub enum MenuAction {
    Nothing,
    /// Close the listing.
    Close,
    /// Move the selection by this many rows.
    Move(isize),
    First,
    Last,
    /// Mark the current package for installation (or deletion).
    Mark { install: bool },
    /// Unmark the current package and step by this many rows.
    Unmark(isize),
    MarkUpgrades,
    MarkObsolete,
    Execute,
    Refresh,
    Describe,
    Browse,
    Hide,
    ToggleHiding,
    /// Filter the listing by the typed text.
    AddFilter(FilterKind, String),
    FilterMarked,
    FilterUpgradable,
    ClearFilters,
    QuickHelp,
}

/// What a key asks of the model on the plain listing: quit, move, jump to
/// an end, mark or unmark, mark the upgrades or the obsolete, execute,
/// refresh, describe, browse, hide, toggle hiding, or show the quick help;
/// any other key asks nothing.
pub open spec fn menu_action(key: Key) -> MenuAction {
    match key {
        Key::Char('q') | Key::Esc | Key::Ctrl('c') => MenuAction::Close,
        Key::Char('j') | Key::Down | Key::Char('n') | Key::Ctrl('n') => MenuAction::Move(1),
        Key::Char('k') | Key::Up | Key::Char('p') | Key::Ctrl('p') => MenuAction::Move(-1isize),
        Key::PageDown => MenuAction::Move(10),
        Key::PageUp => MenuAction::Move(-10isize),
        Key::Home => MenuAction::First,
        Key::End | Key::Char('G') => MenuAction::Last,
        Key::Char('i') => MenuAction::Mark { install: true },
        Key::Char('d') => MenuAction::Mark { install: false },
        Key::Char('u') => MenuAction::Unmark(1),
        Key::Backspace => MenuAction::Unmark(-1isize),
        Key::Char('U') => MenuAction::MarkUpgrades,
        Key::Char('~') => MenuAction::MarkObsolete,
        Key::Char('x') => MenuAction::Execute,
        Key::Char('g') | Key::Char('r') => MenuAction::Refresh,
        Key::Enter | Key::Char('v') => MenuAction::Describe,
        Key::Char('w') => MenuAction::Browse,
        Key::Char('H') => MenuAction::Hide,
        Key::Char('(') => MenuAction::ToggleHiding,
        Key::Char('?') | Key::Char('h') => MenuAction::QuickHelp,
        _ => MenuAction::Nothing,
    }
}

/// The filter a key names after `/`, when it names one that reads text.
pub open spec fn filter_named(key: Key) -> Option<FilterKind> {
    match key {
        Key::Char('n') => Some(FilterKind::Name),
        Key::Char('d') => Some(FilterKind::Description),
        Key::Char('N') => Some(FilterKind::NameOrDescription),
        Key::Char('k') => Some(FilterKind::Keyword),
        Key::Char('s') => Some(FilterKind::Status),
        Key::Char('a') => Some(FilterKind::Archive),
        Key::Char('v') => Some(FilterKind::Version),
        _ => None,
    }
}

/// The full-screen package listing's own state.
pub struct PackageMenuView {
    /// First visible row.
    pub scroll: usize,
    pub viewport: usize,
    /// The message under the listing.
    pub status: String,
    /// `/` was pressed: the next key chooses which filter to apply.
    pub pending_filter: bool,
    /// A filter is being typed: which one, and the text so far.
    pub reading: Option<(FilterKind, String)>,
}

impl PackageMenuView {
    /// A listing at the top, with nothing pending.
    pub fn new() -> (v: Self)
        ensures
            v.scroll == 0 && v.viewport == 0 && v.status@.len() == 0,
            !v.pending_filter && v.reading is None,
    {
        PackageMenuView { scroll: 0, viewport: 0, status: String::new(), pending_filter: false, reading: None }
    }

    /// Feed one key to the filter being typed: Enter files the filter (or
    /// cancels it when nothing was typed), Esc or C-g cancel, Backspace drops
    /// a character and a character is typed.
    fn filter_key(&mut self, key: Key) -> (act: MenuAction)
        requires
            old(self).reading is Some,
        ensures
            match (old(self).reading, key) {
                (Some((k, t)), Key::Enter) => final(self).reading is None && if t@.len() == 0 {
                    act == MenuAction::Nothing && final(self).status@ == "package-menu: filter cancelled"@
                } else {
                    act matches MenuAction::AddFilter(k2, t2) && k2 == k && t2@ == t@
                },
                (Some(_), Key::Esc) | (Some(_), Key::Ctrl('g')) => final(self).reading is None
                    && final(self).status@ == "package-menu: filter cancelled"@ && act == MenuAction::Nothing,
                (Some((k, t)), Key::Char(c)) => act == MenuAction::Nothing
                    && (final(self).reading matches Some((k2, t2)) && k2 == k && t2@ == t@.push(c)),
                _ => act == MenuAction::Nothing,
            },
            key == Key::Backspace ==> (old(self).reading matches Some((k, t)) ==> (final(self).reading matches Some((k2, t2))
                && k2 == k && t2@ == (if t@.len() > 0 { t@.drop_last() } else { t@ }))),
            !(key is Enter || key is Esc || key == Key::Ctrl('g') || key is Char || key is Backspace)
                ==> final(self).reading == old(self).reading,
            !(key is Enter || key is Esc || key == Key::Ctrl('g')) ==> final(self).status == old(self).status,
            final(self).scroll == old(self).scroll && final(self).viewport == old(self).viewport,
            final(self).pending_filter == old(self).pending_filter,
    {
        let mut read: Option<(FilterKind, String)> = None;
        std::mem::swap(&mut read, &mut self.reading);
        let (kind, mut text) = match read {
            Some(pair) => pair,
            None => {
                return MenuAction::Nothing;
            },
        };
        match key {
            Key::Enter => {
                if text.as_str().unicode_len() == 0 {
                    self.status = String::from_str("package-menu: filter cancelled");
                    MenuAction::Nothing
                } else {
                    MenuAction::AddFilter(kind, text)
                }
            },
            Key::Esc | Key::Ctrl('g') => {
                self.status = String::from_str("package-menu: filter cancelled");
                MenuAction::Nothing
            },
            Key::Backspace => {
                let n = text.as_str().unicode_len();
                if n > 0 {
                    text = String::from_str(text.as_str().substring_char(0, n - 1));
                }
                self.reading = Some((kind, text));
                MenuAction::Nothing
            },
            Key::Char(c) => {
                text.append(crate::text::char_text(c).as_str());
                self.reading = Some((kind, text));
                MenuAction::Nothing
            },
            _ => {
                self.reading = Some((kind, text));
                MenuAction::Nothing
            },
        }
    }

    /// `/` then a key: start reading the named filter, or apply the ones
    /// that read no text.
    fn dispatch_filter_key(&mut self, key: Key) -> (act: MenuAction)
        ensures
            final(self).pending_filter == old(self).pending_filter,
            key == Key::Char('m') ==> act == MenuAction::FilterMarked
                && final(self).status@ == "package-menu: showing marked packages"@,
            key == Key::Char('u') ==> act == MenuAction::FilterUpgradable
                && final(self).status@ == "package-menu: showing upgradable packages"@,
            key == Key::Char('/') ==> act == MenuAction::ClearFilters
                && final(self).status@ == "package-menu: filters cleared"@,
            key == Key::Char('n') ==> (final(self).reading matches Some((k, t)) && k == FilterKind::Name && t@.len() == 0),
            key == Key::Char('v') ==> (final(self).reading matches Some((k, t)) && k == FilterKind::Version && t@.len() == 0),
            filter_named(key) matches Some(f) ==> (final(self).reading matches Some((k, t)) && k == f && t@.len() == 0)
                && act == MenuAction::Nothing && final(self).status == old(self).status,
            filter_named(key) is None && key != Key::Char('m') && key != Key::Char('u') && key != Key::Char('/')
                ==> act == MenuAction::Nothing && final(self).reading == old(self).reading && final(self).status == old(self).status,
            final(self).scroll == old(self).scroll && final(self).viewport == old(self).viewport,
            (key == Key::Char('m') || key == Key::Char('u') || key == Key::Char('/')) ==> final(self).reading == old(self).reading,
    {
        let kind = match key {
            Key::Char('n') => Some(FilterKind::Name),
            Key::Char('d') => Some(FilterKind::Description),
            Key::Char('N') => Some(FilterKind::NameOrDescription),
            Key::Char('k') => Some(FilterKind::Keyword),
            Key::Char('s') => Some(FilterKind::Status),
            Key::Char('a') => Some(FilterKind::Archive),
            Key::Char('v') => Some(FilterKind::Version),
            Key::Char('m') => {
                self.status = String::from_str("package-menu: showing marked packages");
                return MenuAction::FilterMarked;
            },
            Key::Char('u') => {
                self.status = String::from_str("package-menu: showing upgradable packages");
                return MenuAction::FilterUpgradable;
            },
            Key::Char('/') => {
                self.status = String::from_str("package-menu: filters cleared");
                return MenuAction::ClearFilters;
            },
            _ => None,
        };
        if let Some(kind) = kind {
            self.reading = Some((kind, String::new()));
        }
        MenuAction::Nothing
    }

    /// Read one key: a typed filter takes every key, a key after `/` names
    /// the filter, and otherwise the menu's keys clear the message and say
    /// what the model is to do.
    pub fn handle_key(&mut self, key: Key) -> (act: MenuAction)
        ensures
            old(self).reading is None && !old(self).pending_filter ==> {
                &&& (key == Key::Char('q') || key == Key::Esc || key == Key::Ctrl('c')) ==> act == MenuAction::Close
                &&& (key == Key::Char('j') || key == Key::Down) ==> act == MenuAction::Move(1)
                &&& (key == Key::Char('k') || key == Key::Up) ==> act == MenuAction::Move(-1isize)
                &&& key == Key::PageDown ==> act == MenuAction::Move(10)
                &&& key == Key::PageUp ==> act == MenuAction::Move(-10isize)
                &&& key == Key::Char('i') ==> act == MenuAction::Mark { install: true }
                &&& key == Key::Char('d') ==> act == MenuAction::Mark { install: false }
                &&& key == Key::Char('/') ==> final(self).pending_filter && act == MenuAction::Nothing
                &&& key != Key::Char('/') ==> !final(self).pending_filter && final(self).status@.len() == 0
                &&& act == menu_action(key)
                &&& final(self).status@.len() == 0
                &&& final(self).pending_filter == (key == Key::Char('/'))
                &&& final(self).reading == old(self).reading
            },
            old(self).reading is None && old(self).pending_filter ==> !final(self).pending_filter,
            old(self).reading is None && old(self).pending_filter ==> {
                &&& key == Key::Char('m') ==> act == MenuAction::FilterMarked
                    && final(self).status@ == "package-menu: showing marked packages"@
                &&& key == Key::Char('u') ==> act == MenuAction::FilterUpgradable
                    && final(self).status@ == "package-menu: showing upgradable packages"@
                &&& key == Key::Char('/') ==> act == MenuAction::ClearFilters
                    && final(self).status@ == "package-menu: filters cleared"@
                &&& filter_named(key) matches Some(f) ==> (final(self).reading matches Some((k, t)) && k == f && t@.len() == 0)
                    && act == MenuAction::Nothing && final(self).status == old(self).status
                &&& filter_named(key) is None && key != Key::Char('m') && key != Key::Char('u') && key != Key::Char('/')
                    ==> act == MenuAction::Nothing && final(self).reading == old(self).reading
                        && final(self).status == old(self).status
            },
            old(self).reading matches Some((k, t)) ==> {
                &&& final(self).pending_filter == old(self).pending_filter
                &&& key == Key::Enter ==> final(self).reading is None && if t@.len() == 0 {
                    act == MenuAction::Nothing && final(self).status@ == "package-menu: filter cancelled"@
                } else {
                    act matches MenuAction::AddFilter(k2, t2) && k2 == k && t2@ == t@
                }
                &&& (key == Key::Esc || key == Key::Ctrl('g')) ==> final(self).reading is None
                    && final(self).status@ == "package-menu: filter cancelled"@ && act == MenuAction::Nothing
                &&& key matches Key::Char(c) ==> act == MenuAction::Nothing
                    && (final(self).reading matches Some((k2, t2)) && k2 == k && t2@ == t@.push(c))
                &&& key == Key::Backspace ==> act == MenuAction::Nothing && (final(self).reading matches Some((k2, t2))
                    && k2 == k && t2@ == (if t@.len() > 0 { t@.drop_last() } else { t@ }))
            },
            final(self).scroll == old(self).scroll && final(self).viewport == old(self).viewport,
    {
        if self.reading.is_some() {
            return self.filter_key(key);
        }
        if self.pending_filter {
            self.pending_filter = false;
            return self.dispatch_filter_key(key);
        }
        self.status = String::new();
        match key {
            Key::Char('q') | Key::Esc | Key::Ctrl('c') => MenuAction::Close,
            Key::Char('j') | Key::Down | Key::Char('n') | Key::Ctrl('n') => MenuAction::Move(1),
            Key::Char('k') | Key::Up | Key::Char('p') | Key::Ctrl('p') => MenuAction::Move(-1),
            Key::PageDown => MenuAction::Move(10),
            Key::PageUp => MenuAction::Move(-10),
            Key::Home => MenuAction::First,
            Key::End | Key::Char('G') => MenuAction::Last,
            Key::Char('i') => MenuAction::Mark { install: true },
            Key::Char('d') => MenuAction::Mark { install: false },
            Key::Char('u') => MenuAction::Unmark(1),
            Key::Backspace => MenuAction::Unmark(-1),
            Key::Char('U') => MenuAction::MarkUpgrades,
            Key::Char('~') => MenuAction::MarkObsolete,
            Key::Char('x') => MenuAction::Execute,
            Key::Char('g') | Key::Char('r') => MenuAction::Refresh,
            Key::Enter | Key::Char('v') => MenuAction::Describe,
            Key::Char('w') => MenuAction::Browse,
            Key::Char('H') => MenuAction::Hide,
            Key::Char('(') => MenuAction::ToggleHiding,
            Key::Char('/') => {
                self.pending_filter = true;
                MenuAction::Nothing
            },
            Key::Char('?') | Key::Char('h') => MenuAction::QuickHelp,
            _ => MenuAction::Nothing,
        }
    }

    /// Keep the selected row in a body of `body_h` rows over `total` rows:
    /// scroll up to it, or down until it is the last shown, and never past
    /// the last row.
    pub fn follow(&mut self, selected: usize, body_h: usize, total: usize)
        ensures
            final(self).viewport == body_h,
            ({
                let s0 = old(self).scroll as int;
                let s1 = if selected < s0 {
                    selected as int
                } else if body_h > 0 && selected >= s0 + body_h {
                    selected + 1 - body_h
                } else {
                    s0
                };
                let last = if total > 0 { total - 1 } else { 0 };
                final(self).scroll == (if s1 > last { last } else { s1 })
            }),
    {
        self.viewport = body_h;
        if selected < self.scroll {
            self.scroll = selected;
        } else if body_h > 0 && selected - self.scroll >= body_h {
            self.scroll = selected - body_h + 1;
        }
        let last = if total > 0 { total - 1 } else { 0 };
        if self.scroll > last {
            self.scroll = last;
        }
    }
}

impl PackageMenuView {
    /// The name the view goes by.
    pub fn id(&self) -> (r: Option<&'static str>)
        ensures
            r == Some("package-menu"),
    {
        Some("package-menu")
    }
}

/// The line under the listing: the filter being typed with its prompt, the
/// filter keys while one is being chosen, the status message when there is
/// one, or else how many packages are listed and how many are marked.
pub open spec fn footer_of(v: PackageMenuView, total: nat, marked: nat) -> Seq<char> {
    match v.reading {
        Some((kind, text)) => prompt_text(kind) + text@,
        None => if v.pending_filter {
            "/ \u{2014} n name  d description  N name-or-description  k keyword  s status  a archive  v version  m marked  u upgradable  / clear"@
        } else if v.status@.len() > 0 {
            v.status@
        } else {
            decimal(total) + " package(s)"@ + if marked > 0 {
                ", "@ + decimal(marked) + " marked \u{2014} `x` executes"@
            } else {
                Seq::empty()
            }
        },
    }
}

/// What an empty listing says: that the filter matches nothing, or that no
/// archive listing is loaded yet.
pub open spec fn empty_note_of(loaded: bool) -> &'static str {
    if loaded {
        "  (no package matches the current filter \u{2014} `/ /` clears it)"
    } else {
        "  (no archive listing loaded \u{2014} `g` fetches one)"
    }
}

/// What an empty listing says.
pub fn empty_note(loaded: bool) -> (r: &'static str)
    ensures
        r == empty_note_of(loaded),
{
    if loaded {
        "  (no package matches the current filter \u{2014} `/ /` clears it)"
    } else {
        "  (no archive listing loaded \u{2014} `g` fetches one)"
    }
}

impl PackageMenuView {
    /// The line under a listing of `total` packages, `marked` of them marked.
    pub fn footer(&self, total: usize, marked: usize) -> (r: String)
        ensures
            r@ == footer_of(*self, total as nat, marked as nat),
    {
        match &self.reading {
            Some((kind, text)) => {
                let mut r = String::from_str(kind.prompt());
                r.append(text.as_str());
                r
            },
            None => {
                if self.pending_filter {
                    String::from_str(
                        "/ \u{2014} n name  d description  N name-or-description  k keyword  s status  a archive  v version  m marked  u upgradable  / clear",
                    )
                } else if self.status.as_str().unicode_len() > 0 {
                    self.status.clone()
                } else {
                    let mut r = decimal_string(total as u64);
                    r.append(" package(s)");
                    if marked > 0 {
                        r.append(", ");
                        let m = decimal_string(marked as u64);
                        r.append(m.as_str());
                        r.append(" marked \u{2014} `x` executes");
                    }
                    assert(r@ =~= footer_of(*self, total as nat, marked as nat));
                    r
                }
            },
        }
    }
}

} // verus!
