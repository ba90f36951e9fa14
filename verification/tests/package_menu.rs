use zmax_term::keys::Key;
use zmax_term::package_menu::{empty_note, is_loaded, FilterKind, MenuAction, PackageMenuView};

#[test]
fn a_listing_is_loaded_once_it_has_rows() {
    assert!(!is_loaded(0));
    assert!(is_loaded(3));
}

#[test]
fn slash_then_a_letter_reads_a_filter() {
    let mut v = PackageMenuView::new();
    assert_eq!(v.handle_key(Key::Char('/')), MenuAction::Nothing);
    assert!(v.pending_filter);
    v.handle_key(Key::Char('n'));
    assert!(!v.pending_filter);
    assert_eq!(v.reading.as_ref().map(|(k, _)| *k), Some(FilterKind::Name));
    assert_eq!(FilterKind::Name.prompt(), "Filter by name (regexp): ");
    for c in "magit".chars() {
        v.handle_key(Key::Char(c));
    }
    v.handle_key(Key::Backspace);
    assert_eq!(
        v.handle_key(Key::Enter),
        MenuAction::AddFilter(FilterKind::Name, "magi".to_string())
    );
    assert!(v.reading.is_none());
}

#[test]
fn an_empty_filter_is_cancelled() {
    let mut v = PackageMenuView::new();
    v.handle_key(Key::Char('/'));
    v.handle_key(Key::Char('k'));
    assert_eq!(v.handle_key(Key::Enter), MenuAction::Nothing);
    assert_eq!(v.status, "package-menu: filter cancelled");
    v.handle_key(Key::Char('/'));
    assert_eq!(v.handle_key(Key::Char('m')), MenuAction::FilterMarked);
    assert_eq!(v.status, "package-menu: showing marked packages");
    v.handle_key(Key::Char('/'));
    assert_eq!(v.handle_key(Key::Char('/')), MenuAction::ClearFilters);
}

#[test]
fn menu_keys_name_the_model_action() {
    let mut v = PackageMenuView::new();
    assert_eq!(v.handle_key(Key::Char('i')), MenuAction::Mark { install: true });
    assert_eq!(v.handle_key(Key::Down), MenuAction::Move(1));
    assert_eq!(v.handle_key(Key::PageUp), MenuAction::Move(-10));
    assert_eq!(v.handle_key(Key::Backspace), MenuAction::Unmark(-1));
    assert_eq!(v.handle_key(Key::Char('x')), MenuAction::Execute);
    assert_eq!(v.handle_key(Key::Ctrl('c')), MenuAction::Close);
}

#[test]
fn the_selection_stays_in_view() {
    let mut v = PackageMenuView::new();
    v.follow(25, 10, 100);
    assert_eq!(v.scroll, 16);
    v.follow(3, 10, 100);
    assert_eq!(v.scroll, 3);
    v.scroll = 50;
    v.follow(0, 0, 5);
    assert_eq!(v.scroll, 0);
    v.scroll = 50;
    v.follow(60, 0, 5);
    assert_eq!(v.scroll, 4);
}

#[test]
fn package_menu_goes_by_its_name() {
    assert_eq!(PackageMenuView::new().id(), Some("package-menu"));
}

#[test]
fn footer_says_what_is_going_on() {
    let mut v = PackageMenuView::new();
    assert_eq!(v.footer(12, 0), "12 package(s)");
    assert_eq!(v.footer(12, 3), "12 package(s), 3 marked \u{2014} `x` executes");
    v.status = "Fetched".to_string();
    assert_eq!(v.footer(12, 3), "Fetched");
    v.pending_filter = true;
    assert!(v.footer(12, 3).starts_with("/ \u{2014} n name"));
    v.reading = Some((FilterKind::Keyword, "net".to_string()));
    assert_eq!(v.footer(12, 3), "Filter by keyword: net");
}

#[test]
fn empty_listing_notes() {
    assert_eq!(empty_note(true), "  (no package matches the current filter \u{2014} `/ /` clears it)");
    assert_eq!(empty_note(false), "  (no archive listing loaded \u{2014} `g` fetches one)");
}
