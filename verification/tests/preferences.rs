use zmax_term::keys::Key;
use zmax_term::preferences::{tab_name, Opening, PreferencesPanel};

#[test]
fn openings_pick_their_tab() {
    assert_eq!(PreferencesPanel::new(2).tab, 2);
    assert_eq!(PreferencesPanel::new(99).tab, 5);
    let p = PreferencesPanel::new_help("grep".to_string());
    assert_eq!(p.tab, 4);
    assert_eq!(p.opening, Opening::HelpFiltered("grep".to_string()));
    assert_eq!(PreferencesPanel::new_settings_filtered("x".into()).tab, 0);
    assert_eq!(PreferencesPanel::new_settings_modified().opening, Opening::SettingsModified);
    assert_eq!(tab_name(2), "Color Scheme");
}

#[test]
fn ctrl_tab_cycles_both_ways() {
    let mut p = PreferencesPanel::new(5);
    assert!(p.handle_key(Key::CtrlTab { back: false }));
    assert_eq!(p.tab, 0);
    assert!(p.handle_key(Key::CtrlTab { back: true }));
    assert_eq!(p.tab, 5);
    assert!(!p.handle_key(Key::Char('a')));
    assert_eq!(p.tab, 5);
}

#[test]
fn the_strip_stops_before_the_edge_and_clicks_land_on_labels() {
    let mut p = PreferencesPanel::new(0);
    p.layout_tabs(0, 3, 40);
    // " Settings " 1..11, sep, " Keymap " 12..20, sep, " Color Scheme " 21..35;
    // " Run Configs " would reach the edge.
    assert_eq!(p.tab_hits, vec![(3, 1, 11, 0), (3, 12, 20, 1), (3, 21, 35, 2)]);
    assert!(p.click(3, 25));
    assert_eq!(p.tab, 2);
    assert!(!p.click(3, 11));
    assert!(!p.click(4, 25));
    assert_eq!(p.tab, 2);
}
