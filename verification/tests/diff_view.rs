use zmax_term::diff_view::{split_panes, DiffAction, DiffView, ViewKind};
use zmax_term::keys::Key;
use zmax_term::merge::{parse_conflicts, Resolution, RowKind};

fn two_conflicts() -> DiffView {
    let text = "<<<<<<<\nA\n||||||| base\nb1\nb2\nb3\n=======\nB\n>>>>>>>\nmid\n<<<<<<<\nC\nC2\n=======\nD\n>>>>>>>\n";
    DiffView::from_conflicts("f".into(), parse_conflicts(text).unwrap())
}

#[test]
fn a_longer_base_gets_filler_rows() {
    let v = two_conflicts();
    // Conflict 1: one changed row, then two fillers for the extra base lines.
    let kinds: Vec<RowKind> = v.rows.iter().map(|r| r.kind).collect();
    assert_eq!(
        kinds,
        vec![
            RowKind::Changed,
            RowKind::Changed,
            RowKind::Changed,
            RowKind::Unchanged,
            RowKind::Changed,
            RowKind::Removed
        ]
    );
    assert_eq!(v.rows[1].left, None);
    assert_eq!(v.row_base, vec![Some(0), Some(1), Some(2), Some(3), None, None]);
    assert_eq!(v.blocks[0].rows, 0..3);
    assert_eq!(v.blocks[1].rows, 4..6);
    assert_eq!(v.base_lines, vec!["A", "mid", "C", "C2"]);
    assert_eq!(v.doc_lines, vec!["B", "mid", "D"]);
    assert!(v.has_base && v.show_base);
}

#[test]
fn stepping_and_deciding() {
    let mut v = two_conflicts();
    v.handle_key(Key::Char('n'));
    assert_eq!(v.selected, 1);
    v.handle_key(Key::Char('h'));
    assert_eq!(v.blocks[1].resolution, Resolution::Left);
    assert_eq!(v.resolved_count(), 1);
    assert_eq!(v.unresolved_count(), 1);
    v.toggle_skip_prefers();
    v.handle_key(Key::Char('p'));
    assert_eq!(v.selected, 0);
    v.handle_key(Key::Char('n'));
    // The only later block is decided, so the selection stays.
    assert_eq!(v.selected, 0);
    assert!(v.toggle_auto_advance());
    v.handle_key(Key::Char('b'));
    assert_eq!(v.blocks[0].resolution, Resolution::Both);
    assert!(v.all_resolved());
    match v.handle_key(Key::Enter) {
        DiffAction::Apply { text, conflict, all_resolved, remaining } => {
            assert_eq!(text, "A\nB\nmid\nC\nC2\n");
            assert!(conflict && all_resolved);
            assert_eq!(remaining, 0);
        }
        other => panic!("expected apply, got {other:?}"),
    }
    v.handle_key(Key::Char('B'));
    assert!(!v.show_base);
}

#[test]
fn a_diff_view_scrolls_and_applies_its_choice() {
    let mut v = DiffView::new("f".into(), "a\nb\nc\n", "a\nB\nc\n");
    assert_eq!(v.kind, ViewKind::Diff);
    assert!(!v.is_unchanged());
    assert_eq!(v.block_at(1), Some(0));
    assert_eq!(v.block_at(0), None);
    v.scroll_by(10);
    assert_eq!(v.scroll, 2);
    v.handle_key(Key::Char('g'));
    assert_eq!(v.scroll, 0);
    v.handle_key(Key::Char('L'));
    assert_eq!(v.result_text(), "a\nb\nc\n");
    let v = v.read_only();
    let mut v = v;
    assert_eq!(v.handle_key(Key::Enter), DiffAction::Close);
    assert!(DiffView::new("f".into(), "x\n", "x\n").is_unchanged());
}

#[test]
fn views_go_by_their_kind() {
    assert_eq!(DiffView::new("f".into(), "a\n", "b\n").id(), Some("diff"));
    assert_eq!(
        DiffView::from_conflicts("f".into(), parse_conflicts("<<<<<<< a\nx\n=======\ny\n>>>>>>> b\n").unwrap()).id(),
        Some("merge")
    );
}

#[test]
fn panes_share_the_width_and_tile_it() {
    let (panes, seps) = split_panes(0, 80, 3);
    assert_eq!(panes, vec![(0, 26), (27, 26), (54, 26)]);
    assert_eq!(seps, vec![26, 53]);
    // The remainder goes to the earliest panes; the last ends at the edge.
    let (panes, seps) = split_panes(5, 100, 4);
    assert_eq!(panes, vec![(5, 25), (31, 24), (56, 24), (81, 24)]);
    assert_eq!(seps, vec![30, 55, 80]);
    assert_eq!(panes[3].0 + panes[3].1, 105);
    // Too narrow for the separators: the panes are empty.
    assert_eq!(split_panes(0, 1, 3), (vec![(0, 0), (1, 0), (2, 0)], vec![0, 1]));
}

#[test]
fn base_pane_needs_a_base_and_a_wide_area() {
    let text = "<<<<<<< a\nx\n||||||| base\nb\n=======\ny\n>>>>>>> b\n";
    let v = DiffView::from_conflicts("f".into(), parse_conflicts(text).unwrap());
    assert!(v.shows_base_pane(100));
    assert!(!v.shows_base_pane(99));
    assert_eq!(v.panes(0, 100).0.len(), 4);
    assert_eq!(v.panes(0, 99).0.len(), 3);
    let d = DiffView::new("f".into(), "a\n", "b\n");
    assert!(!d.shows_base_pane(200));
}

#[test]
fn header_gutter_and_labels() {
    let mut v = DiffView::new("f".into(), "a\nb\nc\n", "a\nB\nc\n");
    assert_eq!(v.header(), format!(" f  \u{2014}  1 change \u{b7} {} resolved", v.resolved_count()));
    assert_eq!(v.gutter_width(), 2);
    let (hint, left, right) = v.labels();
    assert_eq!(left, " HEAD");
    assert_eq!(right, " Working tree");
    let h = v.header();
    assert_eq!(v.hint_fits(&h, 200), h.len() + hint.len() + 3 < 200);
    assert!(v.hint_fits(&h, 200));
    assert!(!v.hint_fits(&h, 40));
    v.set_body(30);
    assert_eq!(v.viewport, 28);
    v.set_body(1);
    assert_eq!(v.viewport, 0);
    let c = DiffView::from_conflicts("g".into(), parse_conflicts("<<<<<<< a\nx\n=======\ny\n>>>>>>> b\n").unwrap());
    assert_eq!(c.header(), " g  \u{2014}  1 conflict \u{b7} 0 resolved");
    assert_eq!(c.labels().1, " Current (ours)");
}
