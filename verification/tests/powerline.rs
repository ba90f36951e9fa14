use zmax_term::powerline::{branch_from_head, layout, left_segments, position_segment, right_segments, Placed, Status, Tone};

fn status() -> Status {
    Status {
        mode: 2,
        modified: true,
        branch: "main".into(),
        path: "src/main.rs".into(),
        lang: "rust".into(),
        encoding: "UTF-8".into(),
        pct: 42,
        lncol: (12, 5),
        carets: 1,
        ..Status::default()
    }
}

#[test]
fn the_position_pill_follows_line_and_column_number_mode() {
    let mut st = status();
    st.lncol = (12, 5);
    st.pct = 40;
    // Emacs `mode-line-position`, all four cases. The percentage is a
    // line-position construct, so it goes with `line-number-mode`.
    assert_eq!(
        position_segment(&st, "L", true, true).as_deref(),
        Some(" 40%  L 12:5 ")
    );
    assert_eq!(
        position_segment(&st, "L", true, false).as_deref(),
        Some(" 40%  L 12 ")
    );
    assert_eq!(
        position_segment(&st, "L", false, true).as_deref(),
        Some(" L :5 ")
    );
    // Both off: the whole pill goes, as the plain status line drops its
    // `Position` element.
    assert_eq!(position_segment(&st, "L", false, false), None);
}

fn texts(pills: &[(String, Tone)]) -> Vec<String> {
    pills.iter().map(|(t, _)| t.clone()).collect()
}

#[test]
fn left_cluster_lists_mode_flag_branch_and_path() {
    let pills = left_segments(&status());
    assert_eq!(
        texts(&pills),
        vec![" INSERT ", " + ", " \u{e0a0} main ", " src/main.rs "]
    );
    assert_eq!(pills[0].1, Tone::Mode);
    assert_eq!(pills[1].1, Tone::Warn);
    let plain = left_segments(&Status { mode: 0, modified: false, branch: String::new(), ..status() });
    assert_eq!(texts(&plain), vec![" NORMAL ", " src/main.rs "]);
}

#[test]
fn right_cluster_shows_stats_only_where_meaningful() {
    let st = Status { carets: 3, mode: 1, sel: 9, sel_lines: 2, ..status() };
    assert_eq!(
        texts(&right_segments(&st, true, true)),
        vec![" 3 \u{2336} ", " rust ", " UTF-8 ", " 42%  \u{e0a1} 12:5 "]
    );
    let st = Status { carets: 1, mode: 1, sel: 9, sel_lines: 2, ..status() };
    assert_eq!(texts(&right_segments(&st, true, true))[0], " 2L 9 sel ");
    let st = Status { carets: 1, mode: 0, sel: 9, sel_lines: 2, ..status() };
    assert_eq!(texts(&right_segments(&st, false, false)), vec![" rust ", " UTF-8 "]);
    let st = Status { harpoon_slot: Some(2), harpoon_total: 4, ..status() };
    assert_eq!(texts(&right_segments(&st, true, true))[0], " \u{2693} 2/4 ");
    let st = Status { harpoon_slot: None, harpoon_total: 4, ..status() };
    assert_eq!(texts(&right_segments(&st, true, true))[0], " \u{2693} 4 ");
}

#[test]
fn right_cluster_stops_before_the_left_one() {
    // Left pills of widths 5 and 4 on a 20-column row: 0..5, sep 5, 6..10, sep 10.
    let (left, right) = layout(&vec![5, 4], &vec![3, 6], 0, 20);
    assert_eq!(
        left,
        vec![
            Placed { x: 0, width: 5, sep: true },
            Placed { x: 6, width: 4, sep: true }
        ]
    );
    // The rightmost (6 wide) ends at the edge with its separator at 13; the
    // next (3 wide) would reach the left cluster's end at 11, so it is dropped.
    assert_eq!(right, vec![Placed { x: 14, width: 6, sep: true }]);
    // A row too narrow for the second left pill cuts it at the edge.
    let (left, right) = layout(&vec![5, 4], &vec![3], 0, 8);
    assert_eq!(
        left,
        vec![
            Placed { x: 0, width: 5, sep: true },
            Placed { x: 6, width: 2, sep: false }
        ]
    );
    assert!(right.is_empty());
}

#[test]
fn the_branch_comes_from_git_head() {
    assert_eq!(branch_from_head("ref: refs/heads/main\n"), "main");
    assert_eq!(branch_from_head("ref: refs/heads/feature/x"), "feature/x");
    assert_eq!(branch_from_head("0123456789abcdef\n"), "0123456");
    assert_eq!(branch_from_head("  abc "), "abc");
}
