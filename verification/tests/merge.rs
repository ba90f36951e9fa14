#![allow(unused_imports, unused_variables, unused_mut, dead_code)]

use zmax_term::diff_view::{DiffView, ViewKind};
use zmax_term::merge::{Block, DiffRow, Resolution, RowKind, Segment, align, change_blocks, compute_blocks, cell_runs, conflict_result_text, diff3, gutter_label, inline_spans, merge_matched, result_arrow, result_marker, result_source, layout_cells, parse_conflicts, result_text, split_lines};


fn kinds(rows: &[DiffRow]) -> Vec<RowKind> {
rows.iter().map(|r| r.kind).collect()
}

#[test]
fn identical_texts_pair_every_line() {
let rows = align("a\nb\nc\n", "a\nb\nc\n");
assert_eq!(rows.len(), 3);
assert!(rows.iter().all(|r| r.kind == RowKind::Unchanged));
for (i, r) in rows.iter().enumerate() {
    assert_eq!(r.left, Some(i));
    assert_eq!(r.right, Some(i));
}
assert!(change_blocks(&rows).is_empty());
}

#[test]
fn pure_insertion_pads_left_side() {
// "b" inserted between a and c.
let rows = align("a\nc\n", "a\nb\nc\n");
assert_eq!(
    kinds(&rows),
    vec![RowKind::Unchanged, RowKind::Added, RowKind::Unchanged]
);
let added = &rows[1];
assert_eq!(added.left, None, "inserted line has no HEAD counterpart");
assert_eq!(added.right, Some(1));
assert_eq!(change_blocks(&rows), vec![1]);
}

#[test]
fn pure_deletion_pads_right_side() {
// "b" removed.
let rows = align("a\nb\nc\n", "a\nc\n");
assert_eq!(
    kinds(&rows),
    vec![RowKind::Unchanged, RowKind::Removed, RowKind::Unchanged]
);
let removed = &rows[1];
assert_eq!(removed.left, Some(1));
assert_eq!(
    removed.right, None,
    "deleted line has no working counterpart"
);
}

#[test]
fn modification_pairs_old_against_new() {
// Single changed line: old "b" on the left, new "B" on the right.
let rows = align("a\nb\nc\n", "a\nB\nc\n");
assert_eq!(
    kinds(&rows),
    vec![RowKind::Unchanged, RowKind::Changed, RowKind::Unchanged]
);
let changed = &rows[1];
assert_eq!(changed.left, Some(1));
assert_eq!(changed.right, Some(1));
}

#[test]
fn lopsided_change_pairs_then_pads() {
// 1 old line replaced by 3 new lines: 1 Changed + 2 Added, panes aligned.
let rows = align("a\nx\nc\n", "a\np\nq\nr\nc\n");
assert_eq!(
    kinds(&rows),
    vec![
        RowKind::Unchanged,
        RowKind::Changed,
        RowKind::Added,
        RowKind::Added,
        RowKind::Unchanged,
    ]
);
// The two pure-Added rows have blank HEAD sides so the panes stay aligned.
assert_eq!(rows[2].left, None);
assert_eq!(rows[3].left, None);
// One contiguous change block starting at row 1.
assert_eq!(change_blocks(&rows), vec![1]);
}

#[test]
fn split_lines_matches_diff_tokenisation() {
assert_eq!(split_lines("a\nb\n"), vec!["a", "b"]);
assert_eq!(split_lines("a\nb"), vec!["a", "b"]);
assert_eq!(split_lines(""), Vec::<String>::new());
assert_eq!(split_lines("a\r\nb\r\n"), vec!["a", "b"]);
}

// ── Result computation (slice 2) ─────────────────────────────────────────

/// Build the full Result-text inputs from two texts, override each block's
/// resolution with `resolutions[i]`, and return the merged text.
fn merged(base: &str, doc: &str, resolutions: &[Resolution]) -> String {
let rows = align(base, doc);
let mut blocks = compute_blocks(&rows);
assert_eq!(
    blocks.len(),
    resolutions.len(),
    "test gave the wrong number of resolutions"
);
for (b, &r) in blocks.iter_mut().zip(resolutions) {
    b.resolution = r;
}
let base_lines = split_lines(base);
let doc_lines = split_lines(doc);
result_text(&rows, &blocks, &base_lines, &doc_lines)
}

#[test]
fn compute_blocks_default_to_right() {
let rows = align("a\nb\nc\n", "a\nB\nc\n");
let blocks = compute_blocks(&rows);
assert_eq!(blocks.len(), 1);
assert_eq!(blocks[0].rows, 1..2);
assert_eq!(blocks[0].resolution, Resolution::Right);
}

#[test]
fn unchanged_text_results_unchanged() {
// No blocks: Result is just the text.
let rows = align("a\nb\n", "a\nb\n");
let blocks = compute_blocks(&rows);
assert!(blocks.is_empty());
let lines = split_lines("a\nb\n");
assert_eq!(result_text(&rows, &blocks, &lines, &lines), "a\nb\n");
}

#[test]
fn modification_left_is_head_right_is_working() {
// "b" -> "B". Left keeps HEAD ("b"), Right keeps working ("B").
assert_eq!(
    merged("a\nb\nc\n", "a\nB\nc\n", &[Resolution::Left]),
    "a\nb\nc\n"
);
assert_eq!(
    merged("a\nb\nc\n", "a\nB\nc\n", &[Resolution::Right]),
    "a\nB\nc\n"
);
}

#[test]
fn deletion_left_keeps_line_right_drops_it() {
// "b" deleted in working. Left reverts (keeps "b"), Right drops it.
assert_eq!(
    merged("a\nb\nc\n", "a\nc\n", &[Resolution::Left]),
    "a\nb\nc\n"
);
assert_eq!(
    merged("a\nb\nc\n", "a\nc\n", &[Resolution::Right]),
    "a\nc\n"
);
}

#[test]
fn insertion_left_drops_line_right_keeps_it() {
// "b" inserted in working. Left drops it, Right keeps it.
assert_eq!(merged("a\nc\n", "a\nb\nc\n", &[Resolution::Left]), "a\nc\n");
assert_eq!(
    merged("a\nc\n", "a\nb\nc\n", &[Resolution::Right]),
    "a\nb\nc\n"
);
}

#[test]
fn lopsided_change_emits_actual_lines_not_blanks() {
// 1 line -> 3 lines. Right emits all three working lines (no padding);
// Left emits the single HEAD line.
let base = "a\nx\nc\n";
let doc = "a\np\nq\nr\nc\n";
assert_eq!(merged(base, doc, &[Resolution::Right]), "a\np\nq\nr\nc\n");
assert_eq!(merged(base, doc, &[Resolution::Left]), "a\nx\nc\n");
}

#[test]
fn multiple_blocks_resolve_independently() {
// Two separate changes: take HEAD for the first, working for the second.
let base = "a\nb\nc\nd\ne\n";
let doc = "a\nB\nc\nD\ne\n";
assert_eq!(
    merged(base, doc, &[Resolution::Left, Resolution::Right]),
    "a\nb\nc\nD\ne\n"
);
}

// ── Conflict parsing (slice 3) ───────────────────────────────────────────

fn ctx(lines: &[&str]) -> Segment {
Segment::Context(lines.iter().map(|s| s.to_string()).collect())
}
fn conflict(ours: &[&str], base: &[&str], theirs: &[&str]) -> Segment {
Segment::Conflict {
    ours: ours.iter().map(|s| s.to_string()).collect(),
    base: base.iter().map(|s| s.to_string()).collect(),
    theirs: theirs.iter().map(|s| s.to_string()).collect(),
}
}

#[test]
fn parse_no_markers_returns_none() {
assert_eq!(parse_conflicts("a\nb\nc\n"), None);
assert_eq!(parse_conflicts(""), None);
}

#[test]
fn parse_single_conflict() {
let text = "top\n\
            <<<<<<< HEAD\n\
            ours1\n\
            ours2\n\
            =======\n\
            theirs1\n\
            >>>>>>> branch\n\
            bottom\n";
assert_eq!(
    parse_conflicts(text),
    Some(vec![
        ctx(&["top"]),
        conflict(&["ours1", "ours2"], &[], &["theirs1"]),
        ctx(&["bottom"]),
    ])
);
}

#[test]
fn parse_multiple_conflicts() {
let text = "<<<<<<<\n\
            A\n\
            =======\n\
            B\n\
            >>>>>>>\n\
            mid\n\
            <<<<<<<\n\
            C\n\
            =======\n\
            D\n\
            >>>>>>>\n";
assert_eq!(
    parse_conflicts(text),
    Some(vec![
        conflict(&["A"], &[], &["B"]),
        ctx(&["mid"]),
        conflict(&["C"], &[], &["D"]),
    ])
);
}

#[test]
fn parse_diff3_base_section() {
let text = "<<<<<<< ours\n\
            o\n\
            ||||||| base\n\
            b1\n\
            b2\n\
            =======\n\
            t\n\
            >>>>>>> theirs\n";
assert_eq!(
    parse_conflicts(text),
    Some(vec![conflict(&["o"], &["b1", "b2"], &["t"])])
);
}

#[test]
fn parse_crlf_line_endings() {
let text = "top\r\n\
            <<<<<<< HEAD\r\n\
            ours\r\n\
            =======\r\n\
            theirs\r\n\
            >>>>>>> branch\r\n";
assert_eq!(
    parse_conflicts(text),
    Some(vec![ctx(&["top"]), conflict(&["ours"], &[], &["theirs"])])
);
}

#[test]
fn parse_missing_trailing_newline() {
// No final newline after the closing marker.
let text = "<<<<<<<\nours\n=======\ntheirs\n>>>>>>>";
assert_eq!(
    parse_conflicts(text),
    Some(vec![conflict(&["ours"], &[], &["theirs"])])
);
}

// ── Conflict result text (slice 3) ───────────────────────────────────────

#[test]
fn conflict_ours_theirs_both() {
let text = "x\n<<<<<<<\nours\n=======\ntheirs\n>>>>>>>\ny\n";
assert_eq!(resolved_conflict(text, &[Resolution::Left]), "x\nours\ny\n");
assert_eq!(
    resolved_conflict(text, &[Resolution::Right]),
    "x\ntheirs\ny\n"
);
assert_eq!(
    resolved_conflict(text, &[Resolution::Both]),
    "x\nours\ntheirs\ny\n"
);
}

#[test]
fn conflict_none_re_emits_markers() {
// An unresolved conflict re-emits the markers (normalised, base dropped
// when empty) so the file stays conflicted.
let text = "x\n<<<<<<<\nours\n=======\ntheirs\n>>>>>>>\ny\n";
assert_eq!(
    resolved_conflict(text, &[Resolution::Unresolved]),
    "x\n<<<<<<<\nours\n=======\ntheirs\n>>>>>>>\ny\n"
);
}

#[test]
fn conflict_none_preserves_diff3_base() {
let text = "<<<<<<<\nours\n|||||||\nbase\n=======\ntheirs\n>>>>>>>\n";
assert_eq!(
    resolved_conflict(text, &[Resolution::Unresolved]),
    "<<<<<<<\nours\n|||||||\nbase\n=======\ntheirs\n>>>>>>>\n"
);
}

#[test]
fn conflict_partial_resolution_leaves_rest_conflicted() {
// First conflict resolved to ours, second left unresolved.
let text = "<<<<<<<\nA\n=======\nB\n>>>>>>>\n\
            mid\n\
            <<<<<<<\nC\n=======\nD\n>>>>>>>\n";
assert_eq!(
    resolved_conflict(text, &[Resolution::Left, Resolution::Unresolved]),
    "A\nmid\n<<<<<<<\nC\n=======\nD\n>>>>>>>\n"
);
}

// ── diff3 three-way merge (slice 4) ──────────────────────────────────────

#[test]
fn diff3_ours_only_change_auto_merges() {
// theirs == base; only ours changed line 2 → take ours, no conflict.
assert_eq!(
    diff3("a\nb\nc\n", "a\nB\nc\n", "a\nb\nc\n"),
    vec![ctx(&["a", "B", "c"])]
);
}

#[test]
fn diff3_theirs_only_change_auto_merges() {
// ours == base; only theirs changed → take theirs, no conflict.
assert_eq!(
    diff3("a\nb\nc\n", "a\nb\nc\n", "a\nb\nC\n"),
    vec![ctx(&["a", "b", "C"])]
);
}

#[test]
fn diff3_identical_change_on_both_sides() {
// Both sides made the same edit → take it, no conflict.
assert_eq!(
    diff3("a\nb\nc\n", "a\nX\nc\n", "a\nX\nc\n"),
    vec![ctx(&["a", "X", "c"])]
);
}

#[test]
fn diff3_genuine_conflict_carries_base() {
// Overlapping edits → conflict, and it carries the real base line "b".
assert_eq!(
    diff3("a\nb\nc\n", "a\nX\nc\n", "a\nY\nc\n"),
    vec![ctx(&["a"]), conflict(&["X"], &["b"], &["Y"]), ctx(&["c"])]
);
}

#[test]
fn diff3_disjoint_changes_both_apply() {
// ours changes the first line, theirs the last — both auto-merge.
assert_eq!(
    diff3("a\nb\nc\nd\ne\n", "A\nb\nc\nd\ne\n", "a\nb\nc\nd\nE\n"),
    vec![ctx(&["A", "b", "c", "d", "E"])]
);
}

#[test]
fn diff3_insertion_one_side_change_other_disjoint() {
// ours inserts a line near the top, theirs changes the last line.
assert_eq!(
    diff3("a\nb\nc\n", "a\nNEW\nb\nc\n", "a\nb\nC\n"),
    vec![ctx(&["a", "NEW", "b", "C"])]
);
}

#[test]
fn diff3_multiple_regions_mixed() {
// Region 1: ours-only change (auto-merged). Region 2: genuine conflict.
assert_eq!(
    diff3("a\nb\nc\nd\ne\n", "a\nB\nc\nX\ne\n", "a\nb\nc\nY\ne\n"),
    vec![
        ctx(&["a", "B", "c"]),
        conflict(&["X"], &["d"], &["Y"]),
        ctx(&["e"]),
    ]
);
}

#[test]
fn diff3_adjacent_conflict_regions() {
// Two conflicting lines back-to-back with no stable line between them:
// one conflict spanning both base lines.
assert_eq!(
    diff3("a\nb\nc\n", "X1\nX2\nc\n", "Y1\nY2\nc\n"),
    vec![
        conflict(&["X1", "X2"], &["a", "b"], &["Y1", "Y2"]),
        ctx(&["c"]),
    ]
);
}

#[test]
fn diff3_empty_base_addadd_conflict() {
// No common ancestor; both sides added different content → conflict with
// an empty base.
assert_eq!(diff3("", "a\n", "b\n"), vec![conflict(&["a"], &[], &["b"])]);
}

#[test]
fn diff3_empty_base_addadd_identical() {
// Both sides added the same content → auto-merge, no conflict.
assert_eq!(diff3("", "a\n", "a\n"), vec![ctx(&["a"])]);
}

#[test]
fn diff3_ours_deletes_everything() {
// ours deleted all lines, theirs unchanged → take the deletion (empty).
assert!(diff3("a\nb\n", "", "a\nb\n").is_empty());
}

#[test]
fn diff3_theirs_deletes_everything() {
assert!(diff3("a\nb\n", "a\nb\n", "").is_empty());
}

#[test]
fn diff3_all_empty() {
assert!(diff3("", "", "").is_empty());
}

// ── diff3 round-trips through the conflict view (slice 4) ─────────────────

// ── intra-line (char-level) highlighting ─────────────────────────────────

/// Concatenate only the emphasised runs.
fn emph_text(runs: &[(String, bool)]) -> String {
runs.iter()
    .filter(|(_, e)| *e)
    .map(|(s, _)| s.as_str())
    .collect()
}
/// Concatenate every run (gives back the whole line).
fn full_text(runs: &[(String, bool)]) -> String {
runs.iter().map(|(s, _)| s.as_str()).collect()
}

#[test]
fn inline_identical_has_no_emphasis() {
let (l, r) = inline_spans("hello world", "hello world");
assert_eq!(emph_text(&l), "");
assert_eq!(emph_text(&r), "");
assert_eq!(full_text(&l), "hello world");
assert_eq!(full_text(&r), "hello world");
// No run is flagged emphasised.
assert!(l.iter().all(|(_, e)| !e));
assert!(r.iter().all(|(_, e)| !e));
}

#[test]
fn inline_empty_inputs() {
let (l, r) = inline_spans("", "");
assert!(l.is_empty() && r.is_empty());
}

#[test]
fn inline_one_word_change_emphasises_only_that_word() {
// Only the middle word differs; the surrounding text is common.
let (l, r) = inline_spans("the cat sat", "the dog sat");
assert_eq!(emph_text(&l), "cat");
assert_eq!(emph_text(&r), "dog");
assert_eq!(full_text(&l), "the cat sat");
assert_eq!(full_text(&r), "the dog sat");
}

#[test]
fn inline_common_prefix_and_suffix() {
// "ab" prefix and "ef" suffix are common; only the middle is emphasised.
let (l, r) = inline_spans("abcdef", "abXYef");
assert_eq!(emph_text(&l), "cd");
assert_eq!(emph_text(&r), "XY");
// The common prefix/suffix come back un-emphasised.
assert_eq!(l.first().unwrap(), &("ab".to_string(), false));
assert_eq!(l.last().unwrap(), &("ef".to_string(), false));
assert_eq!(r.first().unwrap(), &("ab".to_string(), false));
assert_eq!(r.last().unwrap(), &("ef".to_string(), false));
}

#[test]
fn inline_pure_insertion_emphasises_added_only() {
// Right adds a trailing word; left has nothing emphasised.
let (l, r) = inline_spans("foo", "foo bar");
assert_eq!(emph_text(&l), "");
assert_eq!(emph_text(&r), " bar");
}

// ── horizontal-offset line slicing ───────────────────────────────────────

fn cells_text(cells: &[(char, bool)]) -> String {
cells.iter().map(|(c, _)| *c).collect()
}
fn run(s: &str) -> Vec<(String, bool)> {
vec![(s.to_string(), false)]
}

#[test]
fn layout_pads_short_line_to_width() {
let cells = layout_cells(&run("abc"), 0, 6);
assert_eq!(cells.len(), 6);
assert_eq!(cells_text(&cells), "abc   ");
}

#[test]
fn layout_truncates_long_line_to_width() {
let cells = layout_cells(&run("abcdefgh"), 0, 4);
assert_eq!(cells_text(&cells), "abcd");
}

#[test]
fn layout_hscroll_skips_leading_columns() {
// Skip 2 leading columns, then show 4 (padded).
let cells = layout_cells(&run("hello"), 2, 4);
assert_eq!(cells_text(&cells), "llo ");
}

#[test]
fn layout_hscroll_past_end_is_all_blank() {
// Offset beyond the content clamps to an all-blank, full-width line.
let cells = layout_cells(&run("hi"), 99, 3);
assert_eq!(cells_text(&cells), "   ");
assert_eq!(cells.len(), 3);
}

#[test]
fn layout_expands_tabs_to_four_columns() {
let cells = layout_cells(&run("\tx"), 0, 6);
assert_eq!(cells_text(&cells), "    x ");
}

#[test]
fn layout_is_multibyte_safe() {
// Scrolling over multibyte chars operates on chars, never bytes.
let cells = layout_cells(&run("héllo"), 1, 4);
assert_eq!(cells.len(), 4);
assert_eq!(cells_text(&cells), "éllo");
// Past-the-end on multibyte content also must not panic.
let cells = layout_cells(&run("naïve"), 10, 2);
assert_eq!(cells_text(&cells), "  ");
}

#[test]
fn layout_preserves_emphasis_flags_through_scroll() {
// Emphasis travels with the chars across hscroll/truncation.
let runs = vec![("ab".to_string(), false), ("CD".to_string(), true)];
let cells = layout_cells(&runs, 1, 3);
// "bCD" — first char un-emphasised, next two emphasised.
assert_eq!(cells_text(&cells), "bCD");
assert_eq!(
    cells.iter().map(|(_, e)| *e).collect::<Vec<_>>(),
    vec![false, true, true]
);
}

/// Parse `text`, build a conflict view, override each conflict block's
/// resolution with `resolutions[i]`, and return the resolved text.
fn resolved_conflict(text: &str, resolutions: &[Resolution]) -> String {
    let segments = parse_conflicts(text).expect("expected conflict markers");
    let mut view = DiffView::from_conflicts("f".to_string(), segments);
    assert_eq!(
        view.blocks.len(),
        resolutions.len(),
        "test gave the wrong number of resolutions"
    );
    for (b, &r) in view.blocks.iter_mut().zip(resolutions) {
        b.resolution = r;
    }
    conflict_result_text(&view.segments, &view.blocks)
}

#[test]
fn from_conflicts_blocks_default_to_unresolved() {
    let segments = parse_conflicts("<<<<<<<\nA\n=======\nB\n>>>>>>>\n").unwrap();
    let view = DiffView::from_conflicts("f".into(), segments);
    assert_eq!(view.kind, ViewKind::Conflict);
    assert_eq!(view.blocks.len(), 1);
    assert_eq!(view.blocks[0].resolution, Resolution::Unresolved);
    assert!(!view.all_resolved());
}

#[test]
fn diff3_roundtrip_auto_merge_survives_apply() {
    // A fully auto-merged diff3 has no Conflict segments: the conflict view
    // has zero blocks and its resolved text is just the merged content.
    let segs = diff3("a\nb\nc\n", "a\nB\nc\n", "a\nb\nc\n");
    let view = DiffView::from_conflicts("f".into(), segs);
    assert!(
        view.blocks.is_empty(),
        "auto-merge produces no conflict blocks"
    );
    assert_eq!(
        conflict_result_text(&view.segments, &view.blocks),
        "a\nB\nc\n"
    );
}

#[test]
fn diff3_roundtrip_conflict_resolves_each_way() {
    // A genuine conflict from diff3 round-trips through the view: Left→ours,
    // Right→theirs, Both→ours then theirs.
    let segs = diff3("a\nb\nc\n", "a\nX\nc\n", "a\nY\nc\n");
    let mut view = DiffView::from_conflicts("f".into(), segs);
    assert_eq!(view.blocks.len(), 1);

    view.blocks[0].resolution = Resolution::Left;
    assert_eq!(conflict_result_text(&view.segments, &view.blocks), "a\nX\nc\n");
    view.blocks[0].resolution = Resolution::Right;
    assert_eq!(conflict_result_text(&view.segments, &view.blocks), "a\nY\nc\n");
    view.blocks[0].resolution = Resolution::Both;
    assert_eq!(
        conflict_result_text(&view.segments, &view.blocks),
        "a\nX\nY\nc\n"
    );
}

#[test]
fn diff3_roundtrip_conflict_records_base_for_pane() {
    // The conflict's base line is captured so the Base pane can show it, and
    // `has_base` is set.
    let segs = diff3("a\nb\nc\n", "a\nX\nc\n", "a\nY\nc\n");
    let view = DiffView::from_conflicts("f".into(), segs);
    assert!(view.has_base);
    assert!(view.show_base);
    assert!(view.base_pane_lines.contains(&"b".to_string()));
}

#[test]
fn max_line_width_clamps_hscroll() {
    // Longest line is "abcdef" (6 cols); hscroll clamps there.
    let mut view = DiffView::new("f".into(), "abcdef\n", "abcdef\nx\n");
    view.hscroll_by(100);
    assert_eq!(view.hscroll, 6);
    view.hscroll_by(-100);
    assert_eq!(view.hscroll, 0);
}

#[test]
fn line_width_counts_tabs_as_four() {
    assert_eq!(zmax_term::merge::line_width("a\tb"), 6);
    assert_eq!(zmax_term::merge::line_width(""), 0);
    assert_eq!(zmax_term::merge::line_width("héllo"), 5);
}

#[test]
fn truncate_pad_cuts_or_fills() {
    let mut s = "abcdef".to_string();
    zmax_term::merge::truncate_pad(&mut s, 3);
    assert_eq!(s, "abc");
    let mut s = "ab".to_string();
    zmax_term::merge::truncate_pad(&mut s, 5);
    assert_eq!(s, "ab   ");
    let mut s = "naïve".to_string();
    zmax_term::merge::truncate_pad(&mut s, 3);
    assert_eq!(s, "naï");
}

#[test]
fn change_blocks_start_each_run_once() {
    let rows = align("a\nb\nc\nd\ne\n", "a\nB\nc\nD\nE\n");
    assert_eq!(change_blocks(&rows), vec![1, 3]);
    let blocks = compute_blocks(&rows);
    assert_eq!(blocks.len(), 2);
    assert_eq!(blocks[0].rows, 1..2);
    assert_eq!(blocks[1].rows, 3..5);
}

#[test]
fn unresolved_conflict_without_base_drops_base_marker() {
    let segs = vec![Segment::Conflict {
        ours: vec!["o".to_string()],
        base: vec![],
        theirs: vec!["t".to_string()],
    }];
    assert_eq!(conflict_result_text(&segs, &[]), "<<<<<<<\no\n=======\nt\n>>>>>>>\n");
}

#[test]
fn parse_unclosed_conflict_runs_to_end() {
    assert_eq!(
        parse_conflicts("x\n<<<<<<<\no\n=======\nt\n"),
        Some(vec![
            Segment::Context(vec!["x".to_string()]),
            Segment::Conflict {
                ours: vec!["o".to_string()],
                base: vec![],
                theirs: vec!["t".to_string()],
            },
        ])
    );
}

#[test]
fn result_text_prefers_left_lines_where_asked() {
    let rows = align("a\nx\nc\n", "a\ny\nz\nc\n");
    let mut blocks = compute_blocks(&rows);
    assert_eq!(blocks.len(), 1);
    blocks[0].resolution = Resolution::Left;
    let b = split_lines("a\nx\nc\n");
    let d = split_lines("a\ny\nz\nc\n");
    assert_eq!(result_text(&rows, &blocks, &b, &d), "a\nx\nc\n");
}

#[test]
fn unresolved_conflicts_read_back_as_written() {
    let text = "top\n<<<<<<< HEAD\na\n||||||| base\nb\n=======\nc\n>>>>>>> x\nmid\n<<<<<<<\n=======\nd\n>>>>>>>\n";
    let segs = parse_conflicts(text).unwrap();
    let written = conflict_result_text(&segs, &[]);
    assert_eq!(
        written,
        "top\n<<<<<<<\na\n|||||||\nb\n=======\nc\n>>>>>>>\nmid\n<<<<<<<\n=======\nd\n>>>>>>>\n"
    );
    assert_eq!(parse_conflicts(&written), Some(segs));
}

fn lines(ls: &[&str]) -> Vec<String> {
    ls.iter().map(|l| l.to_string()).collect()
}

#[test]
fn merge_matched_overlapping_edit_is_a_conflict() {
    // Base lines 0 and 2 stand in both sides; line 1 was edited on both.
    let segs = merge_matched(
        &lines(&["a", "b", "c"]),
        &lines(&["a", "X", "c"]),
        &lines(&["a", "Y", "c"]),
        &vec![Some(0), None, Some(2)],
        &vec![Some(0), None, Some(2)],
    );
    assert_eq!(segs, vec![ctx(&["a"]), conflict(&["X"], &["b"], &["Y"]), ctx(&["c"])]);
}

#[test]
fn merge_matched_one_sided_edit_merges() {
    let segs = merge_matched(
        &lines(&["a", "b", "c"]),
        &lines(&["a", "B", "c"]),
        &lines(&["a", "b", "c"]),
        &vec![Some(0), None, Some(2)],
        &vec![Some(0), Some(1), Some(2)],
    );
    assert_eq!(segs, vec![ctx(&["a", "B", "c"])]);
}

#[test]
fn merge_matched_without_stable_lines_is_one_region() {
    // Nothing matches: the whole text is one region, resolved at the end.
    let segs = merge_matched(
        &lines(&["a"]),
        &lines(&["x"]),
        &lines(&["y"]),
        &vec![None],
        &vec![None],
    );
    assert_eq!(segs, vec![conflict(&["x"], &["a"], &["y"])]);
}

#[test]
fn merge_matched_shifted_run_stays_context() {
    // Ours inserted a line at the top, so the stable run sits one line lower
    // in ours; theirs changed the last line.
    let segs = merge_matched(
        &lines(&["a", "b", "c"]),
        &lines(&["n", "a", "b", "c"]),
        &lines(&["a", "b", "C"]),
        &vec![Some(1), Some(2), Some(3)],
        &vec![Some(0), Some(1), None],
    );
    assert_eq!(segs, vec![ctx(&["n", "a", "b", "C"])]);
}

#[test]
fn cell_runs_coalesce_alike_neighbours() {
    let cells = vec![('a', false), ('b', false), ('c', true), ('\t', true), ('d', false)];
    assert_eq!(
        cell_runs(&cells),
        vec![("ab".to_string(), false), ("c\t".to_string(), true), ("d".to_string(), false)]
    );
    assert!(cell_runs(&Vec::new()).is_empty());
    assert_eq!(cell_runs(&vec![('x', true)]), vec![("x".to_string(), true)]);
}

#[test]
fn gutter_labels_right_align_the_number() {
    assert_eq!(gutter_label(0, 4), "  1 ");
    assert_eq!(gutter_label(9, 2), "10 ");
    assert_eq!(gutter_label(4, 0), "5 ");
    assert_eq!(gutter_label(99, 7), "   100 ");
}

#[test]
fn result_rows_mark_and_pick_their_source() {
    assert_eq!(result_marker(true), '\u{258C}');
    assert_eq!(result_marker(false), ' ');
    assert_eq!(result_arrow(None), ' ');
    assert_eq!(result_arrow(Some(Resolution::Left)), '\u{25C0}');
    assert_eq!(result_arrow(Some(Resolution::Right)), '\u{25B6}');
    assert_eq!(result_arrow(Some(Resolution::Both)), '\u{25C6}');
    assert_eq!(result_arrow(Some(Resolution::Unresolved)), '?');
    let changed = DiffRow { left: Some(3), right: Some(5), kind: RowKind::Changed };
    let removed = DiffRow { left: Some(2), right: None, kind: RowKind::Removed };
    assert_eq!(result_source(changed, Some(Resolution::Left)), (Some(3), false));
    assert_eq!(result_source(changed, Some(Resolution::Right)), (Some(5), true));
    assert_eq!(result_source(changed, Some(Resolution::Both)), (Some(5), true));
    assert_eq!(result_source(removed, None), (Some(2), false));
    assert_eq!(result_source(removed, Some(Resolution::Right)), (None, true));
}

#[test]
fn every_block_right_then_left_gives_back_each_side() {
    let base = "one\ntwo\nthree\nfour\nfive\n";
    let doc = "one\n2\nthree\nfour\nsix\nseven\n";
    let rows = zmax_term::merge::align(base, doc);
    let mut blocks = zmax_term::merge::compute_blocks(&rows);
    let bl = zmax_term::merge::split_lines(base);
    let dl = zmax_term::merge::split_lines(doc);
    assert_eq!(zmax_term::merge::result_text(&rows, &blocks, &bl, &dl), doc);
    for b in blocks.iter_mut() {
        b.resolution = zmax_term::merge::Resolution::Left;
    }
    assert_eq!(zmax_term::merge::result_text(&rows, &blocks, &bl, &dl), base);
}

#[test]
fn a_side_equal_to_the_base_merges_whole() {
    let base = "a\nb\nc\nd\n";
    let edited = "a\nB\nc\nnew\nd\ne\n";
    let whole = vec![ctx(&["a", "B", "c", "new", "d", "e"])];
    assert_eq!(diff3(base, edited, base), whole);
    assert_eq!(diff3(base, base, edited), whole);
    assert_eq!(diff3("a\nb\n", "", "a\nb\n"), vec![]);
    assert_eq!(diff3("a\nb\n", "a\nb\n", ""), vec![]);
}
