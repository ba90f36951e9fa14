use zmax_term::keys::Key;
use zmax_term::projectile_review::{parse_rg_output, Action, Asking, Match, Review};

fn m(file: &str, line: usize, text: &str) -> Match {
    Match { file: file.to_string(), line, text: text.to_string(), enabled: true }
}

fn review() -> Review {
    let mut r = Review::replace("/p".into(), "foo".into(), "bar".into(), false);
    r.found(vec![m("/p/a", 1, "foo"), m("/p/a", 4, "foo foo"), m("/p/b", 2, "x foo"), m("/p/c", 9, "foo")]);
    r
}

#[test]
fn rg_output_reads_as_matches_under_the_root() {
    let out = "a.rs:3:let foo = 1;\r\nsrc/b.rs:10:foo: bar\nno colon here\nc.rs:x:bad number\n/abs.rs:+7:t\n";
    let ms = parse_rg_output("/root/p", out);
    let got: Vec<(String, usize, String)> = ms.iter().map(|m| (m.file.clone(), m.line, m.text.clone())).collect();
    assert_eq!(
        got,
        vec![
            ("/root/p/a.rs".to_string(), 3, "let foo = 1;".to_string()),
            ("/root/p/src/b.rs".to_string(), 10, "foo: bar".to_string()),
            ("/abs.rs".to_string(), 7, "t".to_string()),
        ]
    );
    assert!(ms.iter().all(|m| m.enabled));
    assert!(parse_rg_output("/r/", "x:99999999999999999999999:t").is_empty());
    assert_eq!(parse_rg_output("/r/", "x:1:t")[0].file, "/r/x");
}

#[test]
fn found_resets_and_counts() {
    let r = review();
    assert_eq!(r.status, "4 match(es)");
    assert_eq!(r.selected, 0);
    assert!(!r.stale);
}

#[test]
fn selection_and_file_steps() {
    let mut r = review();
    r.move_selection(10);
    assert_eq!(r.selected, 3);
    r.move_selection(-2);
    assert_eq!(r.selected, 1);
    // Back to the first match of the previous file from /p/b.
    r.handle_key(Key::Alt('n'));
    assert_eq!(r.selected, 2);
    r.handle_key(Key::Alt('p'));
    assert_eq!(r.selected, 0);
    r.handle_key(Key::Alt('p'));
    assert_eq!(r.selected, 0);
}

#[test]
fn toggles_and_apply_gate() {
    let mut r = review();
    r.handle_key(Key::Char('f'));
    assert!(!r.matches[0].enabled && !r.matches[1].enabled && r.matches[2].enabled);
    assert_eq!(r.enabled_count(), 2);
    r.handle_key(Key::Char('t'));
    assert!(r.matches[0].enabled);
    // Not all of the file is on, so the whole file turns on.
    r.handle_key(Key::Char('f'));
    assert!(r.matches[0].enabled && r.matches[1].enabled);
    assert_eq!(r.handle_key(Key::Char('!')), Action::Apply);
    let mut s = Review::search("/p".into(), "foo".into(), true);
    s.found(vec![m("/p/a", 1, "foo")]);
    assert_eq!(s.handle_key(Key::Char('!')), Action::Nothing);
    assert_eq!(s.status, "This is a read-only search review");
}

#[test]
fn prompts_set_the_replacement_and_ask_for_filters() {
    let mut r = review();
    r.handle_key(Key::Char('r'));
    for c in "baz".chars() {
        r.handle_key(Key::Char(c));
    }
    assert_eq!(r.handle_key(Key::Enter), Action::Nothing);
    assert_eq!(r.replacement.as_deref(), Some("baz"));
    assert_eq!(r.status, "Replacement set");
    r.handle_key(Key::Char('d'));
    assert!(matches!(r.asking, Some((Asking::FlushMatches, _))));
    r.handle_key(Key::Char('x'));
    r.handle_key(Key::Char('y'));
    r.handle_key(Key::Backspace);
    r.selected = 3;
    assert_eq!(r.handle_key(Key::Enter), Action::Nothing);
    // "x foo" is flushed.
    assert_eq!(r.matches.len(), 3);
    assert_eq!(r.matches[2].file, "/p/c");
    assert_eq!(r.selected, 2);
    assert_eq!(r.status, "1 match(es) removed");
    // Keep only the files shown as `c` under the root.
    r.handle_key(Key::Char('K'));
    for c in "^c$".chars() {
        r.handle_key(Key::Char(c));
    }
    r.handle_key(Key::Enter);
    assert_eq!(r.matches.len(), 1);
    assert_eq!(r.status, "2 match(es) removed");
    // An invalid regexp changes nothing.
    r.handle_key(Key::Char('k'));
    r.handle_key(Key::Char('('));
    r.handle_key(Key::Enter);
    assert_eq!(r.matches.len(), 1);
    assert_eq!(r.status, "Invalid regexp: (");
}

#[test]
fn the_search_regexp_follows_the_switches() {
    let mut r = Review::replace("/p".into(), "a.b".into(), "x".into(), false);
    assert_eq!(r.regex_source(), "a\\.b");
    r.word = true;
    assert_eq!(r.regex_source(), "\\b(?:a\\.b)\\b");
    r.regexp = true;
    assert_eq!(r.regex_source(), "\\b(?:a.b)\\b");
}

#[test]
fn rewriting_replaces_only_the_listed_lines() {
    let r = Review::replace("/p".into(), "foo".into(), "bar".into(), false);
    let (text, n) = r.rewrite_file("foo\nfoo foo\nfoo", &vec![1, 3]).unwrap();
    assert_eq!(text, "bar\nfoo foo\nbar");
    assert_eq!(n, 2);
    let (text, n) = r.rewrite_file("foo foo\r\nx\n", &vec![1]).unwrap();
    assert_eq!(text, "bar bar\nx\n");
    assert_eq!(n, 2);
    let mut ci = Review::replace("/p".into(), "FOO".into(), "z".into(), false);
    ci.set_case_sensitive(false);
    assert_eq!(ci.rewrite_file("foo", &vec![1]).unwrap().0, "z");
    let s = Review::search("/p".into(), "foo".into(), false);
    assert!(s.rewrite_file("foo", &vec![1]).is_none());
    let bad = Review::replace("/p".into(), "(".into(), "z".into(), true);
    assert!(bad.rewrite_file("(", &vec![1]).is_none());
}

#[test]
fn switches_owe_a_search() {
    let mut r = review();
    assert_eq!(r.handle_key(Key::Char('c')), Action::Search);
    assert!(!r.case_sensitive && r.stale);
    let mut r = review();
    r.set_case_sensitive(true);
    assert!(!r.stale);
    r.set_case_sensitive(false);
    assert!(r.stale);
    assert_eq!(r.handle_key(Key::Enter), Action::Visit("/p/a".to_string(), 1));
    assert_eq!(r.handle_key(Key::Esc), Action::Quit);
}

#[test]
fn rows_head_each_file_then_its_matches() {
    let mut r = review();
    r.matches[1].enabled = false;
    r.matches[1].text = "foo foo  \t".to_string();
    let rows = r.rows();
    let want: Vec<(String, Option<usize>)> = vec![
        ("a".to_string(), None),
        ("  [x]     1: foo".to_string(), Some(0)),
        ("  [ ]     4: foo foo".to_string(), Some(1)),
        ("b".to_string(), None),
        ("  [x]     2: x foo".to_string(), Some(2)),
        ("c".to_string(), None),
        ("  [x]     9: foo".to_string(), Some(3)),
    ];
    assert_eq!(rows, want);
}

#[test]
fn search_review_rows_carry_no_mark_and_wide_numbers_stand() {
    let mut r = Review::search("/p".into(), "foo".into(), false);
    r.found(vec![m("/elsewhere/z", 1234567, "foo")]);
    assert_eq!(r.rows(), vec![("/elsewhere/z".to_string(), None), ("  [ ] 1234567: foo".to_string(), Some(0))]);
}

#[test]
fn export_lists_the_enabled_matches() {
    let mut r = review();
    r.matches[2].enabled = false;
    r.matches[0].text = "foo   ".to_string();
    assert_eq!(r.export_text(), "a:1: foo\na:4: foo foo\nc:9: foo\n");
    assert_eq!(r.handle_key(Key::Char('e')), Action::Export("a:1: foo\na:4: foo foo\nc:9: foo\n".to_string()));
}

#[test]
fn export_of_nothing_is_reported() {
    let mut r = review();
    for k in 0..r.matches.len() {
        r.matches[k].enabled = false;
    }
    assert_eq!(r.export_text(), "");
    assert_eq!(r.handle_key(Key::Char('e')), Action::Nothing);
    assert_eq!(r.status, "Nothing to export");
}

#[test]
fn toggling_a_match_twice_restores_it() {
    let mut r = review();
    r.move_selection(2);
    r.handle_key(Key::Char('t'));
    assert!(!r.matches[2].enabled);
    assert!(r.matches[0].enabled && r.matches[1].enabled && r.matches[3].enabled);
    r.handle_key(Key::Char(' '));
    assert!(r.matches.iter().all(|m| m.enabled));
}
