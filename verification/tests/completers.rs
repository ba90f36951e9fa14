use zmax_term::completers::wild_prefix_match;

#[test]
fn wildignorecase_folds_case_only_when_asked() {
    // vim matches the typed prefix case-sensitively -- `SRC` is not `src`.
    assert!(wild_prefix_match("src", "sr", false));
    assert!(!wild_prefix_match("src", "SR", false));
    // `wildignorecase` folds case, so it is.
    assert!(wild_prefix_match("src", "SR", true));
    assert!(wild_prefix_match("SRC", "sr", true));
    // A candidate that does not start with what was typed never matches.
    assert!(!wild_prefix_match("src", "rc", true));
}

#[test]
fn case_folding_reaches_beyond_ascii() {
    assert!(wild_prefix_match("École", "éc", true));
    assert!(!wild_prefix_match("École", "éc", false));
    assert!(wild_prefix_match("anything", "", false));
    assert!(!wild_prefix_match("ab", "abc", true));
}
