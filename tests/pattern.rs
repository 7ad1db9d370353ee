use september::pattern::matches_pattern;

#[test]
fn wildcard_suffix_matches_nested_path() {
    assert!(matches_pattern("/blog/*", "/blog/2024/post"));
}

#[test]
fn wildcard_suffix_rejects_other_prefix() {
    assert!(!matches_pattern("/blog/*", "/shop/x"));
}

#[test]
fn exact_pattern_matches_itself() {
    assert!(matches_pattern("exact", "exact"));
}

#[test]
fn exact_pattern_rejects_longer_path() {
    assert!(!matches_pattern("exact", "exactly"));
}

#[test]
fn lone_star_matches_anything() {
    assert!(matches_pattern("*", ""));
    assert!(matches_pattern("*", "/any/thing"));
}

#[test]
fn leading_star_checks_suffix() {
    assert!(matches_pattern("*.gmi", "/notes/index.gmi"));
    assert!(!matches_pattern("*.gmi", "/notes/index.txt"));
}

#[test]
fn interior_fragments_in_order() {
    assert!(matches_pattern("/a*b*c", "/a-x-b-y-c"));
    assert!(!matches_pattern("/a*c*b", "/a-b-c"));
}

#[test]
fn suffix_must_follow_interior_fragment() {
    assert!(!matches_pattern("ab*ba", "aba"));
    assert!(matches_pattern("ab*ba", "abba"));
}

#[test]
fn empty_interior_fragments_are_skipped() {
    assert!(matches_pattern("/x**y", "/x-y"));
}
