use inkfinite_desktop::{matches_pattern, DEFAULT_PATTERN};

#[test]
fn suffix_pattern_needs_exact_ending() {
    assert!(matches_pattern("notes.suffix.json", "suffix.json"));
    assert!(matches_pattern("suffix.json", "suffix.json"));
    assert!(!matches_pattern("suffix.json.bak", "suffix.json"));
    assert!(!matches_pattern("notes.SUFFIX.JSON", "suffix.json"));
    assert!(!matches_pattern("json", "suffix.json"));
}

#[test]
fn star_pattern_matches_substring() {
    assert!(matches_pattern("amidb", "*mid*"));
    assert!(matches_pattern("mid", "*mid*"));
    assert!(matches_pattern("middle.txt", "*mid*"));
    assert!(!matches_pattern("aMIDb", "*mid*"));
    assert!(!matches_pattern("mi-d", "*mid*"));
}

#[test]
fn star_anywhere_is_stripped() {
    assert!(matches_pattern("report.inkfinite.json.old", "*.inkfinite.json"));
    // The stars go, and what is left must occur as it stands.
    assert!(matches_pattern("xacx", "a*c"));
    assert!(!matches_pattern("abc", "a*c"));
}

#[test]
fn bare_star_and_empty_pattern_match_everything() {
    assert!(matches_pattern("anything", "*"));
    assert!(matches_pattern("", "*"));
    assert!(matches_pattern("anything", ""));
}

#[test]
fn default_pattern_is_inkfinite_json() {
    assert_eq!(DEFAULT_PATTERN, "*.inkfinite.json");
    assert!(matches_pattern("drawing.inkfinite.json", DEFAULT_PATTERN));
    assert!(!matches_pattern("drawing.INKFINITE.JSON", DEFAULT_PATTERN));
}

#[test]
fn non_ascii_names_are_compared_by_character() {
    assert!(matches_pattern("été.inkfinite.json", DEFAULT_PATTERN));
    assert!(matches_pattern("naïve", "*ïv*"));
    assert!(!matches_pattern("naive", "*ïv*"));
}
