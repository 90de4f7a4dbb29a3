use frosted::watch::{
    is_relevant_change, select_path, should_parse_path, str_ends_with, ChangeKind,
};

fn exts(v: &[&str]) -> Vec<String> {
    v.iter().map(|s| s.to_string()).collect()
}

#[test]
fn dart_file_is_parsed() {
    assert!(select_path("lib/a.dart", "dart", "copy.gen.dart", &exts(&["dart"]), false));
}

#[test]
fn generated_file_is_not_parsed() {
    assert!(!select_path(
        "lib/a.copy.gen.dart",
        "dart",
        "copy.gen.dart",
        &exts(&["dart"]),
        false
    ));
}

#[test]
fn other_extension_is_not_parsed() {
    assert!(!select_path("lib/a.rs", "rs", "copy.gen.dart", &exts(&["dart"]), false));
    assert!(!select_path("lib/a.dart", "dart", "copy.gen.dart", &exts(&[]), false));
}

#[test]
fn ignored_file_is_not_parsed() {
    assert!(!select_path("lib/a.dart", "dart", "copy.gen.dart", &exts(&["dart"]), true));
}

#[test]
fn ignore_patterns_are_matched() {
    let patterns = exts(&["^build/"]);
    assert!(!should_parse_path(
        "build/a.dart",
        "dart",
        "copy.gen.dart",
        &exts(&["dart"]),
        &patterns
    ));
    assert!(should_parse_path(
        "lib/a.dart",
        "dart",
        "copy.gen.dart",
        &exts(&["dart"]),
        &patterns
    ));
}

#[test]
fn suffix_test() {
    assert!(str_ends_with("a.copy.gen.dart", "gen.dart"));
    assert!(str_ends_with("x", ""));
    assert!(!str_ends_with("dart", "a.dart"));
}

#[test]
fn empty_pattern_ignores_every_path() {
    let patterns = exts(&[""]);
    assert!(!should_parse_path(
        "lib/a.dart",
        "dart",
        "copy.gen.dart",
        &exts(&["dart"]),
        &patterns
    ));
}

#[test]
fn invalid_pattern_ignores_nothing() {
    let patterns = exts(&["(unclosed"]);
    assert!(should_parse_path(
        "lib/(unclosed.dart",
        "dart",
        "copy.gen.dart",
        &exts(&["dart"]),
        &patterns
    ));
}

#[test]
fn only_content_changes_and_creations_count() {
    assert!(is_relevant_change(ChangeKind::ContentModified));
    assert!(is_relevant_change(ChangeKind::FileCreated));
    assert!(!is_relevant_change(ChangeKind::Other));
}
