use accessforge::versioning::{is_newer_given, strictly_newer_given, tag_order_given};
use accessforge::versioning::{compare_tags, is_newer, lex_compare, strictly_newer};

#[test]
fn tags_compare_as_versions() {
    assert_eq!(compare_tags("v1.10.0", "v1.9.0"), 1);
    assert_eq!(compare_tags("1.0.0", "v1.0.0"), 0);
    assert_eq!(compare_tags("v0.9", "v1.0"), -1);
}

#[test]
fn newer_versions() {
    assert!(is_newer("1.0.0", "1.0.1"));
    assert!(!is_newer("1.0.1", "1.0.0"));
    assert!(!is_newer("2.0.0", "2.0.0"));
    assert!(strictly_newer("0.1.0", "0.2.0"));
    assert!(!strictly_newer("0.2.0", "0.2.0"));
}

#[test]
fn lexical_order() {
    assert_eq!(lex_compare("abc", "abd"), -1);
    assert_eq!(lex_compare("abc", "abc"), 0);
    assert_eq!(lex_compare("abcd", "abc"), 1);
}

#[test]
fn decisions_after_versioning_answers() {
    assert!(is_newer_given("1.0", "2.0", Some(1)));
    assert!(!is_newer_given("1.0", "2.0", Some(0)));
    assert!(is_newer_given("abc", "abd", None));
    assert!(!is_newer_given("abc", "abc", None));
    assert!(strictly_newer_given(Some(1)));
    assert!(!strictly_newer_given(Some(-1)));
    assert!(!strictly_newer_given(None));
    assert_eq!(tag_order_given("v1", "v2", true, true, -1), -1);
    assert_eq!(tag_order_given("x", "v2", false, true, 0), -1);
    assert_eq!(tag_order_given("v1", "y", true, false, 0), 1);
    assert_eq!(tag_order_given("b", "a", false, false, 0), 1);
}
