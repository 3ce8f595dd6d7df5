use awesome_generator::text::{
    contains_str, decimal_u64, first_segments, prefix_before, replace_all, same_ignoring_case,
    starts_with,
};

#[test]
fn decimal_matches_to_string() {
    for n in [0u64, 7, 10, 42, 1000, 987654321, u64::MAX] {
        assert_eq!(decimal_u64(n), n.to_string());
    }
}

#[test]
fn replace_all_scans_left_to_right() {
    assert_eq!(replace_all("a|b||c", "|", "-"), "a-b--c");
    assert_eq!(replace_all("aaa", "aa", "b"), "ba");
    assert_eq!(replace_all("github.com/Owner/x github.com/Owner", "github.com/Owner", "github.com/new"), "github.com/new/x github.com/new");
}

#[test]
fn substring_and_prefix() {
    assert!(contains_str("https://github.com/a/b", "github.com"));
    assert!(!contains_str("https://gitlab.com/a/b", "github.com"));
    assert!(contains_str("abc", ""));
    assert!(starts_with("https://github.com", "https://github"));
    assert!(!starts_with("http://github.com", "https://github"));
}

#[test]
fn segments_of_a_path() {
    assert_eq!(first_segments("/owner/repo/tree/main", 3), "/owner/repo");
    assert_eq!(first_segments("/owner", 3), "/owner");
    assert_eq!(first_segments("/", 3), "/");
    assert_eq!(prefix_before("owner/repo", '/'), "owner");
    assert_eq!(prefix_before("repo", '/'), "repo");
}

#[test]
fn case_is_ignored_for_owners() {
    assert!(same_ignoring_case("BombSimon", "bombsimon"));
    assert!(!same_ignoring_case("bombsimon", "someone"));
}
