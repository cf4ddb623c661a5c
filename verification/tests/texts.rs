use fix_schema::text::{chars_of, contains};

#[test]
fn chars_come_in_order() {
    assert_eq!(chars_of("abc"), vec!['a', 'b', 'c']);
    assert_eq!(chars_of(""), Vec::<char>::new());
    assert_eq!(chars_of("é√"), vec!['é', '√']);
}

#[test]
fn a_run_is_found_at_the_start_inside_and_at_the_end() {
    assert!(contains("limit: 255", "limit"));
    assert!(contains("limit: 255", "it: 2"));
    assert!(contains("limit: 255", "255"));
    assert!(contains("limit: 255", "limit: 255"));
}

#[test]
fn the_empty_run_is_found_everywhere() {
    assert!(contains("", ""));
    assert!(contains("abc", ""));
}

#[test]
fn a_longer_run_is_not_found() {
    assert!(!contains("", "a"));
    assert!(!contains("abc", "abcd"));
}

#[test]
fn a_run_must_be_contiguous() {
    assert!(!contains("limit:  255", "limit: 255"));
    assert!(!contains("l-i-m-i-t", "limit"));
    assert!(!contains("abc", "ac"));
}

#[test]
fn a_run_is_found_after_a_false_start() {
    assert!(contains("aaab", "aab"));
    assert!(contains("ababac", "abac"));
    assert!(!contains("ababab", "abac"));
}

#[test]
fn characters_beyond_ascii_count_as_one() {
    assert!(contains("größe: 255", "ße: 2"));
    assert!(!contains("große", "größe"));
}
