use git_read_only_proxy::text::chars_of;
use git_read_only_proxy::text::decimal_of;
use git_read_only_proxy::text::has_piece;
use git_read_only_proxy::text::has_suffix;
use git_read_only_proxy::text::join_host_and_port;
use git_read_only_proxy::text::same;
use git_read_only_proxy::text::trimmed_end;

#[test]
fn texts_are_compared_whole() {
    assert!(same("", ""));
    assert!(same("abc", "abc"));
    assert!(!same("abc", "ab"));
    assert!(!same("abc", "abd"));
    assert!(same("é", "é"));
    assert!(!same("é", "e"));
}

#[test]
fn suffixes_are_found() {
    assert!(has_suffix("abc", "bc"));
    assert!(has_suffix("abc", ""));
    assert!(has_suffix("abc", "abc"));
    assert!(!has_suffix("abc", "ab"));
    assert!(!has_suffix("bc", "abc"));
    assert!(has_suffix("xé", "é"));
}

#[test]
fn ends_are_trimmed() {
    assert_eq!(trimmed_end("a//", '/'), "a");
    assert_eq!(trimmed_end("/a/b", '/'), "/a/b");
    assert_eq!(trimmed_end("///", '/'), "");
    assert_eq!(trimmed_end("", '/'), "");
    assert_eq!(trimmed_end("é/", '/'), "é");
}

#[test]
fn pieces_are_found() {
    assert!(has_piece("a&b&c", '&', "a"));
    assert!(has_piece("a&b&c", '&', "b"));
    assert!(has_piece("a&b&c", '&', "c"));
    assert!(!has_piece("a&b&c", '&', "a&b"));
    assert!(!has_piece("ab", '&', "a"));
    assert!(has_piece("", '&', ""));
    assert!(has_piece("a&", '&', ""));
    assert!(!has_piece("a", '&', ""));
}

#[test]
fn numbers_are_written_in_decimal() {
    assert_eq!(decimal_of(0), "0");
    assert_eq!(decimal_of(7), "7");
    assert_eq!(decimal_of(1090), "1090");
    assert_eq!(join_host_and_port("h", 8080), "h:8080");
    assert_eq!(chars_of("aé"), vec!['a', 'é']);
}
