use podcast_proxy::text::contains_substr;
use podcast_proxy::text::split_lines;
use podcast_proxy::text::u64_string;

#[test]
fn decimal_rendering() {
    assert_eq!(u64_string(0), "0");
    assert_eq!(u64_string(5), "5");
    assert_eq!(u64_string(12345), "12345");
    assert_eq!(u64_string(1073741824), "1073741824");
    assert_eq!(u64_string(u64::MAX), "18446744073709551615");
}

#[test]
fn substring_search() {
    assert!(contains_substr("ERROR: HTTPError 404: Not Found", "HTTPError 404"));
    assert!(!contains_substr("ERROR: something else", "HTTPError 404"));
    assert!(contains_substr("abc", ""));
    assert!(contains_substr("", ""));
    assert!(!contains_substr("", "a"));
    assert!(contains_substr("abc", "abc"));
    assert!(!contains_substr("abc", "abcd"));
}

#[test]
fn line_splitting() {
    assert_eq!(split_lines("a\nb\n"), vec!["a", "b"]);
    assert_eq!(split_lines("a\nb"), vec!["a", "b"]);
    assert_eq!(split_lines("a\r\nb"), vec!["a", "b"]);
    assert_eq!(split_lines(""), Vec::<String>::new());
    assert_eq!(split_lines("a"), vec!["a"]);
    assert_eq!(split_lines("a\n\nb"), vec!["a", "", "b"]);
    assert_eq!(split_lines("\n"), vec![""]);
}
