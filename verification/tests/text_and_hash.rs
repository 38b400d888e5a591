use linefetch::hashing::url_to_hash;
use linefetch::text::count_lines;
use linefetch::text::is_http_url;
use linefetch::text::parse_usize;

#[test]
fn hash_of_known_text() {
    // SHA-256 of "abc", hex-encoded: a published test vector.
    let h = url_to_hash("abc");
    assert_eq!(
        h,
        "ba7816bf8f01cfea414140de5dae2223b00361a396177a9cb410ff61f20015ad"
    );
    assert_eq!(h.len(), 64);
}

#[test]
fn hash_is_deterministic() {
    let url = "http://example.test/some/page?q=1";
    let first = url_to_hash(url);
    let second = url_to_hash(url);
    assert_eq!(first, second);
    let other = url_to_hash("http://example.test/some/page?q=2");
    assert_ne!(first, other);
}

#[test]
fn line_count_three_lines() {
    assert_eq!(count_lines("a\nb\nc"), 3);
}

#[test]
fn line_count_empty_body() {
    assert_eq!(count_lines(""), 0);
}

#[test]
fn line_count_two_lines_unterminated() {
    assert_eq!(count_lines("test!!\nThis is a test."), 2);
}

#[test]
fn line_count_trailing_newline() {
    assert_eq!(count_lines("a\n"), 1);
    assert_eq!(count_lines("\n"), 1);
    assert_eq!(count_lines("a\r\nb"), 2);
}

#[test]
fn parse_usize_cases() {
    assert_eq!(parse_usize(b"123"), Some(123));
    assert_eq!(parse_usize(b"0"), Some(0));
    assert_eq!(parse_usize(b""), None);
    assert_eq!(parse_usize(b"12x"), None);
    assert_eq!(parse_usize(b"-5"), None);
    assert_eq!(parse_usize(b"99999999999999999999999999"), None);
}

#[test]
fn http_prefix_rule() {
    assert!(is_http_url("http://example.test"));
    assert!(is_http_url("https://example.test"));
    assert!(is_http_url("http"));
    assert!(!is_http_url("htt"));
    assert!(!is_http_url("urls.txt"));
    assert!(!is_http_url(""));
}
