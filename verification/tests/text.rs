use mmb::text::{contains, find, split_once};

#[test]
fn find_first_occurrence() {
    assert_eq!(find("a/b/c", "/"), Some(1));
    assert_eq!(find("abc", "bc"), Some(1));
    assert_eq!(find("abc", "x"), None);
    assert_eq!(find("ab", "abc"), None);
    assert_eq!(find("abc", ""), Some(0));
}

#[test]
fn split_once_at_first_delimiter() {
    assert_eq!(split_once("btc/usdt", "/"), Some(("btc", "usdt")));
    assert_eq!(split_once("a::b::c", "::"), Some(("a", "b::c")));
    assert_eq!(split_once("btcusdt", "/"), None);
    assert_eq!(split_once("ü/é", "/"), Some(("ü", "é")));
}

#[test]
fn contains_pattern() {
    assert!(contains("xx executionReport yy", "executionReport"));
    assert!(!contains("execution", "executionReport"));
}
