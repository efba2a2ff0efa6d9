use confluence_cli::text::{
    decimal_string, eq_ignore_ascii_case, parse_usize, replace_str, to_ascii_lowercase, trim_str,
};

#[test]
fn decimal_and_parse_round_trip() {
    assert_eq!(decimal_string(0), "0");
    assert_eq!(decimal_string(409), "409");
    assert_eq!(decimal_string(u64::MAX), u64::MAX.to_string());
    assert_eq!(parse_usize("409"), Some(409));
    assert_eq!(parse_usize("+7"), Some(7));
    assert_eq!(parse_usize(""), None);
    assert_eq!(parse_usize("+"), None);
    assert_eq!(parse_usize("1a"), None);
    assert_eq!(parse_usize(&usize::MAX.to_string()), Some(usize::MAX));
    assert_eq!(parse_usize("18446744073709551616"), None);
}

#[test]
fn trimming_and_case() {
    assert_eq!(trim_str("\u{3000} a b \t\n"), "a b");
    assert_eq!(to_ascii_lowercase("HTTPS://Ex.É"), "https://ex.É");
    assert!(eq_ignore_ascii_case("YeS", "yes"));
    assert!(!eq_ignore_ascii_case("ye", "yes"));
}

#[test]
fn replacement_matches_std() {
    for (s, p, r) in [
        ("aaa", "aa", "b"),
        ("abc", "", "-"),
        ("token token", "token", "[redacted]"),
        ("", "x", "y"),
    ] {
        assert_eq!(replace_str(s, p, r), s.replace(p, r));
    }
}
