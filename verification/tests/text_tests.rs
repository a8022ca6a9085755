use clickdown::text::{
    concat3, contains_str, hex_pair_or_zero, join_strings, pad_right_str, parse_i64, parse_usize,
    string_of, usize_to_string,
};

#[test]
fn decimal_formatting() {
    assert_eq!(usize_to_string(0), "0");
    assert_eq!(usize_to_string(7), "7");
    assert_eq!(usize_to_string(12345), "12345");
    assert_eq!(usize_to_string(usize::MAX), usize::MAX.to_string());
}

#[test]
fn parse_usize_accepts_what_std_accepts() {
    assert_eq!(parse_usize("12"), Some(12));
    assert_eq!(parse_usize("+12"), Some(12));
    assert_eq!(parse_usize("007"), Some(7));
    assert_eq!(parse_usize(""), None);
    assert_eq!(parse_usize("+"), None);
    assert_eq!(parse_usize("-1"), None);
    assert_eq!(parse_usize("1a"), None);
    assert_eq!(parse_usize(" 1"), None);
    assert_eq!(parse_usize("18446744073709551615"), Some(18446744073709551615));
    assert_eq!(parse_usize("18446744073709551616"), None);
    for s in ["0", "+0", "42", "-0", "++1", "99999999999999999999", "abc"] {
        assert_eq!(parse_usize(s), s.parse::<usize>().ok(), "{}", s);
    }
}

#[test]
fn parse_i64_accepts_what_std_accepts() {
    assert_eq!(parse_i64("-9223372036854775808"), Some(i64::MIN));
    assert_eq!(parse_i64("9223372036854775807"), Some(i64::MAX));
    assert_eq!(parse_i64("9223372036854775808"), None);
    assert_eq!(parse_i64("-9223372036854775809"), None);
    assert_eq!(parse_i64("-"), None);
    assert_eq!(parse_i64("+5"), Some(5));
    for s in ["0", "-0", "+-1", "1700000000000", "", "12 ", "-12"] {
        assert_eq!(parse_i64(s), s.parse::<i64>().ok(), "{}", s);
    }
}

#[test]
fn decimal_reads_back() {
    for n in [0usize, 1, 9, 10, 99, 100, 65535, usize::MAX] {
        assert_eq!(parse_usize(&usize_to_string(n)), Some(n));
    }
}

#[test]
fn substring_search() {
    assert!(contains_str("fix the bug", "bug"));
    assert!(contains_str("bug", "bug"));
    assert!(contains_str("anything", ""));
    assert!(!contains_str("bu", "bug"));
    assert!(!contains_str("feature", "bug"));
    assert!(contains_str("héllo wörld", "ö"));
}

#[test]
fn padding_and_joining() {
    assert_eq!(pad_right_str("ab", 5), "ab   ");
    assert_eq!(pad_right_str("abcdef", 3), "abcdef");
    assert_eq!(pad_right_str("é", 3), "é  ");
    let parts = vec!["a".to_string(), "b".to_string(), "c".to_string()];
    assert_eq!(join_strings(&parts, ","), "a,b,c");
    assert_eq!(join_strings(&Vec::new(), ","), "");
    assert_eq!(concat3("x", "-", "y"), "x-y");
    assert_eq!(string_of(&['h', 'i']), "hi");
}

#[test]
fn hex_channels() {
    assert_eq!(hex_pair_or_zero(b'f', b'f'), 255);
    assert_eq!(hex_pair_or_zero(b'7', b'B'), 0x7b);
    assert_eq!(hex_pair_or_zero(b'+', b'a'), 10);
    assert_eq!(hex_pair_or_zero(b'-', b'1'), 0);
    assert_eq!(hex_pair_or_zero(b'g', b'0'), 0);
    for pair in ["ff", "00", "+a", "-1", "g0", "1+", "A9"] {
        let b = pair.as_bytes();
        assert_eq!(hex_pair_or_zero(b[0], b[1]), u8::from_str_radix(pair, 16).unwrap_or(0), "{}", pair);
    }
}
