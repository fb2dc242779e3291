use edit_history::markup::bytes_equal;
use edit_history::text::{chars_of, decimal_string, parse_u64, replace, str_equal, trim};

#[test]
fn numbers_are_read_like_the_standard_library_reads_them() {
    let cases = [
        "0", "7", "007", "+5", "+", "", "-1", "12a", " 12", "12 ", "1_000", "++1",
        "18446744073709551615", "18446744073709551616", "99999999999999999999999",
        "+18446744073709551615", "٣", "1.0", "0x10",
    ];
    for case in cases {
        assert_eq!(parse_u64(case), case.parse::<u64>().ok(), "{:?}", case);
    }
    assert_eq!(parse_u64("42"), Some(42));
    assert_eq!(parse_u64("18446744073709551615"), Some(u64::MAX));
    assert_eq!(parse_u64("18446744073709551616"), None);
}

#[test]
fn numbers_are_written_in_decimal() {
    for n in [0u64, 1, 9, 10, 11, 99, 100, 255, 256, 1000, 123456789, u64::MAX] {
        assert_eq!(decimal_string(n), n.to_string());
    }
}

#[test]
fn trim_removes_the_whitespace_around() {
    for case in ["", " ", "a", " a", "a ", "  a b\t\n", "\u{2003}x\u{a0}", "\r\n", "a\u{200b}"] {
        assert_eq!(trim(case), case.trim(), "{:?}", case);
    }
}

#[test]
fn replace_changes_every_occurrence() {
    let cases = [
        ("a.xml", "xml", "json"),
        ("xmlxml", "xml", "json"),
        ("xxml", "xml", "json"),
        ("xm", "xml", "json"),
        ("", "xml", "json"),
        ("aaaa", "aa", "b"),
        ("aaa", "aa", "b"),
        ("abc", "abc", ""),
        ("héllo wörld", "ö", "oe"),
        ("abc", "d", "e"),
    ];
    for (s, pattern, with) in cases {
        assert_eq!(replace(s, pattern, with), s.replace(pattern, with), "{:?}", s);
    }
    assert_eq!(replace("abc", "", "x"), "abc");
}

#[test]
fn strings_and_bytes_are_compared_by_content() {
    assert!(str_equal("", ""));
    assert!(str_equal("Q1", "Q1"));
    assert!(!str_equal("Q1", "Q2"));
    assert!(!str_equal("Q1", "Q10"));
    assert!(str_equal("é", "\u{e9}"));
    assert!(bytes_equal(b"ab", b"ab"));
    assert!(!bytes_equal(b"ab", b"abc"));
    assert!(!bytes_equal(b"ab", b"ac"));
    assert_eq!(chars_of("aé𝄞"), vec!['a', 'é', '𝄞']);
}
