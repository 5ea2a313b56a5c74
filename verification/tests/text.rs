use patchbot::text::{i64_to_string, is_whitespace, split_lines, str_eq, trim_str, u64_to_string};

#[test]
fn decimal_strings() {
    assert_eq!(u64_to_string(0), "0");
    assert_eq!(u64_to_string(1234567890), "1234567890");
    assert_eq!(u64_to_string(u64::MAX), u64::MAX.to_string());
    assert_eq!(i64_to_string(-42), "-42");
    assert_eq!(i64_to_string(i64::MIN), i64::MIN.to_string());
    assert_eq!(i64_to_string(i64::MAX), i64::MAX.to_string());
}

#[test]
fn trimming_matches_std() {
    for s in ["", "  ", " a ", "\u{3000}x\u{a0}", "\t\nhello world\r\n", "a b", "\u{85}y"] {
        assert_eq!(trim_str(s), s.trim());
    }
    assert!(is_whitespace('\u{2009}'));
    assert!(!is_whitespace('x'));
}

#[test]
fn lines_match_std() {
    for s in ["", "a", "a\n", "a\r\nb", "a\n\nb\n", "\n", "x\r", "x\r\r\n", "one\ntwo\r\nthree"] {
        let expected: Vec<String> = s.lines().map(|l| l.to_string()).collect();
        assert_eq!(split_lines(s), expected, "{:?}", s);
    }
}

#[test]
fn string_equality() {
    assert!(str_eq("SH", "SH"));
    assert!(!str_eq("SH", "S"));
    assert!(!str_eq("ab", "ac"));
}
