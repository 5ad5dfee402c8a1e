use sn::strings::{decimal_string, last_field_str, line_count_u16, parse_unsigned_str, repeat_str, split_lines};

#[test]
fn split_lines_is_str_lines() {
    for s in ["", "a", "a\n", "\n", "a\r\nb", "a\rb\r", "\n\n", "x\r\n", "a\n\r\n"] {
        let ours = split_lines(s);
        let expected: Vec<String> = s.lines().map(|l| l.to_string()).collect();
        assert_eq!(ours, expected, "{s:?}");
        assert_eq!(line_count_u16(s) as usize, expected.len(), "{s:?}");
    }
}

#[test]
fn decimals_and_repeats() {
    assert_eq!(decimal_string(0), "0");
    assert_eq!(decimal_string(907), "907");
    assert_eq!(decimal_string(usize::MAX), usize::MAX.to_string());
    assert_eq!(repeat_str("ab", 3), "ababab");
    assert_eq!(repeat_str("ab", 0), "");
}

#[test]
fn unsigned_numerals() {
    assert_eq!(parse_unsigned_str("255", 255), Some(255));
    assert_eq!(parse_unsigned_str("256", 255), None);
    assert_eq!(parse_unsigned_str("007", 255), Some(7));
    assert_eq!(parse_unsigned_str("+", 255), None);
    assert_eq!(parse_unsigned_str("1a", 255), None);
    assert_eq!(parse_unsigned_str("99999999999", 65535), None);
    for s in ["0", "15", "250", "+3", "-3", "", "x", "300", "+"] {
        assert_eq!(parse_unsigned_str(s, 255), s.parse::<u8>().ok().map(u16::from), "{s:?}");
    }
}

#[test]
fn last_field_after_semicolon() {
    assert_eq!(last_field_str("0;15"), "15");
    assert_eq!(last_field_str("abc"), "abc");
    assert_eq!(last_field_str("a;"), "");
    for s in ["0;15", "abc", "a;", ";", "1;2;3"] {
        assert_eq!(last_field_str(s), s.rsplit(';').next().unwrap(), "{s:?}");
    }
}

