use yit::text::{chars_of, i64_pad2, i64_to_decimal, last_line_of, trim, u64_to_decimal};

#[test]
fn decimal_numbers() {
    assert_eq!(u64_to_decimal(0), "0");
    assert_eq!(u64_to_decimal(1234567890), "1234567890");
    assert_eq!(u64_to_decimal(u64::MAX), u64::MAX.to_string());
    assert_eq!(i64_to_decimal(-42), "-42");
    assert_eq!(i64_to_decimal(i64::MIN), i64::MIN.to_string());
}

#[test]
fn two_digit_numbers_match_format() {
    for n in [-100i64, -10, -5, -1, 0, 1, 9, 10, 99, 100, 12345] {
        assert_eq!(i64_pad2(n), format!("{:02}", n));
    }
}

#[test]
fn last_lines_match_std() {
    for s in ["", "a", "a\n", "a\nb", "a\nb\n", "a\r\nb\r\n", "a\r", "\n", "\n\n", "x\n\r\n", "a\rb"] {
        assert_eq!(last_line_of(s), s.lines().last().map(|l| l.to_string()), "input {s:?}");
    }
}

#[test]
fn trim_matches_std() {
    for s in ["", "  ", " a ", "\t\na b\r\n", "\u{3000}x\u{a0}", "x\u{200b}"] {
        assert_eq!(trim(s), s.trim(), "input {s:?}");
    }
}

#[test]
fn characters() {
    assert_eq!(chars_of("héllo"), vec!['h', 'é', 'l', 'l', 'o']);
}
