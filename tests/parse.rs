use mandelbrot::parse::{parse_decimal, parse_pair, split_pair};

#[test]
fn image_size() {
    assert_eq!(parse_pair("1000x750", 'x'), Some((1000, 750)));
    assert_eq!(parse_pair("10,20", ','), Some((10, 20)));
}

#[test]
fn pair_needs_both_sides() {
    assert_eq!(parse_pair("", ','), None);
    assert_eq!(parse_pair("10,", ','), None);
    assert_eq!(parse_pair(",10", ','), None);
    assert_eq!(parse_pair("10", ','), None);
}

#[test]
fn pair_splits_at_first_separator() {
    assert_eq!(parse_pair("1x2x3", 'x'), None);
    assert_eq!(split_pair("1x2x3", 'x'), Some(("1", "2x3")));
}

#[test]
fn pair_rejects_other_text() {
    assert_eq!(parse_pair("10,20xy", ','), None);
    assert_eq!(parse_pair("0.5,1", ','), None);
    assert_eq!(parse_pair("-1,2", ','), None);
    assert_eq!(parse_pair(" 1,2", ','), None);
}

#[test]
fn decimal_numbers() {
    assert_eq!(parse_decimal("0"), Some(0));
    assert_eq!(parse_decimal("007"), Some(7));
    assert_eq!(parse_decimal("+42"), Some(42));
    assert_eq!(parse_decimal("18446744073709551615"), Some(usize::MAX));
    assert_eq!(parse_decimal(""), None);
    assert_eq!(parse_decimal("+"), None);
    assert_eq!(parse_decimal("++1"), None);
    assert_eq!(parse_decimal("-1"), None);
    assert_eq!(parse_decimal("12a"), None);
    assert_eq!(parse_decimal("18446744073709551616"), None);
    assert_eq!(parse_decimal("99999999999999999999999"), None);
}

#[test]
fn decimal_agrees_with_std() {
    for s in ["0", "+0", "123", "+", "", "4294967296", "1_000", "٣", "12345678901234567890"] {
        assert_eq!(parse_decimal(s), s.parse::<usize>().ok());
    }
}

#[test]
fn split_complex_point() {
    assert_eq!(split_pair("-1.20,0.35", ','), Some(("-1.20", "0.35")));
    assert_eq!(split_pair("-1,0.20", ','), Some(("-1", "0.20")));
    assert_eq!(split_pair("abc", ','), None);
    assert_eq!(split_pair(",", ','), Some(("", "")));
}

#[test]
fn split_keeps_wide_characters() {
    assert_eq!(split_pair("é→ü", '→'), Some(("é", "ü")));
}
