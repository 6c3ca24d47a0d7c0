use canvas_backend::key::{key_text, parse_key};

#[test]
fn keys_are_written_without_leading_zeros() {
    assert_eq!(key_text(0), "0");
    assert_eq!(key_text(7), "7");
    assert_eq!(key_text(10), "10");
    assert_eq!(key_text(1203), "1203");
    assert_eq!(key_text(-7), "-7");
    assert_eq!(key_text(-100), "-100");
    assert_eq!(key_text(i32::MAX), "2147483647");
    assert_eq!(key_text(i32::MIN), "-2147483648");
}

#[test]
fn key_text_agrees_with_the_standard_formatting() {
    let mut key: i32 = 1;
    for _ in 0..2000 {
        assert_eq!(key_text(key), format!("{}", key));
        key = key.wrapping_mul(1103515245).wrapping_add(12345);
    }
}

#[test]
fn the_text_of_a_key_is_read_as_that_key() {
    let mut key: i32 = -5;
    for _ in 0..2000 {
        assert_eq!(parse_key(&key_text(key)), Some(key));
        key = key.wrapping_mul(1103515245).wrapping_add(12345);
    }
    for key in [0, 1, -1, 9, 10, -10, i32::MAX, i32::MIN, i32::MAX - 1, i32::MIN + 1] {
        assert_eq!(parse_key(&key_text(key)), Some(key));
    }
}

#[test]
fn a_key_may_carry_a_sign_and_leading_zeros() {
    assert_eq!(parse_key("+5"), Some(5));
    assert_eq!(parse_key("-5"), Some(-5));
    assert_eq!(parse_key("+0"), Some(0));
    assert_eq!(parse_key("-0"), Some(0));
    assert_eq!(parse_key("000"), Some(0));
    assert_eq!(parse_key("0042"), Some(42));
    assert_eq!(parse_key("-0000000000000000000002147483648"), Some(i32::MIN));
}

#[test]
fn what_is_no_decimal_number_is_no_key() {
    let texts =
        ["", "-", "+", "--1", "+-1", "1a", "a1", " 1", "1 ", "1_000", "0x10", "1.0", "١٢"];
    for text in texts {
        assert_eq!(parse_key(text), None, "{:?}", text);
    }
}

#[test]
fn a_number_out_of_range_is_no_key() {
    assert_eq!(parse_key("2147483647"), Some(i32::MAX));
    assert_eq!(parse_key("2147483648"), None);
    assert_eq!(parse_key("+2147483648"), None);
    assert_eq!(parse_key("-2147483648"), Some(i32::MIN));
    assert_eq!(parse_key("-2147483649"), None);
    assert_eq!(parse_key("99999999999999999999999999999999999999"), None);
    assert_eq!(parse_key("-99999999999999999999999999999999999999"), None);
    assert_eq!(parse_key("21474836470"), None);
}

#[test]
fn parse_key_agrees_with_the_standard_parsing() {
    let texts = [
        "", "0", "-", "+", "+1", "-1", "12", "012", "2147483647", "2147483648", "-2147483648",
        "-2147483649", "4294967296", "1e3", "٣", "1\u{a0}", "+-3", "-+3", "3-", "00000000000",
        "18446744073709551616", "-18446744073709551616", "9223372036854775807",
    ];
    for text in texts {
        assert_eq!(parse_key(text), text.parse::<i32>().ok(), "{:?}", text);
    }
}
