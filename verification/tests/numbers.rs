use cs2_gsi::numbers::{parse_i32, parse_u32, parse_u64, parse_u8};

#[test]
fn numbers_sent_as_text_are_trimmed_and_read() {
    assert_eq!(parse_i32("100"), Some(100));
    assert_eq!(parse_i32(" 87 "), Some(87));
    assert_eq!(parse_i32("-5"), Some(-5));
    assert_eq!(parse_i32("+7"), Some(7));
    assert_eq!(parse_i32("007"), Some(7));
    assert_eq!(parse_u32("730"), Some(730));
    assert_eq!(parse_u64("76561198000000000"), Some(76561198000000000));
    assert_eq!(parse_u8("9"), Some(9));
}

#[test]
fn malformed_number_text_is_refused() {
    for bad in ["", " ", "+", "-", "1.5", "12a", "a12", "+-1", "--1", "1 2"] {
        assert_eq!(parse_i32(bad), None, "{bad:?}");
        assert_eq!(parse_u32(bad), None, "{bad:?}");
    }
    assert_eq!(parse_u32("-1"), None);
    assert_eq!(parse_u8("-0"), None);
}

#[test]
fn number_text_out_of_range_is_refused() {
    assert_eq!(parse_i32("2147483647"), Some(i32::MAX));
    assert_eq!(parse_i32("-2147483648"), Some(i32::MIN));
    assert_eq!(parse_i32("2147483648"), None);
    assert_eq!(parse_i32("-2147483649"), None);
    assert_eq!(parse_u8("255"), Some(255));
    assert_eq!(parse_u8("256"), None);
    assert_eq!(parse_u32("4294967296"), None);
    assert_eq!(parse_u64("18446744073709551615"), Some(u64::MAX));
    assert_eq!(parse_u64("18446744073709551616"), None);
    assert_eq!(parse_u64("99999999999999999999999"), None);
}

#[test]
fn number_text_agrees_with_std() {
    for s in ["0", "42", " -17\t", "+3", "x", "", "4294967295", "-0", "00", "1_000"] {
        assert_eq!(parse_i32(s), s.trim().parse::<i32>().ok(), "{s:?}");
        assert_eq!(parse_u32(s), s.trim().parse::<u32>().ok(), "{s:?}");
        assert_eq!(parse_u8(s), s.trim().parse::<u8>().ok(), "{s:?}");
        assert_eq!(parse_u64(s), s.trim().parse::<u64>().ok(), "{s:?}");
    }
}
