use liboj::text::{
    byte_is_space, copy_range, decimal_string, parse_i32, parse_u64, parse_unsigned, parse_usize,
    render_decimal, render_signed, split_lines, split_words, str_eq, trim,
};

#[test]
fn decimal_rendering() {
    assert_eq!(render_decimal(0), b"0");
    assert_eq!(render_decimal(7), b"7");
    assert_eq!(render_decimal(10), b"10");
    assert_eq!(render_decimal(1_000_000), b"1000000");
    assert_eq!(render_decimal(u128::MAX), b"340282366920938463463374607431768211455");
    assert_eq!(decimal_string(0), "0");
    assert_eq!(decimal_string(16_777_216), "16777216");
}

#[test]
fn signed_rendering() {
    assert_eq!(render_signed(0), b"0");
    assert_eq!(render_signed(42), b"42");
    assert_eq!(render_signed(-1), b"-1");
    assert_eq!(render_signed(i64::MIN), b"-9223372036854775808");
    assert_eq!(render_signed(i64::MAX), b"9223372036854775807");
}

#[test]
fn unsigned_parsing() {
    assert_eq!(parse_u64(b"0"), Some(0));
    assert_eq!(parse_u64(b"007"), Some(7));
    assert_eq!(parse_u64(b"+15"), Some(15));
    assert_eq!(parse_u64(b"18446744073709551615"), Some(u64::MAX));
    assert_eq!(parse_u64(b"18446744073709551616"), None);
    assert_eq!(parse_u64(b"99999999999999999999999999999999999999999999"), None);
    assert_eq!(parse_u64(b""), None);
    assert_eq!(parse_u64(b"+"), None);
    assert_eq!(parse_u64(b"-1"), None);
    assert_eq!(parse_u64(b"-0"), None);
    assert_eq!(parse_u64(b"12a"), None);
    assert_eq!(parse_u64(b" 12"), None);
    assert_eq!(parse_u64(b"12\n"), None);
    assert_eq!(parse_u64(b"++1"), None);
    assert_eq!(parse_usize(b"131072"), Some(131072));
    assert_eq!(parse_unsigned(b"255", 255), Some(255));
    assert_eq!(parse_unsigned(b"256", 255), None);
    assert_eq!(parse_unsigned(b"0", 0), Some(0));
    assert_eq!(parse_unsigned(b"1", 0), None);
    assert_eq!(
        parse_unsigned(b"340282366920938463463374607431768211455", u128::MAX),
        Some(u128::MAX)
    );
    assert_eq!(parse_unsigned(b"340282366920938463463374607431768211456", u128::MAX), None);
}

#[test]
fn signed_parsing() {
    assert_eq!(parse_i32(b"0"), Some(0));
    assert_eq!(parse_i32(b"-0"), Some(0));
    assert_eq!(parse_i32(b"+7"), Some(7));
    assert_eq!(parse_i32(b"-7"), Some(-7));
    assert_eq!(parse_i32(b"2147483647"), Some(i32::MAX));
    assert_eq!(parse_i32(b"2147483648"), None);
    assert_eq!(parse_i32(b"-2147483648"), Some(i32::MIN));
    assert_eq!(parse_i32(b"-2147483649"), None);
    assert_eq!(parse_i32(b"-"), None);
    assert_eq!(parse_i32(b"-+1"), None);
    assert_eq!(parse_i32(b"+-1"), None);
    assert_eq!(parse_i32(b"--1"), None);
    assert_eq!(parse_i32(b""), None);
    assert_eq!(parse_i32(b"1 "), None);
}

#[test]
fn parse_gives_back_what_render_wrote() {
    for n in [0u64, 1, 9, 10, 99, 100, 1_000_000, u64::MAX] {
        assert_eq!(parse_u64(&render_decimal(n as u128)), Some(n));
    }
    for n in [0i32, 1, -1, 12345, -12345, i32::MAX, i32::MIN] {
        assert_eq!(parse_i32(&render_signed(n as i64)), Some(n));
    }
}

#[test]
fn whitespace_bytes() {
    for b in [b'\t', b'\n', 0x0b, 0x0c, b'\r', b' '] {
        assert!(byte_is_space(b));
    }
    for b in [0u8, 8, 14, 31, 33, b'0', b'a', 0x85, 0xa0, 255] {
        assert!(!byte_is_space(b));
    }
}

#[test]
fn trimming() {
    assert_eq!(trim(b""), b"");
    assert_eq!(trim(b" \t\r\n"), b"");
    assert_eq!(trim(b"abc"), b"abc");
    assert_eq!(trim(b"  a b \n"), b"a b");
    assert_eq!(trim(b"100000\n"), b"100000");
    assert_eq!(trim(b"\x0b\x0cx\x0b\x0c"), b"x");
    assert_eq!(copy_range(b"hello", 1, 3), b"el");
    assert_eq!(copy_range(b"hello", 2, 2), b"");
}

#[test]
fn words_of_a_text() {
    let none: Vec<Vec<u8>> = Vec::new();
    assert_eq!(split_words(b""), none);
    assert_eq!(split_words(b"  \n\t "), none);
    assert_eq!(split_words(b"one"), vec![b"one".to_vec()]);
    assert_eq!(
        split_words(b" 12  34\n56\t"),
        vec![b"12".to_vec(), b"34".to_vec(), b"56".to_vec()]
    );
}

#[test]
fn lines_of_a_text() {
    let none: Vec<Vec<u8>> = Vec::new();
    assert_eq!(split_lines(b""), none);
    assert_eq!(split_lines(b"\n"), vec![b"".to_vec()]);
    assert_eq!(split_lines(b"a"), vec![b"a".to_vec()]);
    assert_eq!(split_lines(b"a\n"), vec![b"a".to_vec()]);
    assert_eq!(split_lines(b"a\nb"), vec![b"a".to_vec(), b"b".to_vec()]);
    assert_eq!(split_lines(b"a\r\nb\r\n"), vec![b"a".to_vec(), b"b".to_vec()]);
    assert_eq!(split_lines(b"a\n\nb"), vec![b"a".to_vec(), b"".to_vec(), b"b".to_vec()]);
    assert_eq!(split_lines(b"a\rb\r"), vec![b"a\rb\r".to_vec()]);
    assert_eq!(split_lines(b"a\r\r\n"), vec![b"a\r".to_vec()]);
}

#[test]
fn lines_agree_with_std() {
    for text in ["", "\n", "x", "x\n", "x\ny", "x\r\ny\r\n", "x\n\ny\n\n", "\r", "\r\n", "a\r"] {
        let expected: Vec<Vec<u8>> = text.lines().map(|l| l.as_bytes().to_vec()).collect();
        assert_eq!(split_lines(text.as_bytes()), expected, "{:?}", text);
    }
}

#[test]
fn words_agree_with_std() {
    for text in ["", " ", "a", " a ", "a b", "a\tb\nc\r\nd", "\x0ba\x0cb"] {
        let expected: Vec<Vec<u8>> =
            text.split_whitespace().map(|w| w.as_bytes().to_vec()).collect();
        assert_eq!(split_words(text.as_bytes()), expected, "{:?}", text);
        assert_eq!(trim(text.as_bytes()), text.trim().as_bytes(), "{:?}", text);
    }
}

#[test]
fn string_equality() {
    assert!(str_eq("", ""));
    assert!(str_eq("c.gcc", "c.gcc"));
    assert!(!str_eq("c.gcc", "c.gc"));
    assert!(!str_eq("a", "b"));
}
