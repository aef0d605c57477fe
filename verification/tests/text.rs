use siphon_smpp::numbers::{
    decimal_text, hex2_text, hex4_text, hexadecimal_text, parse_uint, signed_decimal_text,
    IntError,
};
use siphon_smpp::text::{chars_of, position_from, same, string_of, trim};

#[test]
fn white_space_is_unicode_white_space() {
    let spaces: Vec<char> = (0..=0x10FFFFu32)
        .filter_map(char::from_u32)
        .filter(|c| trim(&c.to_string()).is_empty())
        .collect();
    let listed: Vec<char> = "\t\n\u{0B}\u{0C}\r \u{85}\u{A0}\u{1680}\u{2000}\u{2001}\u{2002}\u{2003}\
                             \u{2004}\u{2005}\u{2006}\u{2007}\u{2008}\u{2009}\u{200A}\u{2028}\
                             \u{2029}\u{202F}\u{205F}\u{3000}"
        .chars()
        .collect();
    assert_eq!(spaces, listed);
    assert_eq!(trim("  a b\t"), "a b");
}

#[test]
fn text_is_searched_by_character() {
    let hay = chars_of("aé:é:");
    let needle = chars_of("é:");
    assert_eq!(position_from(&hay, &needle, 0), Some(1));
    assert_eq!(position_from(&hay, &needle, 2), Some(3));
    assert_eq!(position_from(&hay, &needle, 4), None);
    assert_eq!(position_from(&hay, &chars_of(""), 5), Some(5));
    assert_eq!(position_from(&hay, &needle, 99), None);
    assert_eq!(string_of(&hay, 1, 3), "é:");
    assert!(same("é", "é") && !same("é", "e"));
}

#[test]
fn numbers_are_read_as_the_standard_library_reads_them() {
    let texts = [
        "", "+", "-", "0", "007", "+5", "-5", "++5", "5+", " 5", "18446744073709551615",
        "18446744073709551616", "99999999999999999999x", "x99999999999999999999", "1_000", "٣",
        "4294967295", "4294967296",
    ];
    for t in texts {
        let ours = parse_uint(t, u64::MAX);
        let theirs = t.parse::<u64>();
        match (&ours, &theirs) {
            (Ok(a), Ok(b)) => assert_eq!(a, b),
            (Err(a), Err(b)) => assert_eq!(a.message(), b.to_string(), "{t:?}"),
            other => panic!("{t:?}: {other:?}"),
        }
        assert_eq!(parse_uint(t, u32::MAX as u64).ok(), t.parse::<u32>().ok().map(u64::from));
    }
    assert_eq!(parse_uint("", 9), Err(IntError::Empty));
    assert_eq!(parse_uint("x", 9), Err(IntError::InvalidDigit));
    assert_eq!(parse_uint("10", 9), Err(IntError::TooLarge));
}

#[test]
fn numbers_are_written_as_the_standard_library_writes_them() {
    for n in [0u64, 9, 10, 99, 100, 1234567890, u64::MAX] {
        assert_eq!(decimal_text(n), n.to_string());
        assert_eq!(hexadecimal_text(n), format!("{n:x}"));
        assert_eq!(parse_uint(&decimal_text(n), u64::MAX), Ok(n));
    }
    for n in [0i64, -1, -10, i64::MIN, i64::MAX] {
        assert_eq!(signed_decimal_text(n), n.to_string());
    }
    for n in [0u16, 0xA, 0x424, 0xFFFF, 0xBEEF] {
        assert_eq!(hex4_text(n), format!("{n:04X}"));
    }
    for n in [0u8, 0xA, 0x42, 0xFF] {
        assert_eq!(hex2_text(n), format!("{n:02x}"));
    }
}
