use zeron::text::{
    begins, blank, chars_of, ends, parse_u16, push_decimal, push_signed, same, trim, white_space,
};

#[test]
fn white_space_is_that_of_unicode() {
    for n in 0..=0x10ffffu32 {
        if let Some(c) = char::from_u32(n) {
            assert_eq!(white_space(c), c.is_whitespace(), "{n:x}");
        }
    }
}

#[test]
fn trimming_takes_white_space_from_both_ends() {
    for s in [
        "", " ", "a", " a", "a ", "  a b \t\n", "\u{a0}x\u{3000}", "\u{200b}x", "é \u{85}", "\t\r\n",
    ] {
        assert_eq!(trim(s), s.trim());
        assert_eq!(blank(s), s.trim().is_empty());
    }
}

#[test]
fn texts_are_compared_by_their_characters() {
    assert!(same("", ""));
    assert!(same("mock", "mock"));
    assert!(!same("mock", "mocks"));
    assert!(!same("mock", "mocK"));
    assert!(same("é·", "é·"));
    assert!(begins("zeron-x", "zeron-"));
    assert!(begins("zeron-", "zeron-"));
    assert!(!begins("zeron", "zeron-"));
    assert!(!begins("xzeron-", "zeron-"));
    assert!(ends("a.log", ".log"));
    assert!(!ends("a.log.1", ".log"));
    assert!(!ends("log", ".log"));
    assert!(ends("anything", ""));
    assert_eq!(chars_of("aé·"), vec!['a', 'é', '·']);
}

#[test]
fn ports_are_parsed_as_16_bit_numbers() {
    for s in [
        "", "+", "-", "0", "7", "+7", "-7", "-0", "27654", "65535", "65536", "99999", "+65535", "00080",
        "000000000000000000000000000001", "99999999999999999999", " 80", "80 ", "8_0", "0x50", "++1",
        "+-1", "1+", "٣", "8080a",
    ] {
        assert_eq!(parse_u16(s), s.parse::<u16>().ok(), "{s}");
    }
    for n in 0..=u16::MAX {
        assert_eq!(parse_u16(&format!("{n}")), Some(n));
    }
}

#[test]
fn numbers_are_written_in_decimal() {
    for n in [0u64, 1, 9, 10, 11, 99, 100, 101, 1000, 27654, 1 << 32, u64::MAX] {
        let mut out = String::from("n=");
        push_decimal(&mut out, n);
        assert_eq!(out, format!("n={n}"));
    }
    for n in [0i64, 1, -1, -9, -10, 10, i64::MAX, i64::MIN] {
        let mut out = String::new();
        push_signed(&mut out, n);
        assert_eq!(out, format!("{n}"));
    }
}
