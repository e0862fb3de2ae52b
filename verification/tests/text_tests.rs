use ip_gacha_roll::text::{decimal_string, parse_u16, parse_u64, push_hex, same_text};

#[test]
fn parse_u64_matches_from_str() {
    for s in ["0", "7", "+7", "-7", "", "+", "-", "12a", "007", "18446744073709551615", "18446744073709551616", "++1"] {
        assert_eq!(parse_u64(s), s.parse::<u64>().ok(), "{s:?}");
    }
}

#[test]
fn parse_u16_matches_from_str() {
    for s in ["0", "8000", "65535", "65536", "+80", "-80", "x", "99999999999999999999999"] {
        assert_eq!(parse_u16(s), s.parse::<u16>().ok(), "{s:?}");
    }
}

#[test]
fn decimal_roundtrip() {
    for n in [0u64, 9, 10, 99, 100, 4096, u64::MAX] {
        let t = decimal_string(n);
        assert_eq!(t, n.to_string());
        assert_eq!(parse_u64(&t), Some(n));
    }
}

#[test]
fn hex_is_lowercase_two_digits_per_byte() {
    let mut s = String::from("x");
    push_hex(&mut s, &[0x00, 0x0f, 0xa0, 0xff]);
    assert_eq!(s, "x000fa0ff");
}

#[test]
fn same_text_compares_exactly() {
    assert!(same_text("reroll", "reroll"));
    assert!(!same_text("reroll", "Reroll"));
    assert!(!same_text("reroll", "reroll "));
    assert!(same_text("✅", "✅"));
}
