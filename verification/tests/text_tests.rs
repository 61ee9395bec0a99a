use doenermann_bot::text::{dec_string, parse_unsigned_str, trimmed, join_strings};
use doenermann_bot::util::{color_goon_credits, from_collection_payload, push_collection_payload, truncate_chars};

#[test]
fn decimal_numbers_are_written_and_read() {
    assert_eq!(dec_string(0), "0");
    assert_eq!(dec_string(1234567890), "1234567890");
    assert_eq!(dec_string(u64::MAX), "18446744073709551615");
    assert_eq!(parse_unsigned_str("42", u64::MAX), Some(42));
    assert_eq!(parse_unsigned_str("+7", u64::MAX), Some(7));
    assert_eq!(parse_unsigned_str("007", u64::MAX), Some(7));
    assert_eq!(parse_unsigned_str("", u64::MAX), None);
    assert_eq!(parse_unsigned_str("+", u64::MAX), None);
    assert_eq!(parse_unsigned_str("-1", u64::MAX), None);
    assert_eq!(parse_unsigned_str("1a", u64::MAX), None);
    assert_eq!(parse_unsigned_str("4294967295", 0xffff_ffff), Some(4294967295));
    assert_eq!(parse_unsigned_str("4294967296", 0xffff_ffff), None);
    assert_eq!(parse_unsigned_str("18446744073709551616", u64::MAX), None);
}

#[test]
fn parsing_matches_std() {
    for s in ["0", "12", "+3", "-3", "", " 1", "99999999999999999999", "+", "1+1"] {
        assert_eq!(parse_unsigned_str(s, u64::MAX), s.parse::<u64>().ok());
        assert_eq!(parse_unsigned_str(s, u32::MAX as u64), s.parse::<u32>().ok().map(|v| v as u64));
    }
}

#[test]
fn trimming_matches_std() {
    for s in ["  a b  ", "\u{3000}x\u{2028}", "", "   ", "\tq\n"] {
        assert_eq!(trimmed(s), s.trim());
    }
}

#[test]
fn joining_puts_separators_between() {
    let v = vec!["a".to_string(), "b".to_string(), "c".to_string()];
    assert_eq!(join_strings(&v, ", "), "a, b, c");
    assert_eq!(join_strings(&vec![], ", "), "");
}

#[test]
fn rarity_colours() {
    assert_eq!(color_goon_credits(0), None);
    assert_eq!(color_goon_credits(199), None);
    assert_eq!(color_goon_credits(200), Some(0x8E8E93));
    assert_eq!(color_goon_credits(500), Some(0x2ECC71));
    assert_eq!(color_goon_credits(1_000), Some(0x3498DB));
    assert_eq!(color_goon_credits(2_500), Some(0x9B59B6));
    assert_eq!(color_goon_credits(5_000), Some(0xF1C40F));
    assert_eq!(color_goon_credits(10_000), Some(0xE67E22));
    assert_eq!(color_goon_credits(19_999), Some(0xE67E22));
    assert_eq!(color_goon_credits(20_000), Some(0xE91E63));
}

#[test]
fn collection_payload_round_trip() {
    let mut s = String::new();
    push_collection_payload(&mut s, 123456789012345678, 42);
    assert_eq!(s, "123456789012345678,42");
    assert_eq!(from_collection_payload(&s), Some((123456789012345678, 42)));
    assert_eq!(from_collection_payload("1"), None);
    assert_eq!(from_collection_payload("x,1"), None);
    assert_eq!(from_collection_payload("1,2,3"), None);
}

#[test]
fn truncating_to_characters() {
    assert_eq!(truncate_chars("Gift: Ünïcödé", 8), "Gift: Ün");
    assert_eq!(truncate_chars("short", 45), "short");
}
