use vpnmanager::strmap::StrMap;
use vpnmanager::text::{
    parse_u64, split_str, starts_with, str_eq, str_less, to_hex_lower, trim, u64_to_decimal,
};

#[test]
fn decimal_rendering() {
    assert_eq!(u64_to_decimal(0), "0");
    assert_eq!(u64_to_decimal(7), "7");
    assert_eq!(u64_to_decimal(42), "42");
    assert_eq!(u64_to_decimal(1000), "1000");
    assert_eq!(u64_to_decimal(u64::MAX), "18446744073709551615");
}

#[test]
fn parse_unsigned_numbers() {
    assert_eq!(parse_u64("123"), Some(123));
    assert_eq!(parse_u64("+7"), Some(7));
    assert_eq!(parse_u64("007"), Some(7));
    assert_eq!(parse_u64("18446744073709551615"), Some(u64::MAX));
    assert_eq!(parse_u64("18446744073709551616"), None);
    assert_eq!(parse_u64("99999999999999999999x"), None);
    assert_eq!(parse_u64(""), None);
    assert_eq!(parse_u64("+"), None);
    assert_eq!(parse_u64("-1"), None);
    assert_eq!(parse_u64("12a"), None);
    assert_eq!(parse_u64(" 1"), None);
}

#[test]
fn parse_agrees_with_std() {
    for s in ["0", "+0", "65535", "4294967296", "+", "", "1 ", "++1", "9".repeat(25).as_str()] {
        assert_eq!(parse_u64(s), s.parse::<u64>().ok(), "input {:?}", s);
    }
}

#[test]
fn hex_encoding() {
    assert_eq!(to_hex_lower(&[]), "");
    assert_eq!(to_hex_lower(&[0x00, 0xff, 0x1a, 0x09]), "00ff1a09");
    let bytes: Vec<u8> = (0..=255).collect();
    let expected: String = bytes.iter().map(|b| format!("{:02x}", b)).collect();
    assert_eq!(to_hex_lower(&bytes), expected);
}

#[test]
fn splitting() {
    assert_eq!(split_str("a\tb\t", '\t'), vec!["a", "b", ""]);
    assert_eq!(split_str("", '\n'), vec![""]);
    assert_eq!(split_str("\n\n", '\n'), vec!["", "", ""]);
    assert_eq!(split_str("one", ','), vec!["one"]);
    let s = "x,yy,,zzz";
    let expected: Vec<String> = s.split(',').map(|p| p.to_string()).collect();
    assert_eq!(split_str(s, ','), expected);
}

#[test]
fn trimming() {
    assert_eq!(trim("  secret \t\n"), "secret");
    assert_eq!(trim("   "), "");
    assert_eq!(trim("a b"), "a b");
    assert_eq!(trim("\u{3000}x\u{a0}"), "x");
}

#[test]
fn comparisons() {
    assert!(str_eq("abc", "abc"));
    assert!(!str_eq("abc", "abd"));
    assert!(starts_with("Bearer x", "Bearer"));
    assert!(!starts_with("Bear", "Bearer"));
    assert!(str_less("a", "b"));
    assert!(str_less("ab", "abc"));
    assert!(!str_less("abc", "ab"));
    assert!(!str_less("same", "same"));
    assert!(str_less("Z", "a"));
    assert!(str_less("é", "ë"));
    for (a, b) in [("x", "xy"), ("b", "a"), ("", ""), ("", "a"), ("é", "z")] {
        assert_eq!(str_less(a, b), a < b, "{:?} < {:?}", a, b);
    }
}

#[test]
fn string_map_keeps_key_order() {
    let mut m: StrMap<u64> = StrMap::new();
    m.insert("b".to_string(), 2);
    m.insert("a".to_string(), 1);
    m.insert("c".to_string(), 3);
    m.insert("b".to_string(), 20);
    assert_eq!(m.len(), 3);
    assert_eq!(m.key_at(0), "a");
    assert_eq!(m.key_at(1), "b");
    assert_eq!(m.key_at(2), "c");
    assert_eq!(*m.value_at(1), 20);
    assert_eq!(m.get("b"), Some(&20));
    assert_eq!(m.get("d"), None);
    assert!(m.contains_key("c"));
    assert!(!m.contains_key(""));
}

#[test]
fn rendering_reads_back() {
    for n in [0u64, 9, 10, 99, 100, 123456789, u64::MAX - 1, u64::MAX] {
        assert_eq!(parse_u64(&u64_to_decimal(n)), Some(n));
    }
}
