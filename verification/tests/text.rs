use pool_setup::text::{decimal_string, is_whitespace, same_text, split_whitespace};

#[test]
fn split_whitespace_skips_runs_of_separators() {
    let tokens = split_whitespace("  your  address\tabc123 \n");
    assert_eq!(tokens, vec!["your".to_string(), "address".to_string(), "abc123".to_string()]);
}

#[test]
fn split_whitespace_of_blank_text_is_empty() {
    assert!(split_whitespace("").is_empty());
    assert!(split_whitespace(" \t\r\n").is_empty());
}

#[test]
fn split_whitespace_agrees_with_std() {
    let samples = ["a b", "  lead", "trail  ", "x\u{a0}y\u{3000}z", "één twee", "one"];
    for s in samples {
        let expected: Vec<String> = s.split_whitespace().map(|t| t.to_string()).collect();
        assert_eq!(split_whitespace(s), expected);
    }
}

#[test]
fn is_whitespace_agrees_with_std_on_every_char() {
    let mut n: u32 = 0;
    while n <= 0x10ffff {
        if let Some(c) = char::from_u32(n) {
            assert_eq!(is_whitespace(c), c.is_whitespace());
        }
        n += 1;
    }
}

#[test]
fn decimal_string_writes_numerals() {
    assert_eq!(decimal_string(0), "0");
    assert_eq!(decimal_string(7), "7");
    assert_eq!(decimal_string(10), "10");
    assert_eq!(decimal_string(255), "255");
    assert_eq!(decimal_string(u64::MAX), u64::MAX.to_string());
}

#[test]
fn same_text_compares_characters() {
    assert!(same_text("address", "address"));
    assert!(!same_text("address", "Address"));
    assert!(!same_text("address", "address "));
}
