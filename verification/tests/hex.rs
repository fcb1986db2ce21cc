use chain_crawler::hex::{hex_to_dec, try_hex_to_dec};

fn reference(text: &str) -> u64 {
    let digits = text.strip_prefix("0x").unwrap_or(text);
    u64::from_str_radix(digits, 16).unwrap_or(0)
}

#[test]
fn decodes_prefixed_hex() {
    assert_eq!(hex_to_dec("0x64".to_string()), 100);
}

#[test]
fn invalid_hex_is_zero() {
    assert_eq!(hex_to_dec("zz".to_string()), 0);
}

#[test]
fn decodes_without_prefix() {
    assert_eq!(hex_to_dec("64".to_string()), 100);
    assert_eq!(hex_to_dec("3e8".to_string()), 1000);
    assert_eq!(hex_to_dec("0".to_string()), 0);
}

#[test]
fn decodes_both_cases() {
    assert_eq!(hex_to_dec("0xff".to_string()), 255);
    assert_eq!(hex_to_dec("0xFF".to_string()), 255);
    assert_eq!(hex_to_dec("0xaBcDeF".to_string()), 0xabcdef);
}

#[test]
fn decodes_the_largest_value() {
    assert_eq!(hex_to_dec("0xffffffffffffffff".to_string()), u64::MAX);
    assert_eq!(
        hex_to_dec("0x0000000000000000ffffffffffffffff".to_string()),
        u64::MAX
    );
}

#[test]
fn overflow_is_zero() {
    assert_eq!(hex_to_dec("0x10000000000000000".to_string()), 0);
    assert_eq!(hex_to_dec("0xfffffffffffffffff".to_string()), 0);
}

#[test]
fn empty_and_bare_prefix_are_zero() {
    assert_eq!(hex_to_dec("".to_string()), 0);
    assert_eq!(hex_to_dec("0x".to_string()), 0);
}

#[test]
fn prefix_is_stripped_once_and_in_lower_case_only() {
    assert_eq!(hex_to_dec("0x0x1".to_string()), 0);
    assert_eq!(hex_to_dec("0X10".to_string()), 0);
    assert_eq!(hex_to_dec("x10".to_string()), 0);
}

#[test]
fn plus_sign_is_taken_and_minus_is_not() {
    assert_eq!(hex_to_dec("+1f".to_string()), 31);
    assert_eq!(hex_to_dec("0x+1f".to_string()), 31);
    assert_eq!(hex_to_dec("+".to_string()), 0);
    assert_eq!(hex_to_dec("0x+".to_string()), 0);
    assert_eq!(hex_to_dec("++1".to_string()), 0);
    assert_eq!(hex_to_dec("-1".to_string()), 0);
    assert_eq!(hex_to_dec("+0x1".to_string()), 0);
}

#[test]
fn stray_characters_are_zero() {
    assert_eq!(hex_to_dec(" 1".to_string()), 0);
    assert_eq!(hex_to_dec("1 ".to_string()), 0);
    assert_eq!(hex_to_dec("1_0".to_string()), 0);
    assert_eq!(hex_to_dec("0x1g".to_string()), 0);
    assert_eq!(hex_to_dec("0x\u{e9}".to_string()), 0);
    assert_eq!(hex_to_dec("\u{ff11}".to_string()), 0);
}

#[test]
fn agrees_with_the_standard_parser() {
    let alphabet = ['0', '1', '9', 'a', 'f', 'A', 'F', 'g', 'x', '+', '-', ' ', 'z'];
    let mut texts: Vec<String> = vec![String::new()];
    let mut frontier: Vec<String> = vec![String::new()];
    for _ in 0..4 {
        let mut next: Vec<String> = Vec::new();
        for text in &frontier {
            for c in alphabet {
                let mut longer = text.clone();
                longer.push(c);
                next.push(longer);
            }
        }
        texts.extend(next.iter().cloned());
        frontier = next;
    }
    for text in texts {
        assert_eq!(hex_to_dec(text.clone()), reference(&text), "on {:?}", text);
        let prefixed = format!("0x{}", text);
        assert_eq!(hex_to_dec(prefixed.clone()), reference(&prefixed), "on {:?}", prefixed);
    }
}

#[test]
fn agrees_with_the_standard_parser_on_long_numbers() {
    for digits in 14..20 {
        for lead in ["1", "f", "0", "7"] {
            let text = format!("0x{}{}", lead, "f".repeat(digits));
            assert_eq!(hex_to_dec(text.clone()), reference(&text), "on {:?}", text);
        }
    }
}

#[test]
fn parse_failure_is_told_from_zero() {
    assert_eq!(try_hex_to_dec("0x0"), Some(0));
    assert_eq!(try_hex_to_dec("0x64"), Some(100));
    assert_eq!(try_hex_to_dec("zz"), None);
    assert_eq!(try_hex_to_dec(""), None);
    assert_eq!(try_hex_to_dec("0x"), None);
    assert_eq!(try_hex_to_dec("0x10000000000000000"), None);
}
