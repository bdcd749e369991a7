use synexai::address::{extract_icp_account, extract_sui_address, icp_account_check, sui_address_check};
use synexai::text::{contains_text, decimal_text, split_whitespace};

fn sui_address() -> String {
    format!("0x{}", "2b4d".repeat(16))
}

fn icp_account() -> String {
    "ab12".repeat(16)
}

#[test]
fn sui_address_found_in_message() {
    let content = format!("What is the balance of {} please", sui_address());
    assert_eq!(extract_sui_address(&content), Some(sui_address()));
}

#[test]
fn first_sui_address_wins() {
    let other = format!("0x{}", "ff".repeat(32));
    let content = format!("{} and {}", other, sui_address());
    assert_eq!(extract_sui_address(&content), Some(other));
}

#[test]
fn sui_address_needs_whole_word() {
    let content = format!("balance:{}", sui_address());
    assert_eq!(extract_sui_address(&content), None);
    let longer = format!("{}a", sui_address());
    assert_eq!(extract_sui_address(&longer), None);
    let not_hex = format!("0x{}g", "a".repeat(63));
    assert_eq!(extract_sui_address(&not_hex), None);
}

#[test]
fn sui_address_between_unicode_spaces() {
    let content = format!("addr\u{3000}{}\u{a0}now", sui_address());
    assert_eq!(extract_sui_address(&content), Some(sui_address()));
}

#[test]
fn uppercase_hex_is_accepted() {
    let upper = format!("0x{}", "AB".repeat(32));
    assert_eq!(extract_sui_address(&upper), Some(upper.clone()));
    assert!(sui_address_check(&upper));
    assert!(!sui_address_check(&format!("0X{}", "AB".repeat(32))));
}

#[test]
fn icp_account_found_in_message() {
    let content = format!("check\t{}\nthanks", icp_account());
    assert_eq!(extract_icp_account(&content), Some(icp_account()));
    assert_eq!(extract_icp_account("no account here"), None);
}

#[test]
fn icp_account_is_not_a_sui_address() {
    assert!(icp_account_check(&icp_account()));
    assert!(!sui_address_check(&icp_account()));
    assert!(!icp_account_check(&sui_address()));
    assert_eq!(extract_icp_account(&sui_address()), None);
}

#[test]
fn extracting_twice_gives_the_same_address() {
    let found = extract_sui_address(&format!("x {} y", sui_address())).unwrap();
    assert_eq!(extract_sui_address(&found), Some(found.clone()));
}

#[test]
fn words_split_at_any_white_space() {
    let ws = split_whitespace("  one\ttwo\n\u{2003}three  ");
    assert_eq!(ws, vec!["one".to_string(), "two".to_string(), "three".to_string()]);
    assert!(split_whitespace(" \t ").is_empty());
}

#[test]
fn substring_search() {
    assert!(contains_text("my balance please", "balance"));
    assert!(contains_text("abc", ""));
    assert!(!contains_text("bal ance", "balance"));
    assert!(contains_text("Invalid params: x", "Invalid params"));
}

#[test]
fn decimal_numerals() {
    assert_eq!(decimal_text(0), "0");
    assert_eq!(decimal_text(12345), "12345");
    assert_eq!(decimal_text(u64::MAX), "18446744073709551615");
}

#[test]
fn white_space_is_what_std_says() {
    for u in 0u32..=0x10FFFF {
        if let Some(c) = char::from_u32(u) {
            assert_eq!(synexai::text::is_whitespace(c), c.is_whitespace(), "{:x}", u);
        }
    }
}

#[test]
fn words_are_what_std_splits() {
    let samples = [
        "a b\u{2028}c\u{85}d\u{1680}e",
        "\u{200b}x\u{feff} y\u{180e}z",
        "  leading and trailing  ",
        "",
    ];
    for s in samples {
        let expected: Vec<String> = s.split_whitespace().map(|w| w.to_string()).collect();
        assert_eq!(split_whitespace(s), expected);
    }
}

#[test]
fn words_of_joined_text() {
    let joined = format!("{} {}", "a  b\t", " c d");
    let mut expected = split_whitespace("a  b\t");
    expected.extend(split_whitespace(" c d"));
    assert_eq!(split_whitespace(&joined), expected);
    assert_eq!(split_whitespace(&format!("{} {}", "ab", "cd")), vec!["ab".to_string(), "cd".to_string()]);
}

#[test]
fn extractors_on_joined_text() {
    let x = format!("balance of {}", sui_address());
    let y = format!("and {} too", icp_account());
    let joined = format!("{} {}", x, y);
    assert_eq!(extract_sui_address(&joined), extract_sui_address(&x).or(extract_sui_address(&y)));
    assert_eq!(extract_icp_account(&joined), extract_icp_account(&x).or(extract_icp_account(&y)));
    assert_eq!(extract_icp_account(&joined), Some(icp_account()));
    let other = format!("0x{}", "ff".repeat(32));
    let joined = format!("{} {}", other, x);
    assert_eq!(extract_sui_address(&joined), Some(other));
    let joined = format!("{} {}", "", y);
    assert_eq!(extract_icp_account(&joined), Some(icp_account()));
}
