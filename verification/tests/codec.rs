use oracle_program::codec::{
    block_tag, call_data, encode_call_with_two_addresses, eq_ignore_ascii_case, hex_to_bytes,
    is_zero_address, parse_address_from_32byte, parse_block_number, strip_0x,
};

#[test]
fn one_leading_0x_is_stripped() {
    assert_eq!(strip_0x("0xabc"), "abc");
    assert_eq!(strip_0x("abc"), "abc");
    assert_eq!(strip_0x("0x"), "");
    assert_eq!(strip_0x(""), "");
    assert_eq!(strip_0x("0"), "0");
    assert_eq!(strip_0x("0x0x12"), "0x12");
    assert_eq!(strip_0x("0X12"), "0X12");
    assert_eq!(strip_0x("x0x"), "x0x");
    assert_eq!(strip_0x("0x\u{e9}t\u{e9}"), "\u{e9}t\u{e9}");
}

#[test]
fn zero_address_is_made_of_zero_digits() {
    assert!(is_zero_address("0x0000000000000000000000000000000000000000"));
    assert!(is_zero_address("0000"));
    assert!(is_zero_address("0x"));
    assert!(is_zero_address(""));
    assert!(!is_zero_address("0x0000000000000000000000000000000000000001"));
    assert!(!is_zero_address("0x00x0"));
    assert!(!is_zero_address("0x00\u{660}"));
}

#[test]
fn hexadecimal_text_is_two_digits_to_a_byte() {
    assert_eq!(hex_to_bytes("0x0aFf"), Some(vec![0x0a, 0xff]));
    assert_eq!(hex_to_bytes("0aff"), Some(vec![0x0a, 0xff]));
    assert_eq!(hex_to_bytes("0x"), Some(Vec::new()));
    assert_eq!(hex_to_bytes(""), Some(Vec::new()));
    assert_eq!(
        hex_to_bytes("0x00010203fdfeFF"),
        Some(vec![0, 1, 2, 3, 0xfd, 0xfe, 0xff])
    );
}

#[test]
fn hexadecimal_text_of_odd_length_fails() {
    assert_eq!(hex_to_bytes("0xabc"), None);
    assert_eq!(hex_to_bytes("a"), None);
}

#[test]
fn hexadecimal_text_with_another_character_fails() {
    assert_eq!(hex_to_bytes("0xzz"), None);
    assert_eq!(hex_to_bytes("0x0g"), None);
    assert_eq!(hex_to_bytes("0x+f"), None);
    assert_eq!(hex_to_bytes("0x 1"), None);
    assert_eq!(hex_to_bytes("0x\u{e9}"), None);
    assert_eq!(hex_to_bytes("0xa\u{e9}b"), None);
}

#[test]
fn address_is_the_last_forty_characters_of_a_word() {
    let word = "0x000000000000000000000000c21223249ca28397b4b6541dffaecc539bff0c59";
    assert_eq!(
        parse_address_from_32byte(word),
        Some("0xc21223249ca28397b4b6541dffaecc539bff0c59".to_string())
    );
    let bare = "0000000000000000000000005C7F8A570d578ED84E63fdFA7b1eE72dEae1AE23";
    assert_eq!(
        parse_address_from_32byte(bare),
        Some("0x5C7F8A570d578ED84E63fdFA7b1eE72dEae1AE23".to_string())
    );
}

#[test]
fn address_of_what_is_no_word_fails() {
    assert_eq!(parse_address_from_32byte(""), None);
    assert_eq!(parse_address_from_32byte("0x"), None);
    assert_eq!(parse_address_from_32byte("0x00"), None);
    let short = "0x".to_string() + &"0".repeat(63);
    assert_eq!(parse_address_from_32byte(&short), None);
    let long = "0x".to_string() + &"0".repeat(65);
    assert_eq!(parse_address_from_32byte(&long), None);
    let other = "0x".to_string() + &"0".repeat(63) + "\u{e9}";
    assert_eq!(parse_address_from_32byte(&other), None);
}

#[test]
fn texts_match_without_regard_to_the_case_of_letters() {
    assert!(eq_ignore_ascii_case("0xAbCd", "0xaBcD"));
    assert!(eq_ignore_ascii_case("", ""));
    assert!(!eq_ignore_ascii_case("0xab", "0xabc"));
    assert!(!eq_ignore_ascii_case("0xab", "0xac"));
    assert!(!eq_ignore_ascii_case("@", "`"));
    assert!(!eq_ignore_ascii_case("[", "{"));
    assert!(eq_ignore_ascii_case("\u{e9}A", "\u{e9}a"));
    assert!(!eq_ignore_ascii_case("\u{c9}", "\u{e9}"));
}

#[test]
fn call_data_is_the_selector_and_two_padded_words() {
    let data = encode_call_with_two_addresses(
        "e6a43905",
        "0x5C7F8A570d578ED84E63fdFA7b1eE72dEae1AE23",
        "0xc21223249CA28397B4B6541dfFaEcC539BfF0c59",
    );
    assert_eq!(
        data,
        "e6a43905\
         0000000000000000000000005c7f8a570d578ed84e63fdfa7b1ee72deae1ae23\
         000000000000000000000000c21223249ca28397b4b6541dffaecc539bff0c59"
    );
    assert_eq!(data.len(), 8 + 64 + 64);
}

#[test]
fn call_data_of_short_and_long_arguments() {
    assert_eq!(
        encode_call_with_two_addresses("", "", "0xA"),
        "0".repeat(64) + &"0".repeat(63) + "a"
    );
    let long = "F".repeat(70);
    assert_eq!(
        encode_call_with_two_addresses("ab", &long, "1"),
        "ab".to_string() + &"f".repeat(70) + &"0".repeat(63) + "1"
    );
}

#[test]
fn call_data_takes_its_arguments_as_they_stand() {
    assert_eq!(
        call_data("0dfe1681", "AB", "0xcd"),
        "0dfe1681".to_string() + &"0".repeat(62) + "AB" + &"0".repeat(60) + "0xcd"
    );
}

#[test]
fn block_tag_is_latest_or_the_height_in_hexadecimal() {
    assert_eq!(block_tag(None), "latest");
    assert_eq!(block_tag(Some(0)), "0x0");
    assert_eq!(block_tag(Some(15)), "0xf");
    assert_eq!(block_tag(Some(16)), "0x10");
    assert_eq!(block_tag(Some(17_280)), "0x4380");
    assert_eq!(block_tag(Some(0xdead_beef)), "0xdeadbeef");
    assert_eq!(block_tag(Some(u64::MAX)), "0xffffffffffffffff");
}

#[test]
fn block_number_is_read_from_hexadecimal() {
    assert_eq!(parse_block_number("0x10"), Some(16));
    assert_eq!(parse_block_number("0x0"), Some(0));
    assert_eq!(parse_block_number("ff"), Some(255));
    assert_eq!(parse_block_number("0xDEADbeef"), Some(0xdead_beef));
    assert_eq!(parse_block_number("0x0x10"), Some(16));
    assert_eq!(parse_block_number("0xffffffffffffffff"), Some(u64::MAX));
    assert_eq!(parse_block_number("0x00000000000000000001"), Some(1));
}

#[test]
fn block_number_of_what_is_no_number_fails() {
    assert_eq!(parse_block_number(""), None);
    assert_eq!(parse_block_number("0x"), None);
    assert_eq!(parse_block_number("0xg"), None);
    assert_eq!(parse_block_number("0x+1"), None);
    assert_eq!(parse_block_number("latest"), None);
    assert_eq!(parse_block_number("0x10000000000000000"), None);
    assert_eq!(parse_block_number("0x1\u{e9}"), None);
}

#[test]
fn block_tag_and_block_number_agree() {
    for height in [0u64, 1, 9, 10, 255, 256, 17_280, u64::MAX] {
        assert_eq!(parse_block_number(&block_tag(Some(height))), Some(height));
    }
}
