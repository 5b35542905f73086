use delta::text::{
    ascii_lowercase, contains_lowered, decimal, eq_ignore_ascii_case, hex_digits, lowered_chars, starts_with,
    str_eq, to_lower, trimmed,
};

#[test]
fn trimming_removes_unicode_white_space_at_both_ends() {
    assert_eq!(trimmed("  hello world \t\n"), "hello world");
    assert_eq!(trimmed("\u{3000}x\u{a0}"), "x");
    assert_eq!(trimmed("   "), "");
    assert_eq!(trimmed(""), "");
}

#[test]
fn ascii_case_helpers_leave_other_characters_alone() {
    assert_eq!(to_lower('Q'), 'q');
    assert_eq!(to_lower('É'), 'É');
    assert_eq!(ascii_lowercase("MiXeD Ünïcode"), "mixed Ünïcode");
    assert_eq!(lowered_chars("AbC"), vec!['a', 'b', 'c']);
    assert!(eq_ignore_ascii_case("TRUE", "true"));
    assert!(!eq_ignore_ascii_case("truer", "true"));
}

#[test]
fn search_ignores_ascii_case_of_the_haystack() {
    let needle = lowered_chars("bob");
    assert!(contains_lowered("Uncle BOBby", &needle));
    assert!(!contains_lowered("Robert", &needle));
    assert!(contains_lowered("anything", &Vec::new()));
}

#[test]
fn comparisons_and_prefixes() {
    assert!(str_eq("abc", "abc"));
    assert!(!str_eq("abc", "abd"));
    assert!(starts_with("report.action", "report."));
    assert!(!starts_with("rep", "report"));
    assert_eq!(delta::text::concat("ab", "cd"), "abcd");
}

#[test]
fn numbers_are_written_in_decimal_and_padded_hexadecimal() {
    assert_eq!(decimal(0), "0");
    assert_eq!(decimal(4096), "4096");
    assert_eq!(decimal(u64::MAX), u64::MAX.to_string());
    assert_eq!(hex_digits(255, 16), "00000000000000ff");
    assert_eq!(hex_digits(u64::MAX, 16), "ffffffffffffffff");
    assert_eq!(hex_digits(0xabc, 2), "bc");
}


#[test]
fn lower_casing_matches_the_standard_library() {
    for s in ["", "ABCDEFGHIJKLMNOPQRSTUVWXYZ", "Zz@[`{AÀ", "Ωmega ÉCOLE 42"] {
        assert_eq!(ascii_lowercase(s), s.to_ascii_lowercase());
    }
}
