use crystal::strutil::{first_char_is, starts_with_str, str_eq, tail_from};

#[test]
fn character_equality() {
    assert!(str_eq("abc", "abc"));
    assert!(!str_eq("abc", "abd"));
    assert!(!str_eq("abc", "ab"));
    assert!(str_eq("", ""));
}

#[test]
fn first_character_test() {
    assert!(first_char_is("$re:x", '$'));
    assert!(!first_char_is("re:x", '$'));
    assert!(!first_char_is("", '$'));
}

#[test]
fn tail_and_prefix() {
    assert_eq!(tail_from("$is_wa", 1), "is_wa");
    assert_eq!(tail_from("re:abc", 3), "abc");
    assert!(starts_with_str("re:abc", "re:"));
    assert!(!starts_with_str("r:abc", "re:"));
    assert!(!starts_with_str("re", "re:"));
}
