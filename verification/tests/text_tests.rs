use neurokaraoke::text::{
    chars_of, contains_chars, join_strings, push_decimal, push_hex_lower, push_signed_decimal, replace_all_chars,
    same_text, starts_with, string_of, trim_start_char,
};

#[test]
fn decimals() {
    let mut out = Vec::new();
    push_decimal(&mut out, 0);
    push_decimal(&mut out, 42);
    assert_eq!(string_of(&out), "042");
    let mut out = Vec::new();
    push_decimal(&mut out, u64::MAX);
    assert_eq!(string_of(&out), "18446744073709551615");
    let mut out = Vec::new();
    push_signed_decimal(&mut out, i64::MIN);
    assert_eq!(string_of(&out), "-9223372036854775808");
}

#[test]
fn hex_digits() {
    let mut out = Vec::new();
    push_hex_lower(&mut out, 0xbeef, 6);
    assert_eq!(string_of(&out), "00beef");
    let mut out = Vec::new();
    push_hex_lower(&mut out, 0x1234, 2);
    assert_eq!(string_of(&out), "34");
}

#[test]
fn searching_and_replacing() {
    assert!(starts_with("https://x", "https://"));
    assert!(!starts_with("http", "https://"));
    assert!(contains_chars(&chars_of("a b c"), &chars_of(" b ")));
    assert!(!contains_chars(&chars_of("abc"), &chars_of("abcd")));
    let r = replace_all_chars(&chars_of("a a a"), &chars_of(" "), &chars_of("%20"));
    assert_eq!(string_of(&r), "a%20a%20a");
    let r = replace_all_chars(&chars_of("aaa"), &chars_of("aa"), &chars_of("b"));
    assert_eq!(string_of(&r), "ba");
    assert!(same_text("é", "é"));
    assert!(!same_text("a", "ab"));
}

#[test]
fn trimming_and_joining() {
    let cs = chars_of("//a/b");
    assert_eq!(string_of(&trim_start_char(&cs, '/')), "a/b");
    let parts = vec!["x".to_string(), "y".to_string(), "z".to_string()];
    assert_eq!(join_strings(&parts, " & "), "x & y & z");
    assert_eq!(join_strings(&vec![], ", "), "");
}
