use recall_os::text::{chars_of, contains_chars, str_eq, string_of, trim};

#[test]
fn trim_removes_outer_white_space() {
    assert_eq!(trim("  a b \n"), "a b");
    assert_eq!(trim("\u{3000}x\u{a0}"), "x");
    assert_eq!(trim("   "), "");
}

#[test]
fn chars_round_trip() {
    let v = chars_of("héllo");
    assert_eq!(v.len(), 5);
    assert_eq!(string_of(&v), "héllo");
}

#[test]
fn substring_search() {
    let hay = chars_of("1password - firefox");
    assert!(contains_chars(&hay, &chars_of("password")));
    assert!(contains_chars(&hay, &chars_of("")));
    assert!(!contains_chars(&hay, &chars_of("bank")));
    assert!(str_eq("abc", "abc"));
    assert!(!str_eq("abc", "abd"));
}
