use mylib::text::{confirmation, confirmation_of_uppercase, same_text, trim, Confirmation};

#[test]
fn trim_removes_unicode_whitespace() {
    assert_eq!(trim("\u{3000} abc\t\n"), "abc");
    assert_eq!(trim("   "), "");
    assert_eq!(trim("a b"), "a b");
}

#[test]
fn confirmation_is_case_insensitive() {
    assert_eq!(confirmation("y"), Confirmation::Yes);
    assert_eq!(confirmation("Y"), Confirmation::Yes);
    assert_eq!(confirmation("n"), Confirmation::No);
    assert_eq!(confirmation("yes"), Confirmation::Other);
    assert_eq!(confirmation(""), Confirmation::Other);
    assert_eq!(confirmation_of_uppercase("y"), Confirmation::Other);
}

#[test]
fn same_text_compares_characters() {
    assert!(same_text("x", "x"));
    assert!(!same_text("x", "X"));
    assert!(!same_text("x", "xx"));
}
