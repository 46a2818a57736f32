use sync_subdir::text::{
    char_is_space, chars_of, contains, decimal, join, same_text, starts_with, text_of, trim,
    trim_trailing,
};

#[test]
fn chars_round_trip() {
    let v = chars_of("lib/é.rs");
    assert_eq!(v, vec!['l', 'i', 'b', '/', 'é', '.', 'r', 's']);
    assert_eq!(text_of(&v), "lib/é.rs");
    assert_eq!(text_of(&chars_of("")), "");
}

#[test]
fn starts_with_is_a_prefix_test() {
    assert!(starts_with("lib/main.rs", "lib/"));
    assert!(starts_with("lib/", "lib/"));
    assert!(starts_with("anything", ""));
    assert!(!starts_with("library/main.rs", "lib/"));
    assert!(!starts_with("li", "lib/"));
    assert!(!starts_with("", "x"));
}

#[test]
fn contains_finds_a_needle_anywhere() {
    assert!(contains("error: Patch is empty.", "Patch is empty"));
    assert!(contains("Patch is empty", "Patch is empty"));
    assert!(contains("xxPatch is empty", "Patch is empty"));
    assert!(contains("abc", ""));
    assert!(contains("", ""));
    assert!(!contains("Patch is empt", "Patch is empty"));
    assert!(!contains("", "a"));
    assert!(!contains("patch is empty", "Patch is empty"));
}

#[test]
fn same_text_compares_characters() {
    assert!(same_text("abc", "abc"));
    assert!(same_text("", ""));
    assert!(!same_text("abc", "abd"));
    assert!(!same_text("abc", "ab"));
    assert!(!same_text("ab", "abc"));
}

#[test]
fn trim_trailing_removes_the_whole_run() {
    assert_eq!(trim_trailing("lib///", '/'), "lib");
    assert_eq!(trim_trailing("lib", '/'), "lib");
    assert_eq!(trim_trailing("a/b/", '/'), "a/b");
    assert_eq!(trim_trailing("///", '/'), "");
    assert_eq!(trim_trailing("", '/'), "");
    assert_eq!(trim_trailing("/lib", '/'), "/lib");
}

#[test]
fn trim_agrees_with_std() {
    let samples = [
        "",
        " ",
        "  0001-subject.patch\n",
        "\t\r\n x y \u{a0}\u{2003}",
        "no-space",
        "\u{3000}wide\u{3000}",
        "\u{85}next-line\u{1680}",
        " \u{200b}zero-width-is-no-space ",
    ];
    for s in samples {
        assert_eq!(trim(s), s.trim());
    }
}

#[test]
fn char_is_space_agrees_with_std() {
    let mut n: u32 = 0;
    while n < 0x3100 {
        if let Some(c) = char::from_u32(n) {
            assert_eq!(char_is_space(c), c.is_whitespace(), "U+{:04X}", n);
        }
        n += 1;
    }
}

#[test]
fn decimal_prints_numbers() {
    assert_eq!(decimal(0), "0");
    assert_eq!(decimal(7), "7");
    assert_eq!(decimal(10), "10");
    assert_eq!(decimal(1234567890), "1234567890");
    assert_eq!(decimal(usize::MAX), format!("{}", usize::MAX));
}

#[test]
fn join_concatenates() {
    assert_eq!(join("refs/heads/", "main"), "refs/heads/main");
    assert_eq!(join("", ""), "");
    assert_eq!(join("a", ""), "a");
}
