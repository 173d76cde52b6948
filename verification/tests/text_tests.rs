use morpheus_updater::text::{
    lines_of, str_contains, str_ends_with, str_eq, str_starts_with, trim,
};

#[test]
fn trim_removes_unicode_white_space_at_both_ends() {
    assert_eq!(trim("  1.2.3\n"), "1.2.3");
    assert_eq!(trim("\t\r\n"), "");
    assert_eq!(trim("\u{3000}a b\u{A0}"), "a b");
    assert_eq!(trim("x"), "x");
    assert_eq!(trim(""), "");
}

#[test]
fn trim_agrees_with_std() {
    for s in ["", " ", "  a  ", "\u{2009}b\u{85}", "c\u{200B}", " d e \n\r"] {
        assert_eq!(trim(s), s.trim());
    }
}

#[test]
fn lines_split_like_std() {
    for s in ["", "a", "a\n", "a\nb", "a\r\nb\r\n", "\n", "\n\n", "a\rb", "x\r", "a\n\nb\n"] {
        let expected: Vec<String> = s.lines().map(|l| l.to_string()).collect();
        assert_eq!(lines_of(s), expected, "for {:?}", s);
    }
}

#[test]
fn substring_tests_match_std() {
    assert!(str_contains("libjsoncpp.so.25 (libc6,x86-64)", "libjsoncpp.so."));
    assert!(!str_contains("libjson.so", "libjsoncpp"));
    assert!(str_contains("abc", ""));
    assert!(str_starts_with("ID=arch", "ID="));
    assert!(!str_starts_with("ID_LIKE=arch", "ID="));
    assert!(str_ends_with("morpheus_tux.zip", ".zip"));
    assert!(!str_ends_with("Launcher.jar", ".zip"));
    assert!(str_eq("fedora", "fedora"));
    assert!(!str_eq("fedora", "Fedora"));
}
