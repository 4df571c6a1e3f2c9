use zellij_keymap::text::{contains_text, join_strings, split_on_char, split_on_str, trim_string, truncate};

#[test]
fn truncate_fits_labels() {
    assert_eq!(truncate("hello world", 5), "hell…");
    assert_eq!(truncate("abc", 5), "abc");
    assert_eq!(truncate("abcde", 5), "abcde");
    assert_eq!(truncate("abc", 1), "…");
    assert_eq!(truncate("abc", 0), "…");
    assert_eq!(truncate("←→↑↓", 3), "←→…");
}

#[test]
fn substring_search() {
    assert!(contains_text("close pane", "clo"));
    assert!(contains_text("close pane", ""));
    assert!(!contains_text("close pane", "panes"));
    assert!(contains_text("a ← b", "← b"));
}

#[test]
fn splitting_and_joining() {
    assert_eq!(split_on_char("a/b//c", '/'), vec!["a", "b", "", "c"]);
    assert_eq!(split_on_char("", '/'), vec![""]);
    assert_eq!(split_on_str("Ctrl + Alt + x", " + "), vec!["Ctrl", "Alt", "x"]);
    assert_eq!(split_on_str(" + + ", " + "), vec!["", "+ "]);
    assert_eq!(join_strings(&vec!["a".to_string(), "b".to_string()], ", "), "a, b");
    assert_eq!(trim_string("  x y \t"), "x y");
}
