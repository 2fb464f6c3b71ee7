//! The hidden-entry filter and the lexical path order of the report.

use prmap::paths::{filter_visible_paths, path_is_visible, sort_paths, str_lex_le};

#[test]
fn hidden_components_are_invisible() {
    assert!(!path_is_visible(".git/config"));
    assert!(!path_is_visible("src/.hidden"));
    assert!(!path_is_visible("a/.b/c"));
    assert!(!path_is_visible("."));
    assert!(path_is_visible("src/lib.rs"));
    assert!(path_is_visible("README"));
    assert!(path_is_visible("dotted.name/file"));
    assert!(path_is_visible(""));
}

#[test]
fn filter_keeps_only_visible_paths_in_order() {
    let paths = vec![
        "src/lib.rs".to_string(),
        ".git/HEAD".to_string(),
        "README".to_string(),
        "src/.swap".to_string(),
    ];
    let kept = filter_visible_paths(&paths);
    assert_eq!(kept, vec!["src/lib.rs".to_string(), "README".to_string()]);
}

#[test]
fn lexical_order_cases() {
    assert!(str_lex_le("a", "b"));
    assert!(!str_lex_le("b", "a"));
    assert!(str_lex_le("a", "ab"));
    assert!(!str_lex_le("ab", "a"));
    assert!(str_lex_le("", "a"));
    assert!(str_lex_le("same", "same"));
    assert!(str_lex_le("a/b", "a0b") == (('/' as u32) < ('0' as u32)));
}

#[test]
fn sort_orders_paths() {
    let mut paths = vec![
        "src/main.rs".to_string(),
        "Cargo.toml".to_string(),
        "README".to_string(),
        "src/lib.rs".to_string(),
    ];
    sort_paths(&mut paths);
    assert_eq!(
        paths,
        vec![
            "Cargo.toml".to_string(),
            "README".to_string(),
            "src/lib.rs".to_string(),
            "src/main.rs".to_string(),
        ]
    );
}

#[test]
fn sort_keeps_duplicates() {
    let mut paths = vec!["b".to_string(), "a".to_string(), "b".to_string()];
    sort_paths(&mut paths);
    assert_eq!(paths, vec!["a".to_string(), "b".to_string(), "b".to_string()]);
}
