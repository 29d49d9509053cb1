use org_viewer_server::classify::{
    detect_language, extension, is_binary_extension, is_hidden, should_exclude_entry, str_eq,
};

#[test]
fn language_of_common_extensions() {
    assert_eq!(detect_language("main.go"), Some("go".to_string()));
    assert_eq!(detect_language("lib.rs"), Some("rust".to_string()));
    assert_eq!(detect_language("App.tsx"), Some("typescriptJsx".to_string()));
    assert_eq!(detect_language("notes.md"), Some("markdown".to_string()));
    assert_eq!(detect_language("README.markdown"), Some("markdown".to_string()));
    assert_eq!(detect_language("style.scss"), Some("css".to_string()));
    assert_eq!(detect_language("Cargo.lock"), Some("json".to_string()));
    assert_eq!(detect_language("icon.svg"), Some("xml".to_string()));
    assert_eq!(detect_language("run.zsh"), Some("shell".to_string()));
    assert_eq!(detect_language("x.hpp"), Some("cpp".to_string()));
    assert_eq!(detect_language("build.kts"), Some("kotlin".to_string()));
}

#[test]
fn language_uses_last_dot() {
    assert_eq!(detect_language("archive.tar.py"), Some("python".to_string()));
    assert_eq!(detect_language("a.b.c.json"), Some("json".to_string()));
}

#[test]
fn language_none_for_unknown_or_missing_extension() {
    assert_eq!(detect_language("Makefile"), None);
    assert_eq!(detect_language("go"), None);
    assert_eq!(detect_language("data.unknownext"), None);
    assert_eq!(detect_language("trailingdot."), None);
    assert_eq!(detect_language(""), None);
}

#[test]
fn language_is_case_sensitive() {
    assert_eq!(detect_language("MAIN.GO"), None);
    assert_eq!(detect_language("main.Rs"), None);
}

#[test]
fn language_same_extension_same_tag() {
    assert_eq!(detect_language("a.ts"), detect_language("deeply.nested.name.ts"));
}

#[test]
fn binary_extensions() {
    assert!(is_binary_extension("photo.png"));
    assert!(is_binary_extension("font.woff2"));
    assert!(is_binary_extension("bundle.js.map"));
    assert!(is_binary_extension("data.sqlite3"));
    assert!(is_binary_extension("logo.svg"));
    assert!(!is_binary_extension("main.go"));
    assert!(!is_binary_extension("PHOTO.PNG"));
    assert!(!is_binary_extension("png"));
}

#[test]
fn excluded_entries() {
    assert!(should_exclude_entry("node_modules", true));
    assert!(should_exclude_entry(".git", true));
    assert!(should_exclude_entry("target", true));
    assert!(should_exclude_entry(".vercel", true));
    assert!(!should_exclude_entry("node_modules", false));
    assert!(should_exclude_entry(".DS_Store", false));
    assert!(should_exclude_entry(".env.local", false));
    assert!(!should_exclude_entry(".DS_Store", true));
    assert!(!should_exclude_entry("src", true));
}

#[test]
fn hidden_names() {
    assert!(is_hidden(".hidden"));
    assert!(!is_hidden("visible"));
    assert!(!is_hidden(""));
}

#[test]
fn extension_after_last_dot() {
    assert_eq!(extension("a.b.c"), Some("c"));
    assert_eq!(extension("noext"), None);
    assert_eq!(extension("end."), Some(""));
}

#[test]
fn string_equality() {
    assert!(str_eq("abc", "abc"));
    assert!(!str_eq("abc", "abd"));
    assert!(!str_eq("abc", "ab"));
}
