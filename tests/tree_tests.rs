use org_viewer_server::tree::{build_tree, join_path, RawEntry, TreeEntry};

fn file(name: &str, size: u64) -> RawEntry {
    RawEntry { name: name.to_string(), is_dir: false, size: Some(size), children: vec![] }
}

fn dir(name: &str, children: Vec<RawEntry>) -> RawEntry {
    RawEntry { name: name.to_string(), is_dir: true, size: None, children }
}

fn names(entries: &[TreeEntry]) -> Vec<String> {
    entries.iter().map(|e| e.name.clone()).collect()
}

#[test]
fn scenario_go_project_tree() {
    let raw = vec![
        dir("node_modules", vec![file("x.js", 10)]),
        dir("src", vec![file("main.go", 120)]),
    ];
    let tree = build_tree(&raw, "");
    assert_eq!(tree.len(), 1);
    let src = &tree[0];
    assert_eq!(src.name, "src");
    assert_eq!(src.path, "src");
    assert!(src.is_dir);
    assert_eq!(src.size, None);
    assert_eq!(src.language, None);
    let children = src.children.as_ref().unwrap();
    assert_eq!(children.len(), 1);
    assert_eq!(children[0].name, "main.go");
    assert_eq!(children[0].path, "src/main.go");
    assert_eq!(children[0].language, Some("go".to_string()));
    assert_eq!(children[0].size, Some(120));
    assert!(children[0].children.is_none());
}

#[test]
fn directories_before_files_then_by_name() {
    let raw = vec![
        file("zeta.md", 1),
        dir("beta", vec![file("b.txt", 2)]),
        file("alpha.rs", 3),
        dir("Alpha", vec![file("a.txt", 4)]),
        file("Zed.py", 5),
    ];
    let tree = build_tree(&raw, "");
    assert_eq!(names(&tree), vec!["Alpha", "beta", "Zed.py", "alpha.rs", "zeta.md"]);
}

#[test]
fn order_independent_of_listing_order() {
    let a = build_tree(&vec![file("b.md", 1), file("a.md", 2), dir("d", vec![file("x.md", 3)])], "");
    let b = build_tree(&vec![dir("d", vec![file("x.md", 3)]), file("a.md", 2), file("b.md", 1)], "");
    assert_eq!(names(&a), names(&b));
    assert_eq!(names(&a), vec!["d", "a.md", "b.md"]);
}

#[test]
fn directory_of_only_filtered_entries_is_absent() {
    let raw = vec![
        dir("assets", vec![file("logo.png", 10), file(".hidden", 1), file(".DS_Store", 1)]),
        dir("empty", vec![]),
        dir("nested", vec![dir("deeper", vec![file("pic.jpg", 3)])]),
        file("keep.txt", 4),
    ];
    let tree = build_tree(&raw, "");
    assert_eq!(names(&tree), vec!["keep.txt"]);
}

#[test]
fn no_directory_node_is_empty() {
    let raw = vec![
        dir("a", vec![dir("b", vec![dir("c", vec![file("f.rs", 1)])]), dir("e", vec![])]),
    ];
    let tree = build_tree(&raw, "");
    fn check(entries: &[TreeEntry]) {
        for e in entries {
            if e.is_dir {
                let c = e.children.as_ref().unwrap();
                assert!(!c.is_empty());
                check(c);
            }
        }
    }
    check(&tree);
    let a = tree[0].children.as_ref().unwrap();
    assert_eq!(names(a), vec!["b"]);
    let b = a[0].children.as_ref().unwrap();
    let c = b[0].children.as_ref().unwrap();
    assert_eq!(c[0].path, "a/b/c/f.rs");
}

#[test]
fn hidden_and_excluded_dropped() {
    let raw = vec![
        dir(".git", vec![file("config", 1)]),
        dir(".config", vec![file("x.toml", 1)]),
        dir("target", vec![file("out.rs", 1)]),
        file(".env", 1),
        file(".gitignore", 1),
        file("ok.toml", 7),
    ];
    let tree = build_tree(&raw, "");
    assert_eq!(names(&tree), vec!["ok.toml"]);
    assert_eq!(tree[0].language, Some("toml".to_string()));
}

#[test]
fn unknown_size_kept_as_none() {
    let raw = vec![RawEntry { name: "x.c".to_string(), is_dir: false, size: None, children: vec![] }];
    let tree = build_tree(&raw, "sub");
    assert_eq!(tree[0].size, None);
    assert_eq!(tree[0].path, "sub/x.c");
    assert_eq!(tree[0].language, Some("c".to_string()));
}

#[test]
fn empty_listing_gives_empty_tree() {
    assert!(build_tree(&vec![], "").is_empty());
}

#[test]
fn join_paths() {
    assert_eq!(join_path("", "a"), "a");
    assert_eq!(join_path("a/b", "c"), "a/b/c");
}
