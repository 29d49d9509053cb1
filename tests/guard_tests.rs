use org_viewer_server::guard::{resolve, tree_outcome, within_root, ErrorKind};
use org_viewer_server::store::{read_outcome, write_outcome};

fn p(parts: &[&str]) -> Vec<String> {
    parts.iter().map(|s| s.to_string()).collect()
}

#[test]
fn inside_root_is_accepted() {
    let r = resolve(Some(p(&["/", "org", "projects"])), Some(p(&["/", "org", "projects", "alpha", "a.md"])));
    assert_eq!(r, Ok(p(&["/", "org", "projects", "alpha", "a.md"])));
}

#[test]
fn scenario_traversal_outside_root_rejected() {
    // projects/alpha/../../etc/passwd canonicalizes to /etc/passwd
    let r = resolve(Some(p(&["/", "org", "projects"])), Some(p(&["/", "etc", "passwd"])));
    assert_eq!(r, Err(ErrorKind::Forbidden));
    assert_eq!(r.unwrap_err().status(), 403);
}

#[test]
fn sibling_with_common_text_prefix_is_outside() {
    let r = resolve(Some(p(&["/", "org", "projects"])), Some(p(&["/", "org", "projects-old", "x"])));
    assert_eq!(r, Err(ErrorKind::Forbidden));
}

#[test]
fn missing_target_is_not_found() {
    let r = resolve(Some(p(&["/", "org", "projects"])), None);
    assert_eq!(r, Err(ErrorKind::NotFound));
    assert_eq!(ErrorKind::NotFound.status(), 404);
}

#[test]
fn unresolvable_root_is_internal_error() {
    let r = resolve(None, Some(p(&["/", "x"])));
    assert_eq!(r, Err(ErrorKind::InternalError));
    assert_eq!(ErrorKind::InternalError.status(), 500);
}

#[test]
fn root_prefix_check() {
    assert!(within_root(&p(&["/", "a"]), &p(&["/", "a"])));
    assert!(within_root(&p(&["/", "a"]), &p(&["/", "a", "b"])));
    assert!(!within_root(&p(&["/", "a", "b"]), &p(&["/", "a"])));
    assert!(!within_root(&p(&["/", "a"]), &p(&["/", "ab"])));
}

#[test]
fn scenario_put_to_missing_file_is_not_found() {
    let resolved = resolve(Some(p(&["/", "org", "projects"])), None);
    assert_eq!(write_outcome(&resolved, false), Err(ErrorKind::NotFound));
}

#[test]
fn scenario_write_then_read_returns_new_content() {
    let root = p(&["/", "org", "projects"]);
    let target = p(&["/", "org", "projects", "alpha", "notes.md"]);
    let resolved = resolve(Some(root.clone()), Some(target.clone()));
    assert_eq!(write_outcome(&resolved, true), Ok(()));
    let again = resolve(Some(root), Some(target));
    let f = read_outcome("notes.md".to_string(), again, true, Some("new text".to_string()), Some(8)).ok().unwrap();
    assert_eq!(f.path, "notes.md");
    assert_eq!(f.content, "new text");
    assert_eq!(f.size, 8);
    assert_eq!(f.language, Some("markdown".to_string()));
}

#[test]
fn write_failure_is_internal_error() {
    let resolved = resolve(Some(p(&["/", "r"])), Some(p(&["/", "r", "f.txt"])));
    assert_eq!(write_outcome(&resolved, false), Err(ErrorKind::InternalError));
    let outside = resolve(Some(p(&["/", "r"])), Some(p(&["/", "s", "f.txt"])));
    assert_eq!(write_outcome(&outside, true), Err(ErrorKind::Forbidden));
}

#[test]
fn read_of_directory_is_not_found() {
    let resolved = resolve(Some(p(&["/", "r"])), Some(p(&["/", "r", "d"])));
    let r = read_outcome("d".to_string(), resolved, false, None, None);
    assert_eq!(r.err(), Some(ErrorKind::NotFound));
}

#[test]
fn undecodable_content_is_internal_error() {
    let resolved = resolve(Some(p(&["/", "r"])), Some(p(&["/", "r", "b.txt"])));
    let r = read_outcome("b.txt".to_string(), resolved, true, None, Some(3));
    assert_eq!(r.err(), Some(ErrorKind::InternalError));
}

#[test]
fn unknown_size_reads_as_zero() {
    let resolved = resolve(Some(p(&["/", "r"])), Some(p(&["/", "r", "Makefile"])));
    let f = read_outcome("Makefile".to_string(), resolved, true, Some("all:".to_string()), None).ok().unwrap();
    assert_eq!(f.size, 0);
    assert_eq!(f.language, None);
}

#[test]
fn read_forwards_guard_error() {
    let r = read_outcome("../../etc/passwd".to_string(), Err(ErrorKind::Forbidden), true, Some("x".to_string()), Some(1));
    assert_eq!(r.err(), Some(ErrorKind::Forbidden));
}

#[test]
fn tree_of_non_directory_is_not_found() {
    let resolved = resolve(Some(p(&["/", "r"])), Some(p(&["/", "r", "alpha"])));
    assert_eq!(tree_outcome(false, &resolved), Err(ErrorKind::NotFound));
    assert_eq!(tree_outcome(true, &resolved), Ok(()));
    let outside = resolve(Some(p(&["/", "r"])), Some(p(&["/", "etc"])));
    assert_eq!(tree_outcome(true, &outside), Err(ErrorKind::Forbidden));
    assert_eq!(tree_outcome(true, &Err(ErrorKind::InternalError)), Err(ErrorKind::InternalError));
}
