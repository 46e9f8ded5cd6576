//! Tests for the metadata store lifecycle: create, locate, delete.

use sprout::{cd_worktree, check_create, delete_worktree, record_create, Error, Metadata,
    WorktreeEntry};

fn entry(name: &str, path: &str) -> WorktreeEntry {
    WorktreeEntry {
        name: name.to_string(),
        path: path.to_string(),
        source_repo: "/repo".to_string(),
        branch: format!("sprout/{name}"),
        created_at: 100,
    }
}

#[test]
fn create_records_entry() {
    let mut m = Metadata::new();
    assert!(record_create(&mut m, entry("alpha", "/w/alpha")).is_ok());
    assert_eq!(m.worktrees.len(), 1);
    assert_eq!(m.worktrees[0].name, "alpha");
}

#[test]
fn duplicate_name_fails_and_leaves_store_unchanged() {
    let mut m = Metadata::new();
    assert!(record_create(&mut m, entry("alpha", "/w/alpha")).is_ok());
    let r = record_create(&mut m, entry("alpha", "/w/other"));
    match r {
        Err(Error::AlreadyExistsError { what }) => assert_eq!(what, "alpha"),
        _ => panic!("expected AlreadyExistsError"),
    }
    assert_eq!(m.worktrees.len(), 1);
    assert_eq!(m.worktrees[0].path, "/w/alpha");
}

#[test]
fn check_create_rejects_existing_path() {
    let m = Metadata::new();
    let r = check_create(&m, "alpha", true, "/w/alpha");
    match r {
        Err(Error::AlreadyExistsError { what }) => assert_eq!(what, "/w/alpha"),
        _ => panic!("expected AlreadyExistsError"),
    }
}

#[test]
fn check_create_rejects_taken_name() {
    let mut m = Metadata::new();
    assert!(record_create(&mut m, entry("alpha", "/w/alpha")).is_ok());
    let r = check_create(&m, "alpha", false, "/w/alpha2");
    match r {
        Err(Error::AlreadyExistsError { what }) => assert_eq!(what, "alpha"),
        _ => panic!("expected AlreadyExistsError"),
    }
    assert!(check_create(&m, "beta", false, "/w/beta").is_ok());
}

#[test]
fn cd_worktree_returns_stored_path() {
    let mut m = Metadata::new();
    assert!(record_create(&mut m, entry("alpha", "/w/alpha")).is_ok());
    assert!(record_create(&mut m, entry("beta", "/w/beta")).is_ok());
    assert_eq!(cd_worktree(&m, "beta").unwrap(), "/w/beta");
}

#[test]
fn cd_worktree_unknown_name_fails() {
    let m = Metadata::new();
    match cd_worktree(&m, "ghost") {
        Err(Error::UnknownWorkTreeError { name }) => assert_eq!(name, "ghost"),
        _ => panic!("expected UnknownWorkTreeError"),
    }
}

#[test]
fn delete_removes_tracking() {
    let mut m = Metadata::new();
    assert!(record_create(&mut m, entry("alpha", "/w/alpha")).is_ok());
    assert!(record_create(&mut m, entry("beta", "/w/beta")).is_ok());
    let removed = delete_worktree(&mut m, "alpha").unwrap();
    assert_eq!(removed.name, "alpha");
    assert_eq!(removed.path, "/w/alpha");
    assert_eq!(m.worktrees.len(), 1);
    match cd_worktree(&m, "alpha") {
        Err(Error::UnknownWorkTreeError { name }) => assert_eq!(name, "alpha"),
        _ => panic!("expected UnknownWorkTreeError after delete"),
    }
    assert_eq!(cd_worktree(&m, "beta").unwrap(), "/w/beta");
}

#[test]
fn delete_unknown_name_fails_and_keeps_store() {
    let mut m = Metadata::new();
    assert!(record_create(&mut m, entry("alpha", "/w/alpha")).is_ok());
    match delete_worktree(&mut m, "ghost") {
        Err(Error::UnknownWorkTreeError { name }) => assert_eq!(name, "ghost"),
        _ => panic!("expected UnknownWorkTreeError"),
    }
    assert_eq!(m.worktrees.len(), 1);
}
