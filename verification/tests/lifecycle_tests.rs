//! Tests for branch derivation, the directory layout, `base` resolution,
//! path display, list ordering, and the seeding policy.

use sprout::{cd_base_target, derive_branch, display_path, is_absolute_path, now_ts, seed_decision,
    sort_rows, sprout_paths, worktree_destination, BaseTarget, ListRow, Metadata, NodeKind,
    SeedDecision, WorktreeEntry, record_create};

fn entry(name: &str, path: &str, source_repo: &str) -> WorktreeEntry {
    WorktreeEntry {
        name: name.to_string(),
        path: path.to_string(),
        source_repo: source_repo.to_string(),
        branch: name.to_string(),
        created_at: 0,
    }
}

#[test]
fn branch_derivation_prepends_prefix() {
    assert_eq!(derive_branch("sprout/", "feature"), "sprout/feature");
}

#[test]
fn branch_derivation_with_empty_prefix_is_verbatim() {
    assert_eq!(derive_branch("", "feature"), "feature");
}

#[test]
fn layout_is_fixed_under_home() {
    let p = sprout_paths("/home/u");
    assert_eq!(p.worktrees_dir, "/home/u/.sprout/worktrees");
    assert_eq!(p.metadata_path, "/home/u/.sprout/metadata.json");
    assert_eq!(p.config_path, "/home/u/.sprout/config.toml");
    assert_eq!(worktree_destination(&p.worktrees_dir, "x"), "/home/u/.sprout/worktrees/x");
}

#[test]
fn display_path_prefers_canonical_form() {
    assert_eq!(display_path("/stored", &Some("/canonical".to_string())), "/canonical");
}

#[test]
fn display_path_falls_back_to_stored_string() {
    assert_eq!(display_path("/now/missing", &None), "/now/missing");
}

#[test]
fn display_path_is_idempotent_on_canonical_paths() {
    assert_eq!(display_path("/already/canonical", &Some("/already/canonical".to_string())),
        "/already/canonical");
}

#[test]
fn base_finds_source_repo_of_matched_worktree() {
    let mut m = Metadata::new();
    record_create(&mut m, entry("a", "/w/a", "/repo")).unwrap();
    record_create(&mut m, entry("b", "/w/b-sym", "/repo2")).unwrap();
    let canon = vec![Some("/w/a".to_string()), Some("/w/b".to_string())];
    match cd_base_target(&m, &canon, "/w/b") {
        BaseTarget::InWorkTree { source_repo } => assert_eq!(source_repo, "/repo2"),
        _ => panic!("expected a tracked match"),
    }
}

#[test]
fn base_from_source_repository_root_is_success() {
    let mut m = Metadata::new();
    record_create(&mut m, entry("a", "/w/a", "/repo")).unwrap();
    let canon = vec![Some("/w/a".to_string())];
    match cd_base_target(&m, &canon, "/repo") {
        BaseTarget::Outside { repo_root } => assert_eq!(repo_root, "/repo"),
        _ => panic!("expected the root itself, not an error"),
    }
}

#[test]
fn list_orders_newest_first_with_unknown_last() {
    let rows = vec![
        ListRow { last_commit: 100, entry: entry("old", "/w/old", "/r") },
        ListRow { last_commit: 300, entry: entry("new", "/w/new", "/r") },
        ListRow { last_commit: 0, entry: entry("unknown", "/w/u", "/r") },
    ];
    let sorted = sort_rows(rows);
    let names: Vec<&str> = sorted.iter().map(|r| r.entry.name.as_str()).collect();
    assert_eq!(names, vec!["new", "old", "unknown"]);
    assert_eq!(sorted[0].last_commit, 300);
    assert_eq!(sorted[2].last_commit, 0);
}

#[test]
fn sort_rows_handles_empty_input() {
    assert!(sort_rows(Vec::new()).is_empty());
}

#[test]
fn symlinked_seed_source_is_skipped_not_copied() {
    let d = seed_decision(false, &Some(NodeKind::Symlink), &None);
    assert_eq!(d, SeedDecision::SkipSymlink);
    let d2 = seed_decision(false, &Some(NodeKind::Symlink), &Some(NodeKind::File));
    assert_eq!(d2, SeedDecision::SkipSymlink);
}

#[test]
fn seed_policy_decision_table() {
    assert_eq!(seed_decision(true, &Some(NodeKind::File), &None), SeedDecision::SkipAbsolute);
    assert_eq!(seed_decision(false, &None, &None), SeedDecision::SkipMissing);
    assert_eq!(seed_decision(false, &Some(NodeKind::File), &Some(NodeKind::File)),
        SeedDecision::SkipExisting);
    assert_eq!(seed_decision(false, &Some(NodeKind::File), &None), SeedDecision::CopyFile);
    assert_eq!(seed_decision(false, &Some(NodeKind::Dir), &None), SeedDecision::MergeDir);
    assert_eq!(seed_decision(false, &Some(NodeKind::Dir), &Some(NodeKind::Dir)),
        SeedDecision::MergeDir);
    assert_eq!(seed_decision(false, &Some(NodeKind::Dir), &Some(NodeKind::File)),
        SeedDecision::SkipExisting);
}

#[test]
fn absolute_path_detection() {
    assert!(is_absolute_path("/etc/passwd"));
    assert!(!is_absolute_path("docs/notes.md"));
    assert!(!is_absolute_path(""));
}

#[test]
fn clock_reads_nonnegative_seconds() {
    let t = now_ts();
    assert!(t.is_some());
    assert!(t.unwrap() >= 0);
}
