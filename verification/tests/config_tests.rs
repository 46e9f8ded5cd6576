//! Tests for the configuration surface: keys, defaults, and the
//! comma-joined `copy_paths` form.

use sprout::{config_cmd, config_get, config_set, effective_prefix, join_paths, split_paths, Config,
    ConfigAction, Error};

#[test]
fn default_prefix_is_sprout() {
    let c = Config::new();
    assert_eq!(effective_prefix(&c), "sprout/");
}

#[test]
fn get_branch_prefix_shows_stored_or_empty() {
    let mut c = Config::new();
    assert_eq!(config_get(&c, "branch_prefix").unwrap(), "");
    config_set(&mut c, "branch_prefix", "team/").unwrap();
    assert_eq!(config_get(&c, "branch_prefix").unwrap(), "team/");
    assert_eq!(effective_prefix(&c), "team/");
}

#[test]
fn empty_prefix_can_be_stored() {
    let mut c = Config::new();
    config_set(&mut c, "branch_prefix", "").unwrap();
    assert_eq!(config_get(&c, "branch_prefix").unwrap(), "");
    assert_eq!(effective_prefix(&c), "");
}

#[test]
fn unknown_key_fails_get_and_set() {
    let mut c = Config::new();
    match config_get(&c, "colour") {
        Err(Error::UnknownKeyError { key }) => assert_eq!(key, "colour"),
        _ => panic!("expected UnknownKeyError"),
    }
    match config_set(&mut c, "colour", "red") {
        Err(Error::UnknownKeyError { key }) => assert_eq!(key, "colour"),
        _ => panic!("expected UnknownKeyError"),
    }
    assert!(c.branch_prefix.is_none());
    assert!(c.copy_paths.is_none());
}

#[test]
fn copy_paths_round_trip_through_display_form() {
    let mut c = Config::new();
    config_set(&mut c, "copy_paths", ".env,docs/notes.md").unwrap();
    assert_eq!(config_get(&c, "copy_paths").unwrap(), ".env,docs/notes.md");
    let stored = c.copy_paths.clone().unwrap();
    assert_eq!(stored, vec![".env".to_string(), "docs/notes.md".to_string()]);
}

#[test]
fn copy_paths_pieces_are_trimmed_and_blanks_dropped() {
    let mut c = Config::new();
    config_set(&mut c, "copy_paths", "  .env , , docs ,").unwrap();
    assert_eq!(c.copy_paths.clone().unwrap(), vec![".env".to_string(), "docs".to_string()]);
    assert_eq!(config_get(&c, "copy_paths").unwrap(), ".env,docs");
}

#[test]
fn blank_copy_paths_clears_to_absent() {
    let mut c = Config::new();
    config_set(&mut c, "copy_paths", "one").unwrap();
    assert!(c.copy_paths.is_some());
    config_set(&mut c, "copy_paths", "   ").unwrap();
    assert!(c.copy_paths.is_none());
    assert_eq!(config_get(&c, "copy_paths").unwrap(), "");
}

#[test]
fn split_and_join_are_inverse_on_clean_lists() {
    let items = vec!["a".to_string(), "b/c".to_string(), "d d".to_string()];
    let joined = join_paths(&items);
    assert_eq!(joined, "a,b/c,d d");
    assert_eq!(split_paths(&joined), items);
}

#[test]
fn split_paths_handles_empty_and_blank_values() {
    assert!(split_paths("").is_empty());
    assert!(split_paths(" , ,").is_empty());
    assert_eq!(split_paths(" one "), vec!["one".to_string()]);
}

#[test]
fn config_cmd_dispatches_get_and_set() {
    let mut c = Config::new();
    let put = ConfigAction::Put { key: "branch_prefix".to_string(), value: "wip/".to_string() };
    assert_eq!(config_cmd(&mut c, &put).unwrap(), None);
    let get = ConfigAction::Get { key: "branch_prefix".to_string() };
    assert_eq!(config_cmd(&mut c, &get).unwrap(), Some("wip/".to_string()));
    let bad = ConfigAction::Get { key: "nope".to_string() };
    assert!(matches!(config_cmd(&mut c, &bad), Err(Error::UnknownKeyError { .. })));
}
