//! A verified core for a git work-tree manager.
//!
//! The library tracks a named set of work-trees derived from a single source
//! repository: a metadata store of tracked entries, a small per-user
//! configuration, branch-name derivation, list ordering, path display rules,
//! and the skip policy used when seeding files into a fresh work-tree.
//! All file, process and terminal I/O lives outside this crate; the functions
//! here work on plain values and carry contracts checked by Verus.

mod config;
mod errors;
mod lifecycle;
mod listing;
mod metadata;
mod seeding;
mod text;

pub use config::config_cmd;
pub use config::config_get;
pub use config::config_set;
pub use config::join_paths;
pub use config::lemma_split_join_roundtrip;
pub use config::split_paths;
pub use config::Config;
pub use config::ConfigAction;

pub use errors::Error;

pub use lifecycle::cd_base_target;
pub use lifecycle::derive_branch;
pub use lifecycle::display_path;
pub use lifecycle::effective_prefix;
pub use lifecycle::lemma_display_path_idempotent;
pub use lifecycle::now_ts;
pub use lifecycle::sprout_paths;
pub use lifecycle::worktree_destination;
pub use lifecycle::BaseTarget;
pub use lifecycle::SproutPaths;

pub use listing::format_ts;
pub use listing::lemma_unknown_sorts_last;
pub use listing::sort_rows;
pub use listing::ListRow;

pub use metadata::cd_worktree;
pub use metadata::check_create;
pub use metadata::delete_worktree;
pub use metadata::lemma_create_preserves_uniqueness;
pub use metadata::lemma_delete_removes_tracking;
pub use metadata::record_create;
pub use metadata::Metadata;
pub use metadata::WorktreeEntry;

pub use seeding::is_absolute_path;
pub use seeding::lemma_never_overwrites;
pub use seeding::lemma_symlink_never_copied;
pub use seeding::seed_decision;
pub use seeding::NodeKind;
pub use seeding::SeedDecision;

pub use text::parse_timestamp;
pub use text::str_eq;
pub use text::trim_bytes;
