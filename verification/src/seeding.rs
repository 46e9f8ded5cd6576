//! The seed copier's policy: which configured paths are copied into a fresh
//! work-tree, which are skipped, and why. The walk over the real filesystem
//! applies one decision per node and never aborts on a skipped entry.

use vstd::prelude::*;
use vstd::string::*;

verus! {

/// What the filesystem holds at a path, as the walker reports it (symbolic
/// links are reported as themselves, never followed).
#[derive(Clone, Copy, PartialEq, Eq, Structural, Debug)]
pub enum NodeKind {
    File,
    Dir,
    Symlink,
}

/// The per-node outcome of the seeding policy.
#[derive(Clone, Copy, PartialEq, Eq, Structural, Debug)]
pub enum SeedDecision {
    /// Absolute entries never escape the repository tree: skip with a warning.
    SkipAbsolute,
    /// The source does not exist: skip with a warning.
    SkipMissing,
    /// The source is a symbolic link: skip with a warning, never follow it.
    SkipSymlink,
    /// The destination already exists and cannot be merged: never overwrite.
    SkipExisting,
    /// Copy the regular file, creating parent directories as needed.
    CopyFile,
    /// Create the directory if needed and recurse into its children.
    MergeDir,
}

/// The seeding policy for one node: `absolute` is whether the configured
/// entry is an absolute path, `source` what the repository holds there,
/// `dest` what the work-tree already holds at the corresponding place.
pub open spec fn seed_decision_spec(
    absolute: bool,
    source: Option<NodeKind>,
    dest: Option<NodeKind>,
) -> SeedDecision {
    if absolute {
        SeedDecision::SkipAbsolute
    } else {
        match source {
            None => SeedDecision::SkipMissing,
            Some(NodeKind::Symlink) => SeedDecision::SkipSymlink,
            Some(NodeKind::File) => if dest is Some {
                SeedDecision::SkipExisting
            } else {
                SeedDecision::CopyFile
            },
            Some(NodeKind::Dir) => match dest {
                Some(NodeKind::File) | Some(NodeKind::Symlink) => SeedDecision::SkipExisting,
                _ => SeedDecision::MergeDir,
            },
        }
    }
}

/// Decides what the seed copier does at one node.
pub fn seed_decision(absolute: bool, source: &Option<NodeKind>, dest: &Option<NodeKind>) -> (r:
    SeedDecision)
    ensures
        r == seed_decision_spec(absolute, *source, *dest),
{
    if absolute {
        SeedDecision::SkipAbsolute
    } else {
        match source {
            None => SeedDecision::SkipMissing,
            Some(NodeKind::Symlink) => SeedDecision::SkipSymlink,
            Some(NodeKind::File) => match dest {
                Some(_) => SeedDecision::SkipExisting,
                None => SeedDecision::CopyFile,
            },
            Some(NodeKind::Dir) => match dest {
                Some(NodeKind::File) | Some(NodeKind::Symlink) => SeedDecision::SkipExisting,
                _ => SeedDecision::MergeDir,
            },
        }
    }
}

/// A configured entry is absolute when it starts with the path separator.
pub fn is_absolute_path(p: &str) -> (r: bool)
    ensures
        r == (p@.len() > 0 && p@[0] == '/'),
{
    if p.is_empty() {
        false
    } else {
        p.get_char(0) == '/'
    }
}

/// Symbolic links are never seeded: whatever the destination holds, the
/// policy skips a symlinked source, so nothing is written at its
/// destination and the walk goes on (skipping is not a failure).
pub proof fn lemma_symlink_never_copied(absolute: bool, dest: Option<NodeKind>)
    ensures
        seed_decision_spec(absolute, Some(NodeKind::Symlink), dest) != SeedDecision::CopyFile,
        seed_decision_spec(absolute, Some(NodeKind::Symlink), dest) != SeedDecision::MergeDir,
{
}

/// Nothing already present is ever overwritten: when the destination holds
/// a file or a link, the only decisions are skips or a directory merge that
/// leaves the node itself in place.
pub proof fn lemma_never_overwrites(absolute: bool, source: Option<NodeKind>, dest: Option<
    NodeKind,
>)
    ensures
        dest is Some ==> seed_decision_spec(absolute, source, dest) != SeedDecision::CopyFile,
{
}

} // verus!
