//! Lifecycle pieces shared by the commands: branch-name derivation, the
//! fixed directory layout, best-effort path display, the `base` resolution
//! rule, and the creation timestamp.

use vstd::prelude::*;
use crate::config::Config;
use crate::config::ConfigModel;
use crate::metadata::EntryModel;
use crate::metadata::Metadata;
use crate::text::str_eq;
use vstd::string::*;

verus! {

/// The branch prefix in force: the configured one, or `"sprout/"` when the
/// configuration has none.
pub open spec fn effective_prefix_spec(c: ConfigModel) -> Seq<char> {
    match c.branch_prefix {
        Some(p) => p,
        None => "sprout/"@,
    }
}

/// The configured branch prefix, with its default.
pub fn effective_prefix(c: &Config) -> (r: String)
    ensures
        r@ == effective_prefix_spec(c@),
{
    match &c.branch_prefix {
        Some(p) => p.clone(),
        None => String::from_str("sprout/"),
    }
}

/// Derives the branch name for a new work-tree: the prefix followed by the
/// name, so an empty prefix yields the name verbatim.
pub fn derive_branch(prefix: &str, name: &str) -> (r: String)
    ensures
        r@ == prefix@ + name@,
        prefix@.len() == 0 ==> r@ == name@,
{
    proof {
        if prefix@.len() == 0 {
            assert(prefix@ + name@ =~= name@);
        }
    }
    if prefix.is_empty() {
        String::from_str(name)
    } else {
        String::from_str(prefix).concat(name)
    }
}

/// The fixed user-scoped layout under `<home>/.sprout`.
pub struct SproutPaths {
    /// Default parent directory for new work-tree directories.
    pub worktrees_dir: String,
    /// The metadata file.
    pub metadata_path: String,
    /// The configuration file.
    pub config_path: String,
}

/// Computes the tool's file layout from the home directory.
pub fn sprout_paths(home: &str) -> (r: SproutPaths)
    ensures
        r.worktrees_dir@ == home@ + "/.sprout/worktrees"@,
        r.metadata_path@ == home@ + "/.sprout/metadata.json"@,
        r.config_path@ == home@ + "/.sprout/config.toml"@,
{
    SproutPaths {
        worktrees_dir: String::from_str(home).concat("/.sprout/worktrees"),
        metadata_path: String::from_str(home).concat("/.sprout/metadata.json"),
        config_path: String::from_str(home).concat("/.sprout/config.toml"),
    }
}

/// The destination directory of a new work-tree under the work-trees
/// directory.
pub fn worktree_destination(worktrees_dir: &str, name: &str) -> (r: String)
    ensures
        r@ == worktrees_dir@ + "/"@ + name@,
{
    String::from_str(worktrees_dir).concat("/").concat(name)
}

/// How a stored path is shown: its canonical form when the resolver found
/// one, otherwise the stored string unchanged.
pub open spec fn shown_path(stored: Seq<char>, canon: Option<Seq<char>>) -> Seq<char> {
    match canon {
        Some(c) => c,
        None => stored,
    }
}

/// Best-effort display form of a stored path: `canon` is the
/// canonicalization result for it, `None` when resolution failed (for
/// instance because the directory no longer exists).
pub fn display_path(stored: &str, canon: &Option<String>) -> (r: String)
    ensures
        r@ == shown_path(
            stored@,
            match canon {
                Some(c) => Some(c@),
                None => None,
            },
        ),
{
    match canon {
        Some(c) => c.clone(),
        None => String::from_str(stored),
    }
}

/// Display canonicalization is idempotent: when the resolver maps a stored
/// path to itself — as it does for an existing, already-canonical path —
/// the shown path is the stored one unchanged.
pub proof fn lemma_display_path_idempotent(stored: Seq<char>)
    ensures
        shown_path(stored, Some(stored)) == stored,
{
}

/// The views of the canonicalization results for each entry's stored path.
pub open spec fn canon_views(l: Seq<Option<String>>) -> Seq<Option<Seq<char>>> {
    Seq::new(
        l.len(),
        |i: int|
            match l[i] {
                Some(s) => Some(s@),
                None => None,
            },
    )
}

/// Entry `i` is the work-tree the caller stands in: its shown path equals
/// the current repository root.
pub open spec fn is_base_match(
    m: Seq<EntryModel>,
    canon: Seq<Option<Seq<char>>>,
    root: Seq<char>,
    i: int,
) -> bool {
    shown_path(m[i].path, canon[i]) == root
}

/// Where `base` goes: the source repository of the work-tree the caller
/// stands in, or the repository root itself when the caller is not inside a
/// tracked work-tree (that is success, not an error).
pub enum BaseTarget {
    /// The caller stands in the tracked work-tree whose entry was matched.
    InWorkTree { source_repo: String },
    /// The caller is not inside a tracked work-tree.
    Outside { repo_root: String },
}

/// Resolves the `base` command: `canon` holds, for each entry in order, the
/// canonicalization result of its stored path; `repo_root` is the canonical
/// root of the repository the caller stands in.
pub fn cd_base_target(m: &Metadata, canon: &Vec<Option<String>>, repo_root: &str) -> (r: BaseTarget)
    requires
        canon@.len() == m@.len(),
    ensures
        match r {
            BaseTarget::InWorkTree { source_repo } => exists|i: int|
                {
                    &&& 0 <= i < m@.len()
                    &&& #[trigger] is_base_match(m@, canon_views(canon@), repo_root@, i)
                    &&& forall|k: int|
                        0 <= k < i ==> !is_base_match(m@, canon_views(canon@), repo_root@, k)
                    &&& source_repo@ == m@[i].source_repo
                },
            BaseTarget::Outside { repo_root: rr } => {
                &&& forall|k: int|
                    0 <= k < m@.len() ==> !is_base_match(m@, canon_views(canon@), repo_root@, k)
                &&& rr@ == repo_root@
            },
        },
{
    let n = m.worktrees.len();
    let mut i: usize = 0;
    while i < n
        invariant
            i <= n,
            n == m@.len(),
            canon@.len() == m@.len(),
            forall|k: int| 0 <= k < i ==> !is_base_match(m@, canon_views(canon@), repo_root@, k),
        decreases n - i,
    {
        let shown = display_path(m.worktrees[i].path.as_str(), &canon[i]);
        if str_eq(shown.as_str(), repo_root) {
            proof {
                assert(is_base_match(m@, canon_views(canon@), repo_root@, i as int));
            }
            return BaseTarget::InWorkTree { source_repo: m.worktrees[i].source_repo.clone() };
        }
        proof {
            assert(!is_base_match(m@, canon_views(canon@), repo_root@, i as int));
        }
        i = i + 1;
    }
    BaseTarget::Outside { repo_root: String::from_str(repo_root) }
}

/// Relies on `std::time::SystemTime::now` and `duration_since` against
/// `UNIX_EPOCH`: the clock reading, `None` when the clock stands before the
/// epoch. Nothing can be promised of what the clock returns.
#[verifier::external_body]
fn system_now_unix_secs() -> (r: Option<u64>)
{
    std::time::SystemTime::now().duration_since(std::time::UNIX_EPOCH).ok().map(|d| d.as_secs())
}

/// The creation timestamp for a new entry: seconds since the epoch, `None`
/// when the system clock cannot say (before the epoch, or out of range).
pub fn now_ts() -> (r: Option<i64>)
    ensures
        r matches Some(t) ==> t >= 0,
{
    match system_now_unix_secs() {
        Some(s) => {
            if s <= i64::MAX as u64 {
                Some(s as i64)
            } else {
                None
            }
        },
        None => None,
    }
}

} // verus!
