//! The metadata store: the ordered collection of tracked work-trees, its
//! uniqueness invariant, and the lifecycle steps that read or change it.

use vstd::prelude::*;
use crate::errors::Error;
use crate::text::str_eq;

verus! {

/// One tracked work-tree, immutable once appended to the store.
#[derive(Clone)]
pub struct WorktreeEntry {
    /// Unique human-chosen identifier, the key within the store.
    pub name: String,
    /// Canonical absolute path of the work-tree directory.
    pub path: String,
    /// Canonical absolute path of the originating repository root.
    pub source_repo: String,
    /// The branch created for this work-tree.
    pub branch: String,
    /// Creation time, seconds since the epoch.
    pub created_at: i64,
}

/// The mathematical shape of an entry: its fields as sequences and integers.
pub ghost struct EntryModel {
    pub name: Seq<char>,
    pub path: Seq<char>,
    pub source_repo: Seq<char>,
    pub branch: Seq<char>,
    pub created_at: int,
}

impl View for WorktreeEntry {
    type V = EntryModel;

    open spec fn view(&self) -> EntryModel {
        EntryModel {
            name: self.name@,
            path: self.path@,
            source_repo: self.source_repo@,
            branch: self.branch@,
            created_at: self.created_at as int,
        }
    }
}

/// The ordered collection of tracked work-trees, insertion order preserved.
pub struct Metadata {
    pub worktrees: Vec<WorktreeEntry>,
}

impl View for Metadata {
    type V = Seq<EntryModel>;

    open spec fn view(&self) -> Seq<EntryModel> {
        Seq::new(self.worktrees@.len(), |i: int| self.worktrees@[i]@)
    }
}

/// Some entry of `m` is named `name`.
pub open spec fn has_name(m: Seq<EntryModel>, name: Seq<char>) -> bool {
    exists|i: int| 0 <= i < m.len() && m[i].name == name
}

/// The index of the first entry of `m` named `name`.
pub open spec fn first_index(m: Seq<EntryModel>, name: Seq<char>) -> int
    decreases m.len(),
{
    if m.len() == 0 {
        0
    } else if m[0].name == name {
        0
    } else {
        1 + first_index(m.drop_first(), name)
    }
}

/// No two entries of `m` share a name: the store invariant.
pub open spec fn names_unique(m: Seq<EntryModel>) -> bool {
    forall|i: int, j: int| 0 <= i < j < m.len() ==> m[i].name != m[j].name
}

pub proof fn lemma_first_index_found(m: Seq<EntryModel>, name: Seq<char>)
    requires
        has_name(m, name),
    ensures
        0 <= first_index(m, name) < m.len(),
        m[first_index(m, name)].name == name,
        forall|k: int| 0 <= k < first_index(m, name) ==> m[k].name != name,
    decreases m.len(),
{
    if m.len() > 0 && m[0].name != name {
        let rest = m.drop_first();
        let i = choose|i: int| 0 <= i < m.len() && m[i].name == name;
        assert(rest[i - 1] == m[i]);
        lemma_first_index_found(rest, name);
        assert(first_index(m, name) == 1 + first_index(rest, name));
        assert forall|k: int| 0 <= k < first_index(m, name) implies m[k].name != name by {
            if k > 0 {
                assert(rest[k - 1] == m[k]);
            }
        }
    }
}

impl Metadata {
    /// The store invariant: names are unique.
    pub open spec fn wf(&self) -> bool {
        names_unique(self@)
    }

    /// The empty store, used when the backing file is absent.
    pub fn new() -> (r: Metadata)
        ensures
            r@ == Seq::<EntryModel>::empty(),
            r.wf(),
    {
        let r = Metadata { worktrees: Vec::new() };
        proof {
            assert(r@ =~= Seq::<EntryModel>::empty());
        }
        r
    }
}

/// Whether the store holds an entry named `name`, with the index of the
/// first such entry.
fn find_entry(m: &Metadata, name: &str) -> (r: Option<usize>)
    ensures
        match r {
            Some(i) => {
                &&& has_name(m@, name@)
                &&& i == first_index(m@, name@)
                &&& i < m@.len()
            },
            None => !has_name(m@, name@),
        },
{
    let n = m.worktrees.len();
    let mut i: usize = 0;
    while i < n
        invariant
            n == m@.len(),
            i <= n,
            forall|k: int| 0 <= k < i ==> m@[k].name != name@,
        decreases n - i,
    {
        if str_eq(m.worktrees[i].name.as_str(), name) {
            proof {
                assert(m@[i as int].name == name@);
                lemma_first_index_found(m@, name@);
            }
            return Some(i);
        }
        i = i + 1;
    }
    None
}

/// Looks a tracked work-tree up by name and returns its stored path,
/// failing with `UnknownWorkTreeError` when no entry has that name.
pub fn cd_worktree(m: &Metadata, name: &str) -> (r: Result<String, Error>)
    ensures
        match r {
            Ok(p) => has_name(m@, name@) && p@ == m@[first_index(m@, name@)].path,
            Err(e) => !has_name(m@, name@) && (e matches Error::UnknownWorkTreeError {
                name: n,
            } && n@ == name@),
        },
{
    match find_entry(m, name) {
        Some(i) => Ok(m.worktrees[i].path.clone()),
        None => Err(Error::UnknownWorkTreeError { name: String::from_str(name) }),
    }
}

/// Drops the entry named `name` from the store and hands it back so that the
/// caller can remove the underlying work-tree; the store is unchanged when
/// the name is unknown.
pub fn delete_worktree(m: &mut Metadata, name: &str) -> (r: Result<WorktreeEntry, Error>)
    ensures
        match r {
            Ok(e) => {
                &&& has_name(old(m)@, name@)
                &&& e@ == old(m)@[first_index(old(m)@, name@)]
                &&& final(m)@ == old(m)@.remove(first_index(old(m)@, name@))
                &&& old(m).wf() ==> final(m).wf() && !has_name(final(m)@, name@)
            },
            Err(e) => {
                &&& !has_name(old(m)@, name@)
                &&& final(m)@ == old(m)@
                &&& (e matches Error::UnknownWorkTreeError { name: n } && n@ == name@)
            },
        },
{
    match find_entry(m, name) {
        Some(i) => {
            let entry = m.worktrees.remove(i);
            proof {
                assert(m@ =~= old(m)@.remove(i as int));
                if old(m).wf() {
                    lemma_delete_removes_tracking(old(m)@, name@);
                }
            }
            Ok(entry)
        },
        None => Err(Error::UnknownWorkTreeError { name: String::from_str(name) }),
    }
}

/// Validates the preconditions of `create`: the destination path must not
/// exist on disk and the name must not already be tracked. The caller states
/// whether the path exists; `worktree_path` is only quoted in the error.
pub fn check_create(m: &Metadata, name: &str, path_exists: bool, worktree_path: &str) -> (r:
    Result<(), Error>)
    ensures
        match r {
            Ok(()) => !path_exists && !has_name(m@, name@),
            Err(e) => {
                &&& path_exists || has_name(m@, name@)
                &&& (e matches Error::AlreadyExistsError { what: w } && w@ == (if path_exists {
                    worktree_path@
                } else {
                    name@
                }))
            },
        },
{
    if path_exists {
        return Err(Error::AlreadyExistsError { what: String::from_str(worktree_path) });
    }
    match find_entry(m, name) {
        Some(_) => Err(Error::AlreadyExistsError { what: String::from_str(name) }),
        None => Ok(()),
    }
}

/// Appends a freshly created work-tree to the store; a duplicate name fails
/// with `AlreadyExistsError` and leaves the store unchanged.
pub fn record_create(m: &mut Metadata, entry: WorktreeEntry) -> (r: Result<(), Error>)
    ensures
        match r {
            Ok(()) => {
                &&& !has_name(old(m)@, entry@.name)
                &&& final(m)@ == old(m)@.push(entry@)
                &&& old(m).wf() ==> final(m).wf()
            },
            Err(e) => {
                &&& has_name(old(m)@, entry@.name)
                &&& final(m)@ == old(m)@
                &&& (e matches Error::AlreadyExistsError { what: w } && w@ == entry@.name)
            },
        },
{
    match find_entry(m, entry.name.as_str()) {
        Some(_) => Err(Error::AlreadyExistsError { what: entry.name.clone() }),
        None => {
            proof {
                if old(m).wf() {
                    lemma_create_preserves_uniqueness(old(m)@, entry@);
                }
            }
            let ghost pre = m@;
            m.worktrees.push(entry);
            proof {
                assert(m@ =~= pre.push(entry@));
            }
            Ok(())
        },
    }
}

/// Uniqueness law: starting from any store without the new name, appending
/// one entry with that name preserves the invariant that no two entries
/// share a name. The empty store satisfies the invariant, so every sequence
/// of successful `create` steps keeps all names distinct.
pub proof fn lemma_create_preserves_uniqueness(pre: Seq<EntryModel>, e: EntryModel)
    requires
        names_unique(pre),
        !has_name(pre, e.name),
    ensures
        names_unique(pre.push(e)),
{
    let post = pre.push(e);
    assert forall|i: int, j: int| 0 <= i < j < post.len() implies post[i].name != post[j].name by {
        if j == post.len() - 1 {
            assert(post[i] == pre[i]);
        } else {
            assert(post[i] == pre[i] && post[j] == pre[j]);
        }
    }
}

/// Delete removes tracking: under the uniqueness invariant, removing the
/// entry named `name` leaves a store in which that name no longer resolves,
/// and the invariant still holds.
pub proof fn lemma_delete_removes_tracking(pre: Seq<EntryModel>, name: Seq<char>)
    requires
        names_unique(pre),
        has_name(pre, name),
    ensures
        !has_name(pre.remove(first_index(pre, name)), name),
        names_unique(pre.remove(first_index(pre, name))),
{
    lemma_first_index_found(pre, name);
    let fi = first_index(pre, name);
    let post = pre.remove(fi);
    assert forall|k: int| 0 <= k < post.len() implies post[k].name != name by {
        if k < fi {
            assert(post[k] == pre[k]);
        } else {
            assert(post[k] == pre[k + 1]);
        }
    }
    assert forall|i: int, j: int| 0 <= i < j < post.len() implies post[i].name != post[j].name by {
        if j < fi {
        } else if i < fi {
            assert(post[i] == pre[i] && post[j] == pre[j + 1]);
        } else {
            assert(post[i] == pre[i + 1] && post[j] == pre[j + 1]);
        }
    }
}

} // verus!
