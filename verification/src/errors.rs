//! The error taxonomy shared by every operation of the library.

use vstd::prelude::*;

verus! {

/// Everything that can abort an operation, mirroring the failure modes of the
/// tool: canonicalization failures, malformed persisted state, bad config
/// keys, create/lookup collisions, failed git invocations and seeding I/O.
#[derive(Debug)]
pub enum Error {
    /// A path could not be canonicalized.
    PathError { path: String },
    /// The configuration file exists but cannot be understood.
    ConfigError { detail: String },
    /// The metadata file exists but cannot be understood.
    MetadataError { detail: String },
    /// `config get`/`config set` was given a key outside the fixed key set.
    UnknownKeyError { key: String },
    /// `create` found the requested name or destination path already taken.
    AlreadyExistsError { what: String },
    /// A lookup by work-tree name found no entry.
    UnknownWorkTreeError { name: String },
    /// The version-control tool exited unsuccessfully.
    GitError { exit_code: Option<i32>, stderr: String },
    /// A structural I/O failure while seeding files into a new work-tree.
    CopyError { detail: String },
}

} // verus!
