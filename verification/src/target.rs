//! What a resolved reference points at: a file or a directory.

use crate::remote_file::{Reference, RemoteFile};
use vstd::prelude::*;

verus! {

/// What a `ResolvedTarget` stands for in contracts.
pub enum Target {
    /// A file, with the position in it where one is given.
    File(Reference),
    /// A directory: a remote, a commit and a path.
    Directory { remote: Seq<char>, commit: Seq<char>, path: Seq<char> },
}

/// The target that `file` is: a directory keeps the remote, the commit and
/// the path, and no position; a file keeps everything.
pub open spec fn target_of(file: Reference, is_directory: bool) -> Target {
    if is_directory {
        Target::Directory { remote: file.remote, commit: file.commit, path: file.path }
    } else {
        Target::File(file)
    }
}

/// What a resolved reference points at. Each kind holds only what that kind
/// has: a position belongs to a file.
#[derive(Clone, Debug)]
pub enum ResolvedTarget {
    /// A file, with the position in it where one is given.
    File(RemoteFile),
    /// A directory.
    Directory {
        /// The code host and repository.
        remote: String,
        /// The commit.
        commit: String,
        /// The path within the repository; empty for its root.
        path: String,
    },
}

impl View for ResolvedTarget {
    type V = Target;

    open spec fn view(&self) -> Target {
        match self {
            ResolvedTarget::File(file) => Target::File(file@),
            ResolvedTarget::Directory { remote, commit, path } => Target::Directory {
                remote: remote@,
                commit: commit@,
                path: path@,
            },
        }
    }
}

impl ResolvedTarget {
    /// The target that `file` is, once the service has said whether its path
    /// is a directory.
    pub fn new(file: RemoteFile, is_directory: bool) -> (target: ResolvedTarget)
        ensures
            target@ == target_of(file@, is_directory),
    {
        if is_directory {
            ResolvedTarget::Directory { remote: file.remote, commit: file.commit, path: file.path }
        } else {
            ResolvedTarget::File(file)
        }
    }

    /// The file that this target is, and `None` for a directory: what asks
    /// about a place in a file can only be asked of a file.
    pub fn file(self) -> (r: Option<RemoteFile>)
        ensures
            match self@ {
                Target::File(file) => r is Some && r->0@ == file,
                Target::Directory { .. } => r is None,
            },
    {
        match self {
            ResolvedTarget::File(file) => Some(file),
            ResolvedTarget::Directory { .. } => None,
        }
    }
}

} // verus!
