//! Resolving editor-facing links to hosted source code.
//!
//! A link names a repository at a code host, optionally a revision, a path
//! and a position. It may be written as a web address of the code-intelligence
//! service or in the short `sg://` form, with a host's full name or its alias.
//! Normalizing brings these to one text, parsing takes that text apart, and
//! resolving the revision to a commit makes the reference that everything
//! else works with.

pub mod contents;
pub mod error;
pub mod laws;
pub mod normalize;
pub mod parse;
pub mod position;
pub mod remote_file;
pub mod resolve;
pub mod target;
pub mod text;

pub use crate::contents::{
    get_remote_file_contents, lines_from_answer, lines_from_reply, lines_of, FileCommit,
    FileData, FileEntry, FileReply, FileRepository,
};
pub use crate::error::{LinkError, Missing};
pub use crate::normalize::{normalize, normalize_at, normalize_url, HostAlias};
pub use crate::parse::{clean_remote, parse_reference, ParsedLink};
pub use crate::remote_file::{parse_link, uri_from_link, RemoteFile};
pub use crate::resolve::{
    commit_from_reply, get_commit_hash, is_full_commit_id, plan_commit, resolve_answer,
    CommitData, CommitEntry, CommitPlan, CommitReply, CommitRepository,
};
pub use crate::target::ResolvedTarget;
