//! Turning a revision into a commit identifier.
//!
//! A revision that already is a full commit identifier is its own answer.
//! Every other revision has to be looked up at the code-intelligence service.
//! The request itself is made by the caller: this module says when one is
//! needed and reads the reply.

use crate::error::{LinkError, Missing};
use crate::text::to_chars;
use vstd::prelude::*;

verus! {

/// Whether `c` is a hexadecimal digit, in either case.
pub open spec fn is_hex_digit(c: char) -> bool {
    ('0' <= c <= '9') || ('a' <= c <= 'f') || ('A' <= c <= 'F')
}

/// Whether `revision` has the form of a full commit identifier: forty
/// hexadecimal digits.
pub open spec fn is_full_commit(revision: Seq<char>) -> bool {
    &&& revision.len() == 40
    &&& forall|i: int| 0 <= i < revision.len() ==> is_hex_digit(#[trigger] revision[i])
}

/// Whether `revision` has the form of a full commit identifier.
pub fn is_full_commit_id(revision: &str) -> (r: bool)
    ensures
        r == is_full_commit(revision@),
{
    let chars = to_chars(revision);
    if chars.len() != 40 {
        return false;
    }
    let mut i: usize = 0;
    while i < chars.len()
        invariant
            i <= chars.len(),
            chars@ == revision@,
            forall|j: int| 0 <= j < i ==> is_hex_digit(#[trigger] chars@[j]),
        decreases chars.len() - i,
    {
        let c = chars[i];
        let hex = ('0' <= c && c <= '9') || ('a' <= c && c <= 'f') || ('A' <= c && c <= 'F');
        if !hex {
            return false;
        }
        i += 1;
    }
    true
}

/// What has to happen before a revision's commit is known.
#[derive(Debug)]
pub enum CommitPlan {
    /// Nothing: the revision is the commit.
    Known(String),
    /// One request to the service, for this remote and revision.
    Lookup { remote: String, revision: String },
}

/// Says whether `revision` must be looked up. A full commit identifier is
/// known as it stands; anything else asks for one lookup of `revision` at
/// `remote`.
pub fn plan_commit(remote: String, revision: String) -> (plan: CommitPlan)
    ensures
        is_full_commit(revision@) ==> plan == CommitPlan::Known(revision),
        !is_full_commit(revision@) ==> plan == (CommitPlan::Lookup { remote, revision }),
{
    if is_full_commit_id(revision.as_str()) {
        CommitPlan::Known(revision)
    } else {
        CommitPlan::Lookup { remote, revision }
    }
}

/// The commit in a reply to a commit lookup.
#[derive(Clone, Debug)]
pub struct CommitEntry {
    /// The full commit identifier.
    pub oid: String,
}

/// The repository in a reply to a commit lookup.
#[derive(Clone, Debug)]
pub struct CommitRepository {
    /// The commit of the revision asked for, if the repository has it.
    pub commit: Option<CommitEntry>,
}

/// The data in a reply to a commit lookup.
#[derive(Clone, Debug)]
pub struct CommitData {
    /// The repository asked for, if the service knows it.
    pub repository: Option<CommitRepository>,
}

/// The service's reply to a commit lookup.
#[derive(Clone, Debug)]
pub struct CommitReply {
    /// The data of the reply, if it holds any.
    pub data: Option<CommitData>,
}

/// The commit that `reply` holds, or what it lacks: data, the repository, or
/// the revision.
pub open spec fn commit_of(reply: CommitReply) -> Result<String, LinkError> {
    match reply.data {
        None => Err(LinkError::NoData),
        Some(data) => match data.repository {
            None => Err(LinkError::NotFound(Missing::Repository)),
            Some(repository) => match repository.commit {
                None => Err(LinkError::NotFound(Missing::Revision)),
                Some(commit) => Ok(commit.oid),
            },
        },
    }
}

/// What a lookup's outcome resolves to: the commit of a reply that holds
/// one, what the reply lacks, or the failure of the request itself.
pub open spec fn resolved(answer: Result<CommitReply, LinkError>) -> Result<String, LinkError> {
    match answer {
        Ok(reply) => commit_of(reply),
        Err(error) => Err(error),
    }
}

/// Reads the commit out of a reply to a commit lookup.
pub fn commit_from_reply(reply: CommitReply) -> (r: Result<String, LinkError>)
    ensures
        r == commit_of(reply),
{
    match reply.data {
        None => Err(LinkError::NoData),
        Some(data) => match data.repository {
            None => Err(LinkError::NotFound(Missing::Repository)),
            Some(repository) => match repository.commit {
                None => Err(LinkError::NotFound(Missing::Revision)),
                Some(commit) => Ok(commit.oid),
            },
        },
    }
}

/// Reads the commit out of a lookup's outcome; a failed request stays the
/// failure it was.
pub fn resolve_answer(answer: Result<CommitReply, LinkError>) -> (r: Result<String, LinkError>)
    ensures
        r == resolved(answer),
{
    match answer {
        Ok(reply) => commit_from_reply(reply),
        Err(error) => Err(error),
    }
}

/// Resolves `revision` at `remote` to a commit identifier.
///
/// A full commit identifier comes back unchanged and `lookup` is not called:
/// nothing is asked of `lookup` on such a revision, so it could not be. Any
/// other revision is handed to `lookup`, once, and the result is what its
/// outcome resolves to.
pub fn get_commit_hash<F>(remote: String, revision: String, lookup: F) -> (r: Result<
    String,
    LinkError,
>) where F: FnOnce(String, String) -> Result<CommitReply, LinkError>
    requires
        !is_full_commit(revision@) ==> lookup.requires((remote, revision)),
    ensures
        is_full_commit(revision@) ==> r == Ok::<String, LinkError>(revision),
        !is_full_commit(revision@) ==> exists|answer: Result<CommitReply, LinkError>|
            lookup.ensures((remote, revision), answer) && r == resolved(answer),
{
    match plan_commit(remote, revision) {
        CommitPlan::Known(commit) => Ok(commit),
        CommitPlan::Lookup { remote, revision } => {
            let answer = lookup(remote, revision);
            resolve_answer(answer)
        },
    }
}

} // verus!
