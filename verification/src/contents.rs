//! Reading a file's lines out of the service's reply.

use crate::error::{LinkError, Missing};
use crate::text::to_chars;
use vstd::prelude::*;

verus! {

/// The file in a reply to a file request.
#[derive(Clone, Debug)]
pub struct FileEntry {
    /// The whole text of the file.
    pub content: String,
}

/// The commit in a reply to a file request.
#[derive(Clone, Debug)]
pub struct FileCommit {
    /// The file asked for, if the commit has it.
    pub file: Option<FileEntry>,
}

/// The repository in a reply to a file request.
#[derive(Clone, Debug)]
pub struct FileRepository {
    /// The commit asked for, if the repository has it.
    pub commit: Option<FileCommit>,
}

/// The data in a reply to a file request.
#[derive(Clone, Debug)]
pub struct FileData {
    /// The repository asked for, if the service knows it.
    pub repository: Option<FileRepository>,
}

/// The service's reply to a file request.
#[derive(Clone, Debug)]
pub struct FileReply {
    /// The data of the reply, if it holds any.
    pub data: Option<FileData>,
}

/// The lines of `s`: what stands between its line feeds, so one line more
/// than it has line feeds. A text that ends in a line feed ends in an empty
/// line.
pub open spec fn split_lines(s: Seq<char>) -> Seq<Seq<char>>
    decreases s.len(),
{
    if s.len() == 0 {
        seq![Seq::<char>::empty()]
    } else {
        let before = split_lines(s.drop_last());
        if s.last() == '\n' {
            before.push(Seq::<char>::empty())
        } else {
            before.drop_last().push(before.last().push(s.last()))
        }
    }
}

/// The text of the file that `reply` holds, or what it lacks: data, the
/// repository, the commit, or the file.
pub open spec fn content_of(reply: FileReply) -> Result<Seq<char>, LinkError> {
    match reply.data {
        None => Err(LinkError::NoData),
        Some(data) => match data.repository {
            None => Err(LinkError::NotFound(Missing::Repository)),
            Some(repository) => match repository.commit {
                None => Err(LinkError::NotFound(Missing::Revision)),
                Some(commit) => match commit.file {
                    None => Err(LinkError::NotFound(Missing::File)),
                    Some(file) => Ok(file.content@),
                },
            },
        },
    }
}

/// What a file request's outcome amounts to: the lines of the file in a reply
/// that holds one, what the reply lacks, or the failure of the request itself.
pub open spec fn fetched(answer: Result<FileReply, LinkError>) -> Result<
    Seq<Seq<char>>,
    LinkError,
> {
    match answer {
        Ok(reply) => match content_of(reply) {
            Ok(content) => Ok(split_lines(content)),
            Err(error) => Err(error),
        },
        Err(error) => Err(error),
    }
}

/// What lines or failure `r` stands for in contracts.
pub open spec fn lines_view(r: Result<Vec<String>, LinkError>) -> Result<Seq<Seq<char>>, LinkError> {
    match r {
        Ok(lines) => Ok(lines.deep_view()),
        Err(error) => Err(error),
    }
}

/// A text has at least one line, and no line holds a line feed.
pub proof fn lemma_lines_hold_no_line_feed(s: Seq<char>)
    ensures
        split_lines(s).len() >= 1,
        forall|i: int, j: int|
            0 <= i < split_lines(s).len() && 0 <= j < split_lines(s)[i].len() ==> split_lines(
                s,
            )[i][j] != '\n',
    decreases s.len(),
{
    if s.len() > 0 {
        lemma_lines_hold_no_line_feed(s.drop_last());
    }
}

/// The lines of `content`.
pub fn lines_of(content: &str) -> (lines: Vec<String>)
    ensures
        lines.deep_view() == split_lines(content@),
{
    let chars = to_chars(content);
    let mut lines: Vec<String> = Vec::new();
    let mut current = String::new();
    let mut i: usize = 0;
    assert(chars@.take(0) =~= Seq::<char>::empty());
    assert(lines.deep_view().push(current@) =~= split_lines(chars@.take(0)));
    while i < chars.len()
        invariant
            i <= chars.len(),
            lines.deep_view().push(current@) == split_lines(chars@.take(i as int)),
        decreases chars.len() - i,
    {
        let ghost seen = chars@.take(i as int);
        let ghost next = chars@.take(i + 1);
        let ghost done = lines.deep_view();
        let ghost line = current@;
        assert(next.drop_last() =~= seen);
        assert(next.last() == chars@[i as int]);
        assert(done.push(line).drop_last() =~= done);
        let c = chars[i];
        if c == '\n' {
            lines.push(current);
            current = String::new();
            assert(lines.deep_view() =~= done.push(line));
        } else {
            current.push(c);
        }
        i += 1;
        assert(lines.deep_view().push(current@) =~= split_lines(next));
    }
    assert(chars@.take(i as int) =~= chars@);
    let ghost done = lines.deep_view();
    lines.push(current);
    assert(lines.deep_view() =~= done.push(current@));
    lines
}

/// Reads the lines of the file out of a reply to a file request.
pub fn lines_from_reply(reply: FileReply) -> (r: Result<Vec<String>, LinkError>)
    ensures
        lines_view(r) == fetched(Ok(reply)),
{
    match reply.data {
        None => Err(LinkError::NoData),
        Some(data) => match data.repository {
            None => Err(LinkError::NotFound(Missing::Repository)),
            Some(repository) => match repository.commit {
                None => Err(LinkError::NotFound(Missing::Revision)),
                Some(commit) => match commit.file {
                    None => Err(LinkError::NotFound(Missing::File)),
                    Some(file) => Ok(lines_of(file.content.as_str())),
                },
            },
        },
    }
}

/// Reads the lines of the file out of a file request's outcome; a failed
/// request stays the failure it was.
pub fn lines_from_answer(answer: Result<FileReply, LinkError>) -> (r: Result<
    Vec<String>,
    LinkError,
>)
    ensures
        lines_view(r) == fetched(answer),
{
    match answer {
        Ok(reply) => lines_from_reply(reply),
        Err(error) => Err(error),
    }
}

/// Fetches the lines of the file at `path` in `commit` of `remote`.
///
/// `fetch` is called once, with these three names, and the result is what
/// its outcome amounts to.
pub fn get_remote_file_contents<F>(remote: &str, commit: &str, path: &str, fetch: F) -> (r: Result<
    Vec<String>,
    LinkError,
>) where F: FnOnce(String, String, String) -> Result<FileReply, LinkError>
    requires
        forall|a: String, b: String, c: String|
            a@ == remote@ && b@ == commit@ && c@ == path@ ==> fetch.requires((a, b, c)),
    ensures
        exists|a: String, b: String, c: String, answer: Result<FileReply, LinkError>|
            a@ == remote@ && b@ == commit@ && c@ == path@ && fetch.ensures((a, b, c), answer)
                && lines_view(r) == fetched(answer),
{
    let answer = fetch(remote.to_owned(), commit.to_owned(), path.to_owned());
    lines_from_answer(answer)
}

} // verus!
