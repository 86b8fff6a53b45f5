//! The resolved reference to a file or directory, and how a link becomes one.

use crate::contents::{fetched, get_remote_file_contents, lines_view, FileReply};
use crate::error::LinkError;
use crate::normalize::{
    github_alias, github_host, normalize_url, normalized, service_prefix, short_scheme,
};
use crate::parse::{
    at_sign, blob_marker, no_double_slash, parse_reference, parse_spec, separator, ParsedFields,
    ParsedLink,
};
use crate::position::as_nat;
use crate::resolve::is_full_commit;
use crate::text::{chars_to_string, matches_at, matches_here, to_chars};
use vstd::prelude::*;
use vstd::string::StringExecFns;

verus! {

/// What a `RemoteFile` stands for in contracts.
pub struct Reference {
    /// The code host and repository.
    pub remote: Seq<char>,
    /// The commit, or the revision that stands for it until it is resolved.
    pub commit: Seq<char>,
    /// The path within the repository; empty for its root.
    pub path: Seq<char>,
    /// The line, counted from 1, where a position is given.
    pub line: Option<nat>,
    /// The column, counted from 1, where a position is given.
    pub col: Option<nat>,
}

impl Reference {
    /// What holds of every reference made from a link: the remote is not
    /// empty and holds no doubled `/`, and a column comes only with a line.
    pub open spec fn well_formed(self) -> bool {
        &&& self.remote.len() > 0
        &&& no_double_slash(self.remote)
        &&& self.col is Some ==> self.line is Some
    }

    /// Whether the commit is a full commit identifier.
    pub open spec fn is_resolved(self) -> bool {
        is_full_commit(self.commit)
    }
}

/// The reference that a parsed link and the commit of its revision make.
pub open spec fn reference_of(fields: ParsedFields, commit: Seq<char>) -> Reference {
    Reference {
        remote: fields.remote,
        commit,
        path: fields.path,
        line: fields.line,
        col: fields.col,
    }
}

/// `remote` with `gh` in place of the host `github.com`.
pub open spec fn short_remote(remote: Seq<char>) -> Seq<char> {
    if remote == github_host() || matches_at(remote, github_host().push('/'), 0) {
        github_alias() + remote.skip(github_host().len() as int)
    } else {
        remote
    }
}

/// The first five characters of `commit`, or all of it where it is shorter.
pub open spec fn short_commit(commit: Seq<char>) -> Seq<char> {
    if commit.len() > 5 {
        commit.take(5)
    } else {
        commit
    }
}

/// The short name under which a reference is shown.
pub open spec fn display_name(file: Reference) -> Seq<char> {
    short_scheme() + short_remote(file.remote) + short_commit(file.commit) + separator()
        + file.path
}

/// A reference written as a normalized link: the remote, `@`, the commit,
/// `/-/`, `blob/` and the path.
pub open spec fn canonical_link(file: Reference) -> Seq<char> {
    file.remote + at_sign() + file.commit + separator() + (blob_marker() + file.path)
}

/// The address of a reference at the public service: the service's prefix
/// before the reference as a normalized link.
pub open spec fn web_url(file: Reference) -> Seq<char> {
    service_prefix() + canonical_link(file)
}

/// A file or directory at one commit of a repository, with an optional
/// position in it.
#[derive(Clone, Debug)]
pub struct RemoteFile {
    /// The code host and repository.
    pub remote: String,
    /// The commit, or the revision that stands for it until it is resolved.
    pub commit: String,
    /// The path within the repository; empty for its root.
    pub path: String,
    /// The line, counted from 1, where a position is given.
    pub line: Option<usize>,
    /// The column, counted from 1, where a position is given.
    pub col: Option<usize>,
}

impl View for RemoteFile {
    type V = Reference;

    open spec fn view(&self) -> Reference {
        Reference {
            remote: self.remote@,
            commit: self.commit@,
            path: self.path@,
            line: as_nat(self.line),
            col: as_nat(self.col),
        }
    }
}

impl RemoteFile {
    /// The reference that a parsed link and the commit of its revision make.
    pub fn from_parsed(parsed: ParsedLink, commit: String) -> (file: RemoteFile)
        ensures
            file@ == reference_of(parsed@, commit@),
            parsed@.well_formed() ==> file@.well_formed(),
    {
        RemoteFile {
            remote: parsed.remote,
            commit,
            path: parsed.path,
            line: parsed.line,
            col: parsed.col,
        }
    }

    /// The remote with `gh` in place of the host `github.com`.
    pub fn shortened_remote(&self) -> (out: String)
        ensures
            out@ == short_remote(self.remote@),
    {
        proof {
            reveal_strlit("github.com");
            reveal_strlit("github.com/");
            reveal_strlit("gh");
        }
        let chars = to_chars(self.remote.as_str());
        let host = to_chars("github.com");
        let host_slash = to_chars("github.com/");
        assert(host_slash@ =~= github_host().push('/'));
        let is_host = chars.len() == host.len() && matches_here(&chars, &host, 0);
        assert(is_host == (chars@ == github_host())) by {
            if chars@.len() == 10 {
                assert(chars@.subrange(0, 10) =~= chars@);
            }
        }
        if is_host || matches_here(&chars, &host_slash, 0) {
            let rest = chars_to_string(&chars, 10, chars.len());
            assert(chars@.subrange(10, chars@.len() as int) =~= chars@.skip(10));
            let out = "gh".to_owned().concat(rest.as_str());
            assert("gh"@ =~= github_alias());
            out
        } else {
            self.remote.clone()
        }
    }

    /// The first five characters of the commit, or all of it where it is
    /// shorter.
    pub fn shortened_commit(&self) -> (out: String)
        ensures
            out@ == short_commit(self.commit@),
    {
        let chars = to_chars(self.commit.as_str());
        if chars.len() > 5 {
            let out = chars_to_string(&chars, 0, 5);
            assert(chars@.subrange(0, 5) =~= chars@.take(5));
            out
        } else {
            self.commit.clone()
        }
    }

    /// The short name under which this reference is shown: `sg://`, the
    /// shortened remote, the shortened commit, `/-/` and the path.
    ///
    /// The name is a label, not a key: two commits that share their first
    /// five characters give one name.
    pub fn bufname(&self) -> (out: String)
        ensures
            out@ == display_name(self@),
    {
        proof {
            reveal_strlit("sg://");
            reveal_strlit("/-/");
        }
        let start = "sg://".to_owned();
        assert(start@ =~= short_scheme());
        assert("/-/"@ =~= separator());
        let out = start.concat(self.shortened_remote().as_str());
        let out = out.concat(self.shortened_commit().as_str());
        let out = out.concat("/-/");
        out.concat(self.path.as_str())
    }

    /// The address of this reference at the public service:
    /// `https://sourcegraph.com/`, the remote, `@`, the commit, `/-/blob/`
    /// and the path. The position is not part of it.
    pub fn sourcegraph_url(&self) -> (out: String)
        ensures
            out@ == web_url(self@),
    {
        proof {
            reveal_strlit("@");
            reveal_strlit("/-/blob/");
        }
        assert("@"@ =~= at_sign());
        assert("/-/blob/"@ =~= separator() + blob_marker());
        let out = "https://sourcegraph.com/".to_owned();
        let out = out.concat(self.remote.as_str());
        let out = out.concat("@");
        let out = out.concat(self.commit.as_str());
        let out = out.concat("/-/blob/");
        let out = out.concat(self.path.as_str());
        assert(out@ =~= web_url(self@));
        out
    }

    /// Fetches the lines of this file. `fetch` is called once, with the
    /// remote, the commit and the path, and the result is what its outcome
    /// amounts to.
    pub fn read<F>(&self, fetch: F) -> (r: Result<Vec<String>, LinkError>) where
        F: FnOnce(String, String, String) -> Result<FileReply, LinkError>,

        requires
            forall|a: String, b: String, c: String|
                a@ == self.remote@ && b@ == self.commit@ && c@ == self.path@ ==> fetch.requires(
                    (a, b, c),
                ),
        ensures
            exists|a: String, b: String, c: String, answer: Result<FileReply, LinkError>|
                a@ == self.remote@ && b@ == self.commit@ && c@ == self.path@ && fetch.ensures(
                    (a, b, c),
                    answer,
                ) && lines_view(r) == fetched(answer),
    {
        get_remote_file_contents(
            self.remote.as_str(),
            self.commit.as_str(),
            self.path.as_str(),
            fetch,
        )
    }
}

/// Normalizes `url` and takes it apart.
pub fn parse_link(url: &str) -> (r: Result<ParsedLink, LinkError>)
    ensures
        match parse_spec(normalized(url@)) {
            Ok(fields) => r is Ok && r->Ok_0@ == fields && fields.well_formed(),
            Err(error) => r is Err && r->Err_0 == error,
        },
{
    let text = normalize_url(url);
    parse_reference(text.as_str())
}

/// Turns a link into a resolved reference.
///
/// The link is normalized and taken apart first. Where that fails the
/// failure is the result and `converter` is not called. Otherwise `converter`
/// is called once, with the remote and the revision of the link. Its failure
/// is the result; its commit, with the parts of the link, makes the
/// reference.
pub fn uri_from_link<F>(url: &str, converter: F) -> (r: Result<RemoteFile, LinkError>) where
    F: FnOnce(String, String) -> Result<String, LinkError>,

    requires
        parse_spec(normalized(url@)) matches Ok(fields) ==> forall|
            remote: String,
            revision: String,
        |
            remote@ == fields.remote && revision@ == fields.revision ==> converter.requires(
                (remote, revision),
            ),
    ensures
        match parse_spec(normalized(url@)) {
            Err(error) => r is Err && r->Err_0 == error,
            Ok(fields) => exists|remote: String, revision: String, answer: Result<String, LinkError>|
                {
                    &&& remote@ == fields.remote
                    &&& revision@ == fields.revision
                    &&& converter.ensures((remote, revision), answer)
                    &&& match answer {
                        Ok(commit) => r is Ok && r->Ok_0@ == reference_of(fields, commit@)
                            && r->Ok_0@.well_formed(),
                        Err(error) => r is Err && r->Err_0 == error,
                    }
                },
        },
{
    let parsed = match parse_link(url) {
        Ok(parsed) => parsed,
        Err(error) => {
            return Err(error);
        },
    };
    let remote = parsed.remote.clone();
    let revision = parsed.revision.clone();
    match converter(remote, revision) {
        Ok(commit) => Ok(RemoteFile::from_parsed(parsed, commit)),
        Err(error) => Err(error),
    }
}

} // verus!
