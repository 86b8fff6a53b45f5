//! Taking a normalized link apart.

use crate::error::LinkError;
use crate::position::{as_nat, parse_position, position_of};
use crate::text::{
    chars_to_string, contains_chars, matches_at, occurs, split_once, split_once_chars, to_chars,
};
use vstd::prelude::*;

verus! {

/// `/-/`, which parts the remote from the path.
pub open spec fn separator() -> Seq<char> {
    seq!['/', '-', '/']
}

/// `@`, which parts the remote from the revision.
pub open spec fn at_sign() -> Seq<char> {
    seq!['@']
}

/// `?`, which parts the path from the position.
pub open spec fn question_mark() -> Seq<char> {
    seq!['?']
}

/// `HEAD`, the revision of a link that names none.
pub open spec fn head_revision() -> Seq<char> {
    seq!['H', 'E', 'A', 'D']
}

/// `blob/`, which marks the path of a file.
pub open spec fn blob_marker() -> Seq<char> {
    seq!['b', 'l', 'o', 'b', '/']
}

/// `tree/`, which marks the path of a directory.
pub open spec fn tree_marker() -> Seq<char> {
    seq!['t', 'r', 'e', 'e', '/']
}

/// Whether `s` begins with `blob/` or with `tree/`.
pub open spec fn has_kind_marker(s: Seq<char>) -> bool {
    matches_at(s, blob_marker(), 0) || matches_at(s, tree_marker(), 0)
}

/// `s` without the `blob/` or `tree/` that it begins with, if it begins with
/// one. Only that one marker leaves.
pub open spec fn without_kind_marker(s: Seq<char>) -> Seq<char> {
    if has_kind_marker(s) {
        s.skip(5)
    } else {
        s
    }
}

/// The regular expression that matches a kind marker at the start of a text.
pub open spec fn kind_marker_pattern() -> Seq<char> {
    "^(blob|tree)/"@
}

/// Whether no `/` in `s` directly follows another.
pub open spec fn no_double_slash(s: Seq<char>) -> bool {
    forall|i: int| 0 <= i && i + 1 < s.len() ==> !(#[trigger] s[i] == '/' && s[i + 1] == '/')
}

/// `s` without each `/` that directly follows another `/`.
pub open spec fn collapse_slashes(s: Seq<char>) -> Seq<char>
    decreases s.len(),
{
    if s.len() == 0 {
        s
    } else if s.len() >= 2 && s[s.len() - 2] == '/' && s.last() == '/' {
        collapse_slashes(s.drop_last())
    } else {
        collapse_slashes(s.drop_last()).push(s.last())
    }
}

/// What a link names, before its revision is resolved.
pub struct ParsedFields {
    /// The code host and repository.
    pub remote: Seq<char>,
    /// The revision as the link wrote it, `HEAD` where it wrote none.
    pub revision: Seq<char>,
    /// The path within the repository.
    pub path: Seq<char>,
    /// The line, where the link gives a position.
    pub line: Option<nat>,
    /// The column, where the link gives a position.
    pub col: Option<nat>,
}

impl ParsedFields {
    /// What holds of every parsed link: the remote is not empty and holds no
    /// doubled `/`, and a column comes only with a line.
    pub open spec fn well_formed(self) -> bool {
        &&& self.remote.len() > 0
        &&& no_double_slash(self.remote)
        &&& self.col is Some ==> self.line is Some
    }
}

/// The remote and the revision that the part before `/-/` gives: it is cut at
/// its first `@`, and names `HEAD` where it holds none.
pub open spec fn remote_and_revision(head: Seq<char>) -> (Seq<char>, Seq<char>) {
    match split_once(head, at_sign()) {
        Some((remote, revision)) => (remote, revision),
        None => (head, head_revision()),
    }
}

/// What the part after `/-/` and its kind marker gives: a path, and a position
/// where one `?` parts it from the path. A second `?` is an error.
pub open spec fn path_and_position(remote: Seq<char>, revision: Seq<char>, rest: Seq<char>)
    -> Result<ParsedFields, LinkError> {
    match split_once(rest, question_mark()) {
        None => Ok(ParsedFields { remote, revision, path: rest, line: None, col: None }),
        Some((path, suffix)) => if occurs(suffix, question_mark()) {
            Err(LinkError::TooManyQueryMarkers)
        } else {
            Ok(
                ParsedFields {
                    remote,
                    revision,
                    path,
                    line: position_of(suffix).0,
                    col: position_of(suffix).1,
                },
            )
        },
    }
}

/// What a normalized link names, or why it names nothing.
///
/// The link must fall into exactly two parts around `/-/`. The first holds
/// the remote, which must not be empty, and after its first `@` the revision.
/// The second holds, after an optional kind marker, the path and after a `?`
/// the position. A `/` that directly follows another leaves the remote.
pub open spec fn parse_spec(s: Seq<char>) -> Result<ParsedFields, LinkError> {
    match split_once(s, separator()) {
        None => Err(LinkError::MalformedReference),
        Some((head, tail)) => if occurs(tail, separator()) {
            Err(LinkError::MalformedReference)
        } else {
            let (remote, revision) = remote_and_revision(head);
            if remote.len() == 0 {
                Err(LinkError::MalformedReference)
            } else {
                path_and_position(collapse_slashes(remote), revision, without_kind_marker(tail))
            }
        },
    }
}

/// What a link names, before its revision is resolved.
#[derive(Clone, Debug)]
pub struct ParsedLink {
    /// The code host and repository.
    pub remote: String,
    /// The revision as the link wrote it, `HEAD` where it wrote none.
    pub revision: String,
    /// The path within the repository.
    pub path: String,
    /// The line, where the link gives a position.
    pub line: Option<usize>,
    /// The column, where the link gives a position.
    pub col: Option<usize>,
}

impl View for ParsedLink {
    type V = ParsedFields;

    open spec fn view(&self) -> ParsedFields {
        ParsedFields {
            remote: self.remote@,
            revision: self.revision@,
            path: self.path@,
            line: as_nat(self.line),
            col: as_nat(self.col),
        }
    }
}

/// Collapsing keeps the first and the last character, leaves no doubled `/`,
/// and changes nothing where there was none.
pub proof fn lemma_collapse_slashes(s: Seq<char>)
    ensures
        no_double_slash(collapse_slashes(s)),
        collapse_slashes(s).len() <= s.len(),
        s.len() > 0 ==> collapse_slashes(s).len() > 0 && collapse_slashes(s).last() == s.last(),
        no_double_slash(s) ==> collapse_slashes(s) == s,
    decreases s.len(),
{
    if s.len() > 0 {
        let front = s.drop_last();
        let init = collapse_slashes(front);
        lemma_collapse_slashes(front);
        if s.len() >= 2 && s[s.len() - 2] == '/' && s.last() == '/' {
            assert(front.last() == '/');
            if no_double_slash(s) {
                assert(s[s.len() - 2] == '/' && s[s.len() - 2 + 1] == '/');
            }
        } else {
            let out = init.push(s.last());
            assert forall|i: int| 0 <= i && i + 1 < out.len() implies !(#[trigger] out[i] == '/'
                && out[i + 1] == '/') by {
                if i + 1 < init.len() {
                    assert(out[i] == init[i] && out[i + 1] == init[i + 1]);
                } else {
                    assert(out[i] == front.last());
                    assert(front.last() == s[s.len() - 2]);
                }
            }
            if no_double_slash(s) {
                assert forall|i: int| 0 <= i && i + 1 < front.len() implies !(#[trigger] front[i]
                    == '/' && front[i + 1] == '/') by {
                    assert(front[i] == s[i] && front[i + 1] == s[i + 1]);
                }
                assert(out =~= s);
            }
        }
    }
}

/// Every link that parses is well formed.
pub proof fn lemma_parsed_is_well_formed(s: Seq<char>)
    ensures
        parse_spec(s) matches Ok(fields) ==> fields.well_formed(),
{
    if let Some((head, tail)) = split_once(s, separator()) {
        let (remote, revision) = remote_and_revision(head);
        lemma_collapse_slashes(remote);
    }
}

/// `s` without each `/` that directly follows another `/`.
pub fn collapse_chars(s: &Vec<char>) -> (out: Vec<char>)
    ensures
        out@ == collapse_slashes(s@),
{
    let mut out: Vec<char> = Vec::new();
    let mut i: usize = 0;
    assert(s@.take(0) =~= Seq::<char>::empty());
    while i < s.len()
        invariant
            i <= s.len(),
            out@ == collapse_slashes(s@.take(i as int)),
        decreases s.len() - i,
    {
        let ghost next = s@.take(i + 1);
        assert(next.drop_last() =~= s@.take(i as int));
        assert(next.last() == s@[i as int]);
        if i > 0 && s[i - 1] == '/' && s[i] == '/' {
            assert(next[next.len() - 2] == s@[i - 1]);
        } else {
            if i > 0 {
                assert(next[next.len() - 2] == s@[i - 1]);
            }
            out.push(s[i]);
        }
        i += 1;
    }
    assert(s@.take(i as int) =~= s@);
    out
}

/// `remote` without each `/` that directly follows another: the form in
/// which a remote is named to the service.
pub fn clean_remote(remote: &str) -> (out: String)
    ensures
        out@ == collapse_slashes(remote@),
        no_double_slash(out@),
        no_double_slash(remote@) ==> out@ == remote@,
{
    proof {
        lemma_collapse_slashes(remote@);
    }
    let chars = collapse_chars(&to_chars(remote));
    let out = chars_to_string(&chars, 0, chars.len());
    assert(out@ =~= chars@);
    out
}

/// Calls `regex::Regex::new` on `pattern` and then `Regex::replace` on `text`.
///
/// Nothing here is proved; the contract is taken from the `regex` crate. The
/// one pattern admitted compiles. It is anchored at the start of the text and
/// matches `blob/` or `tree/` there and nowhere else. `replace` rewrites the
/// leftmost match only and hands a text without a match back unchanged, and
/// an empty replacement holds nothing to expand. So the result is the text
/// without that marker, or the text itself.
#[verifier::external_body]
fn replace_first_match(pattern: &str, text: &str, replacement: &str) -> (out: String)
    requires
        pattern@ == kind_marker_pattern(),
        replacement@.len() == 0,
    ensures
        out@ == without_kind_marker(text@),
{
    regex::Regex::new(pattern).unwrap().replace(text, replacement).into_owned()
}

/// `s` without the kind marker that it begins with, if it begins with one.
pub fn strip_kind_marker(s: &Vec<char>) -> (out: Vec<char>)
    ensures
        out@ == without_kind_marker(s@),
{
    let text = chars_to_string(s, 0, s.len());
    assert(text@ =~= s@);
    proof {
        reveal_strlit("");
    }
    let stripped = replace_first_match("^(blob|tree)/", text.as_str(), "");
    to_chars(stripped.as_str())
}

fn separator_chars() -> (r: Vec<char>)
    ensures
        r@ == separator(),
{
    proof {
        reveal_strlit("/-/");
    }
    let r = to_chars("/-/");
    assert(r@ =~= separator());
    r
}

fn single_char(c: char) -> (r: Vec<char>)
    ensures
        r@ == seq![c],
{
    let mut r: Vec<char> = Vec::new();
    r.push(c);
    assert(r@ =~= seq![c]);
    r
}

fn whole(s: &Vec<char>) -> (out: String)
    ensures
        out@ == s@,
{
    let out = chars_to_string(s, 0, s.len());
    assert(out@ =~= s@);
    out
}

/// Takes a normalized link apart.
///
/// The result is exactly what `parse_spec` says of the link's text: the named
/// parts where it is well shaped, `MalformedReference` where it does not fall
/// into two parts around `/-/` or its remote is empty, `TooManyQueryMarkers`
/// where a second `?` follows the path.
pub fn parse_reference(normalized: &str) -> (r: Result<ParsedLink, LinkError>)
    ensures
        match parse_spec(normalized@) {
            Ok(fields) => r is Ok && r->Ok_0@ == fields && fields.well_formed(),
            Err(error) => r is Err && r->Err_0 == error,
        },
{
    proof {
        lemma_parsed_is_well_formed(normalized@);
    }
    let chars = to_chars(normalized);
    let sep = separator_chars();
    let (head, tail) = match split_once_chars(&chars, &sep) {
        Some(parts) => parts,
        None => {
            return Err(LinkError::MalformedReference);
        },
    };
    if contains_chars(&tail, &sep) {
        return Err(LinkError::MalformedReference);
    }
    let at = single_char('@');
    let (remote, revision) = match split_once_chars(&head, &at) {
        Some(parts) => (parts.0, whole(&parts.1)),
        None => {
            proof {
                reveal_strlit("HEAD");
            }
            let name = "HEAD".to_owned();
            assert(name@ =~= head_revision());
            (head, name)
        },
    };
    if remote.len() == 0 {
        return Err(LinkError::MalformedReference);
    }
    let remote = whole(&collapse_chars(&remote));
    let rest = strip_kind_marker(&tail);
    let mark = single_char('?');
    match split_once_chars(&rest, &mark) {
        None => Ok(ParsedLink { remote, revision, path: whole(&rest), line: None, col: None }),
        Some((path, suffix)) => {
            if contains_chars(&suffix, &mark) {
                return Err(LinkError::TooManyQueryMarkers);
            }
            let (line, col) = parse_position(&suffix);
            Ok(ParsedLink { remote, revision, path: whole(&path), line, col })
        },
    }
}

} // verus!
