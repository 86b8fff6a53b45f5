//! What holds of normalizing, parsing and writing links, whatever the link.

use crate::error::LinkError;
use crate::normalize::{
    expand_after, github_alias, github_host, normalized, service_prefix, short_scheme,
    without_prefix,
};
use crate::parse::{
    at_sign, blob_marker, collapse_slashes, has_kind_marker, lemma_collapse_slashes, parse_spec,
    path_and_position, question_mark, remote_and_revision, separator, tree_marker,
    without_kind_marker, ParsedFields,
};
use crate::position::{colon, has_one_colon};
use crate::remote_file::{canonical_link, display_name, web_url, Reference};
use crate::resolve::{is_full_commit, is_hex_digit};
use crate::text::{
    first_match, lemma_first_match_exists, lemma_first_match_is, lemma_match_in_first,
    lemma_match_in_second, matches_at, occurs, split_once,
};
use vstd::prelude::*;

verus! {

/// Whether `c` stands in `s` at two places or more.
pub open spec fn holds_twice(s: Seq<char>, c: char) -> bool {
    exists|i: int, j: int| 0 <= i < j < s.len() && s[i] == c && s[j] == c
}

/// Where `c` stands in `s` at index `i`, the one-character text of `c` matches
/// there, and the other way round.
pub proof fn lemma_char_match(s: Seq<char>, c: char, i: int)
    ensures
        matches_at(s, seq![c], i) <==> (0 <= i < s.len() && s[i] == c),
{
    if 0 <= i < s.len() {
        if s[i] == c {
            assert(s.subrange(i, i + 1) =~= seq![c]);
        } else {
            assert(s.subrange(i, i + 1)[0] == s[i]);
        }
    }
}

/// A path part that holds two `?` or more is refused as holding too many,
/// whatever else it holds.
pub proof fn lemma_second_query_marker_is_refused(
    remote: Seq<char>,
    revision: Seq<char>,
    rest: Seq<char>,
)
    requires
        holds_twice(rest, '?'),
    ensures
        path_and_position(remote, revision, rest) == Err::<ParsedFields, LinkError>(
            LinkError::TooManyQueryMarkers,
        ),
{
    let (i, j) = choose|i: int, j: int| 0 <= i < j < rest.len() && rest[i] == '?' && rest[j] == '?';
    lemma_char_match(rest, '?', i);
    assert(occurs(rest, question_mark()));
    lemma_first_match_exists(rest, question_mark());
    let f = first_match(rest, question_mark());
    assert(f <= i) by {
        if i < f {
            assert(!matches_at(rest, question_mark(), i));
        }
    }
    let suffix = rest.skip(f + 1);
    lemma_char_match(suffix, '?', j - f - 1);
    assert(matches_at(suffix, question_mark(), j - f - 1));
}

/// A link whose path part, after `/-/` and the kind marker, holds two `?` or
/// more is refused: as malformed where it is that too, else as holding too
/// many query markers. Never does a reference come of it.
pub proof fn lemma_two_query_markers_fail(s: Seq<char>)
    requires
        split_once(s, separator()) matches Some((_, tail)) && holds_twice(
            without_kind_marker(tail),
            '?',
        ),
    ensures
        parse_spec(s) is Err,
        parse_spec(s) != Err::<ParsedFields, LinkError>(LinkError::MalformedReference)
            ==> parse_spec(s) == Err::<ParsedFields, LinkError>(LinkError::TooManyQueryMarkers),
{
    let (head, tail) = split_once(s, separator())->0;
    let (remote, revision) = remote_and_revision(head);
    lemma_second_query_marker_is_refused(
        collapse_slashes(remote),
        revision,
        without_kind_marker(tail),
    );
}

/// A position is given in full or not at all, and it is given exactly where
/// one `?` parts a suffix from the path and that suffix holds exactly one `:`.
pub proof fn lemma_position_needs_one_colon(remote: Seq<char>, revision: Seq<char>, rest: Seq<char>)
    ensures
        path_and_position(remote, revision, rest) matches Ok(fields) ==> {
            &&& fields.line is Some <==> fields.col is Some
            &&& fields.line is Some <==> (split_once(rest, question_mark()) matches Some(
                (_, suffix),
            ) && has_one_colon(suffix))
        },
{
}

/// A suffix that does not hold exactly one `:` is no error: the path before
/// it is read, and neither a line nor a column is given.
pub proof fn lemma_suffix_without_one_colon(remote: Seq<char>, revision: Seq<char>, rest: Seq<char>)
    requires
        split_once(rest, question_mark()) matches Some((_, suffix)) && !occurs(
            suffix,
            question_mark(),
        ) && !has_one_colon(suffix),
    ensures
        path_and_position(remote, revision, rest) == Ok::<ParsedFields, LinkError>(
            ParsedFields {
                remote,
                revision,
                path: rest.take(first_match(rest, question_mark())),
                line: None,
                col: None,
            },
        ),
{
}

/// Exactly one `:` stands in a text where one stands at some index and none
/// at any other.
pub proof fn lemma_one_colon(suffix: Seq<char>)
    ensures
        has_one_colon(suffix) <==> exists|i: int|
            0 <= i < suffix.len() && suffix[i] == ':' && forall|j: int|
                0 <= j < suffix.len() && j != i ==> suffix[j] != ':',
{
    if occurs(suffix, colon()) {
        lemma_first_match_exists(suffix, colon());
        let f = first_match(suffix, colon());
        lemma_char_match(suffix, ':', f);
        let second = suffix.skip(f + 1);
        if has_one_colon(suffix) {
            assert forall|j: int| 0 <= j < suffix.len() && j != f implies suffix[j] != ':' by {
                lemma_char_match(suffix, ':', j);
                lemma_char_match(second, ':', j - f - 1);
                if j < f {
                    assert(!matches_at(suffix, colon(), j));
                } else {
                    assert(!matches_at(second, colon(), j - f - 1));
                    assert(second[j - f - 1] == suffix[j]);
                }
            }
        } else {
            let k = choose|k: int| matches_at(second, colon(), k);
            lemma_char_match(second, ':', k);
            assert(suffix[k + f + 1] == ':');
        }
        if exists|i: int|
            0 <= i < suffix.len() && suffix[i] == ':' && forall|j: int|
                0 <= j < suffix.len() && j != i ==> suffix[j] != ':' {
            assert forall|k: int| !matches_at(second, colon(), k) by {
                lemma_char_match(second, ':', k);
                if 0 <= k < second.len() {
                    assert(second[k] == suffix[k + f + 1]);
                }
            }
        }
    } else {
        assert forall|i: int| 0 <= i < suffix.len() implies suffix[i] != ':' by {
            lemma_char_match(suffix, ':', i);
        }
    }
}

/// The address of a resolved reference, normalized and taken apart again,
/// names the remote, the commit and the path that it was written from, and no
/// position. The revision it names is a full commit identifier, so resolving
/// it asks for no lookup and gives the commit back.
///
/// This holds of a reference whose parts carry none of what a link gives a
/// meaning to: no `@` and no `/-/` in the remote, no `?` in the path, no `/-/`
/// in the path behind its marker, and no `gh/` at the front of the remote,
/// which would be read as the alias.
pub proof fn lemma_web_url_round_trip(file: Reference)
    requires
        file.well_formed(),
        file.is_resolved(),
        !occurs(file.remote, at_sign()),
        !occurs(file.remote, separator()),
        !occurs(file.path, question_mark()),
        !occurs(blob_marker() + file.path, separator()),
        !matches_at(file.remote, github_alias().push('/'), 0),
    ensures
        normalized(web_url(file)) == canonical_link(file),
        parse_spec(normalized(web_url(file))) == Ok::<ParsedFields, LinkError>(
            ParsedFields {
                remote: file.remote,
                revision: file.commit,
                path: file.path,
                line: None,
                col: None,
            },
        ),
        is_full_commit(file.commit),
{
    reveal_strlit("https://sourcegraph.com/");
    let remote = file.remote;
    let link = canonical_link(file);
    let url = web_url(file);
    let service = service_prefix();
    let scheme = short_scheme();
    let after = file.commit + separator() + (blob_marker() + file.path);
    assert(link =~= remote + (at_sign() + after));
    assert(link[remote.len() as int] == '@');
    // No alias stands behind the service's prefix, and the address does not
    // open with the short scheme.
    let aliased = (service + github_alias()).push('/');
    if matches_at(url, aliased, 0) {
        let window = url.subrange(0, 27);
        assert(window[24] == link[0] && window[25] == link[1] && window[26] == link[2]);
        assert(aliased[24] == 'g' && aliased[25] == 'h' && aliased[26] == '/');
        if remote.len() >= 3 {
            assert(remote.subrange(0, 3) =~= github_alias().push('/'));
        }
    }
    assert(expand_after(url, service, github_alias(), github_host()) == url);
    let short_aliased = (scheme + github_alias()).push('/');
    if matches_at(url, short_aliased, 0) {
        assert(url.subrange(0, 8)[0] == url[0]);
    }
    assert(expand_after(url, scheme, github_alias(), github_host()) == url);
    // The prefix leaves, and what is left does not open with the short scheme.
    assert(url.subrange(0, 24) =~= service);
    assert(url.skip(24) =~= link);
    assert(without_prefix(url, service) == link);
    if matches_at(link, scheme, 0) {
        let window = link.subrange(0, 5);
        assert(window[0] == link[0] && window[1] == link[1] && window[2] == link[2] && window[3]
            == link[3] && window[4] == link[4]);
        if remote.len() >= 5 {
            assert(remote[3int] == '/' && remote[3int + 1] == '/');
        }
    }
    assert(without_prefix(link, scheme) == link);
    lemma_canonical_link_parses(file);
}

/// A reference written as a normalized link is taken apart into its own
/// remote, commit and path.
proof fn lemma_canonical_link_parses(file: Reference)
    requires
        file.well_formed(),
        file.is_resolved(),
        !occurs(file.remote, at_sign()),
        !occurs(file.remote, separator()),
        !occurs(file.path, question_mark()),
        !occurs(blob_marker() + file.path, separator()),
    ensures
        parse_spec(canonical_link(file)) == Ok::<ParsedFields, LinkError>(
            ParsedFields {
                remote: file.remote,
                revision: file.commit,
                path: file.path,
                line: None,
                col: None,
            },
        ),
{
    let link = canonical_link(file);
    let remote = file.remote;
    let commit = file.commit;
    let head = remote + at_sign() + commit;
    let tail = blob_marker() + file.path;
    let sep = separator();
    let at = remote.len() as int;
    let cut = head.len() as int;
    assert(link =~= head + (sep + tail));
    assert(link.subrange(cut, cut + 3) =~= sep);
    assert forall|j: int| 0 <= j < cut implies !matches_at(link, sep, j) by {
        if matches_at(link, sep, j) {
            let window = link.subrange(j, j + 3);
            assert(window[0] == link[j] && window[1] == link[j + 1] && window[2] == link[j + 2]);
            if j + 3 <= at {
                assert(link =~= remote + (at_sign() + commit + (sep + tail)));
                lemma_match_in_first(remote, at_sign() + commit + (sep + tail), sep, j);
                assert(matches_at(remote, sep, j));
            } else {
                let k = if j < at {
                    at
                } else {
                    j
                };
                assert(at <= k < cut && j <= k <= j + 2);
                assert(link[k] == head[k]);
                if k == at {
                    assert(head[k] == '@');
                } else {
                    assert(head[k] == commit[k - at - 1]);
                    assert(is_hex_digit(commit[k - at - 1]));
                }
                assert(link[k] != '/' && link[k] != '-');
            }
        }
    }
    lemma_first_match_is(link, sep, cut);
    assert(link.take(cut) =~= head);
    assert(link.skip(cut + 3) =~= tail);
    assert(split_once(link, sep) == Some((head, tail)));

    assert(head.subrange(at, at + 1) =~= at_sign());
    assert forall|j: int| 0 <= j < at implies !matches_at(head, at_sign(), j) by {
        if matches_at(head, at_sign(), j) {
            assert(head =~= remote + (at_sign() + commit));
            lemma_match_in_first(remote, at_sign() + commit, at_sign(), j);
            assert(matches_at(remote, at_sign(), j));
        }
    }
    lemma_first_match_is(head, at_sign(), at);
    assert(head.take(at) =~= remote);
    assert(head.skip(at + 1) =~= commit);
    assert(remote_and_revision(head) == (remote, commit));

    lemma_collapse_slashes(remote);
    assert(tail.subrange(0, 5) =~= blob_marker());
    assert(has_kind_marker(tail));
    assert(tail.skip(5) =~= file.path);
    assert(without_kind_marker(tail) == file.path);
    assert(split_once(file.path, question_mark()) is None);
}

/// A text that opens neither with the service's prefix nor with `sg://` is
/// its own normal form: nothing behind the front of a text is rewritten.
pub proof fn lemma_text_without_opening_is_kept(s: Seq<char>)
    requires
        !matches_at(s, service_prefix(), 0),
        !matches_at(s, short_scheme(), 0),
    ensures
        normalized(s) == s,
{
    let alias = github_alias();
    if matches_at(s, (service_prefix() + alias).push('/'), 0) {
        let n = service_prefix().len() as int;
        assert(s.subrange(0, n + 3).subrange(0, n) =~= s.subrange(0, n));
        assert((service_prefix() + alias).push('/').subrange(0, n) =~= service_prefix());
    }
    if matches_at(s, (short_scheme() + alias).push('/'), 0) {
        assert(s.subrange(0, 8).subrange(0, 5) =~= s.subrange(0, 5));
        assert((short_scheme() + alias).push('/').subrange(0, 5) =~= short_scheme());
    }
}

/// Of a link in the short form only the `sg://` in front leaves: what
/// follows it is the normal form, whatever it holds further in, unless it
/// begins with the alias, which is expanded, or with `sg://` again.
pub proof fn lemma_short_scheme_leaves_the_front(rest: Seq<char>)
    requires
        !matches_at(rest, github_alias().push('/'), 0),
        !matches_at(rest, short_scheme(), 0),
    ensures
        normalized(short_scheme() + rest) == rest,
{
    reveal_strlit("https://sourcegraph.com/");
    let scheme = short_scheme();
    let service = service_prefix();
    let alias = github_alias();
    let s = scheme + rest;
    if matches_at(s, (service + alias).push('/'), 0) {
        assert(s.subrange(0, 27)[0] == s[0]);
    }
    if matches_at(s, service, 0) {
        assert(s.subrange(0, 24)[0] == s[0]);
    }
    if matches_at(s, (scheme + alias).push('/'), 0) {
        assert(rest.subrange(0, 3) =~= s.subrange(0, 8).subrange(5, 8));
        assert((scheme + alias).push('/').subrange(5, 8) =~= alias.push('/'));
    }
    assert(s.subrange(0, 5) =~= scheme);
    assert(s.skip(5) =~= rest);
}

/// A link to a repository at GitHub as it may be written: in the web form or
/// the short form, with the host's full name or its alias, and with `marker`
/// before the path. `repository` is what follows the host, from its `/` on,
/// with the revision where one is named.
pub open spec fn surface_form(
    web: bool,
    aliased: bool,
    marker: Seq<char>,
    repository: Seq<char>,
    path: Seq<char>,
) -> Seq<char> {
    (if web {
        service_prefix()
    } else {
        short_scheme()
    }) + ((if aliased {
        github_alias()
    } else {
        github_host()
    }) + (repository + separator() + (marker + path)))
}

/// The normalized link to a repository at GitHub.
pub open spec fn plain_form(marker: Seq<char>, repository: Seq<char>, path: Seq<char>) -> Seq<
    char,
> {
    github_host() + (repository + separator() + (marker + path))
}

/// The ways of writing one link to a repository at GitHub all normalize to
/// the same text: the web form and the short form, each with the host's full
/// name or with its alias.
///
/// Nothing is asked of the link but that a `/` follows the host.
pub proof fn lemma_surface_forms_normalize_alike(
    web: bool,
    aliased: bool,
    marker: Seq<char>,
    repository: Seq<char>,
    path: Seq<char>,
)
    requires
        repository.len() > 0,
        repository[0] == '/',
    ensures
        normalized(surface_form(web, aliased, marker, repository, path)) == plain_form(
            marker,
            repository,
            path,
        ),
{
    reveal_strlit("https://sourcegraph.com/");
    reveal_strlit("github.com");
    let rest = repository + separator() + (marker + path);
    let plain = plain_form(marker, repository, path);
    let form = surface_form(web, aliased, marker, repository, path);
    let alias = github_alias();
    let host = github_host();
    let scheme = short_scheme();
    let service = service_prefix();
    let lead = if web {
        service
    } else {
        scheme
    };
    let other = if web {
        scheme
    } else {
        service
    };
    let n = lead.len() as int;
    assert(rest[0] == '/');
    assert(plain =~= host + rest);
    assert(lead[0] != other[0]);
    // After the alias is expanded the text is the opening before the plain
    // form: the alias is read only behind the opening that the text has.
    let after_service = expand_after(form, service, alias, host);
    let expanded = expand_after(after_service, scheme, alias, host);
    let opened = lead + plain;
    if aliased {
        assert(form =~= lead + (alias + rest));
        let pattern = (lead + alias).push('/');
        assert(form.subrange(0, n + 3) =~= pattern);
        assert(form.skip(n + 2) =~= rest);
        assert(lead + host + rest =~= opened);
        assert(expand_after(form, lead, alias, host) == opened);
    } else {
        assert(form =~= opened);
    }
    // Behind the opening now stands `github.com`, which is no alias.
    assert(opened[n + 1] == 'i');
    let elsewhere = (other + alias).push('/');
    if matches_at(form, elsewhere, 0) {
        assert(form.subrange(0, elsewhere.len() as int)[0] == form[0]);
    }
    if matches_at(opened, elsewhere, 0) {
        assert(opened.subrange(0, elsewhere.len() as int)[0] == opened[0]);
    }
    if matches_at(opened, (lead + alias).push('/'), 0) {
        assert(opened.subrange(0, n + 3)[n + 1] == opened[n + 1]);
    }
    if web {
        assert(after_service == opened);
        assert(expanded == opened);
    } else {
        assert(after_service == form);
        assert(expanded == opened);
    }
    // Then the opening leaves: the service's prefix or the short scheme.
    assert(opened.subrange(0, n) =~= lead);
    assert(opened.skip(n) =~= plain);
    if matches_at(opened, other, 0) {
        assert(opened.subrange(0, other.len() as int)[0] == opened[0]);
    }
    if matches_at(plain, scheme, 0) {
        assert(plain.subrange(0, 5)[0] == plain[0]);
    }
    if web {
        assert(without_prefix(opened, service) == plain);
        assert(without_prefix(plain, scheme) == plain);
    } else {
        assert(without_prefix(opened, service) == opened);
        assert(without_prefix(opened, scheme) == plain);
    }
}

/// A link says the same with `blob/` before its path, with `tree/`, and with
/// neither: taken apart, each gives what the link without a marker gives.
///
/// This holds where `/-/` stands only between the two parts, and the path
/// does not itself begin with a marker.
pub proof fn lemma_kind_markers_parse_alike(head: Seq<char>, marker: Seq<char>, path: Seq<char>)
    requires
        marker == blob_marker() || marker == tree_marker() || marker.len() == 0,
        !occurs(head.push('/'), separator()),
        !occurs(seq!['/'] + path, separator()),
        !has_kind_marker(path),
    ensures
        parse_spec(head + separator() + (marker + path)) == parse_spec(head + separator() + path),
        remote_and_revision(head).0.len() > 0 ==> parse_spec(head + separator() + path)
            == path_and_position(
            collapse_slashes(remote_and_revision(head).0),
            remote_and_revision(head).1,
            path,
        ),
{
    lemma_marked_link_parses(head, marker, path);
    lemma_marked_link_parses(head, Seq::<char>::empty(), path);
    assert(Seq::<char>::empty() + path =~= path);
}

/// A link is cut at the `/-/` between its two parts where none begins before.
proof fn lemma_cut_at_separator(head: Seq<char>, tail: Seq<char>)
    requires
        !occurs(head.push('/'), separator()),
    ensures
        split_once(head + separator() + tail, separator()) == Some((head, tail)),
{
    let sep = separator();
    let link = head + sep + tail;
    let cut = head.len() as int;
    assert(link =~= head + (sep + tail));
    assert(link.subrange(cut, cut + 3) =~= sep);
    assert forall|j: int| 0 <= j < cut implies !matches_at(link, sep, j) by {
        if matches_at(link, sep, j) {
            let window = link.subrange(j, j + 3);
            assert(window[1] == link[j + 1]);
            if j + 3 <= cut + 1 {
                assert(link =~= head.push('/') + (seq!['-', '/'] + tail));
                lemma_match_in_first(head.push('/'), seq!['-', '/'] + tail, sep, j);
                assert(matches_at(head.push('/'), sep, j));
            } else {
                assert(link[j + 1] == '/');
            }
        }
    }
    lemma_first_match_is(link, sep, cut);
    assert(link.take(cut) =~= head);
    assert(link.skip(cut + 3) =~= tail);
}

/// A kind marker before a path brings no `/-/` that the path behind a `/`
/// does not hold.
proof fn lemma_marker_brings_no_separator(marker: Seq<char>, path: Seq<char>)
    requires
        marker == blob_marker() || marker == tree_marker() || marker.len() == 0,
        !occurs(seq!['/'] + path, separator()),
    ensures
        !occurs(marker + path, separator()),
{
    let sep = separator();
    let tail = marker + path;
    let slashed = seq!['/'] + path;
    assert forall|j: int| !matches_at(tail, sep, j) by {
        if matches_at(tail, sep, j) {
            let window = tail.subrange(j, j + 3);
            assert(window[0] == tail[j] && window[1] == tail[j + 1] && window[2] == tail[j + 2]);
            if j >= marker.len() {
                lemma_match_in_second(marker, path, sep, j);
                lemma_match_in_second(seq!['/'], path, sep, j - marker.len() + 1);
                assert(matches_at(slashed, sep, j - marker.len() + 1));
            } else if j == 4 {
                assert(slashed.subrange(0, 3) =~= sep);
                assert(matches_at(slashed, sep, 0));
            } else {
                assert(tail[j + 1] == marker[j + 1]);
            }
        }
    }
}

/// What a link with a marker before its path is taken apart into.
proof fn lemma_marked_link_parses(head: Seq<char>, marker: Seq<char>, path: Seq<char>)
    requires
        marker == blob_marker() || marker == tree_marker() || marker.len() == 0,
        !occurs(head.push('/'), separator()),
        !occurs(seq!['/'] + path, separator()),
        !has_kind_marker(path),
    ensures
        parse_spec(head + separator() + (marker + path)) == (if remote_and_revision(head).0.len()
            == 0 {
            Err::<ParsedFields, LinkError>(LinkError::MalformedReference)
        } else {
            path_and_position(
                collapse_slashes(remote_and_revision(head).0),
                remote_and_revision(head).1,
                path,
            )
        }),
{
    let tail = marker + path;
    lemma_cut_at_separator(head, tail);
    lemma_marker_brings_no_separator(marker, path);
    if marker.len() == 0 {
        assert(tail =~= path);
    } else {
        assert(tail.subrange(0, 5) =~= marker);
        assert(tail.skip(5) =~= path);
    }
    assert(without_kind_marker(tail) == path);
}

/// The ways of writing one link to a repository at GitHub all name the same
/// remote, revision, path and position: the web form and the short form, the
/// host's full name and its alias, and `blob/`, `tree/` or nothing before the
/// path. Each is taken apart into what the plain link without a marker gives.
///
/// This holds where `/-/` stands only between the two parts, and the path
/// does not itself begin with a marker.
pub proof fn lemma_surface_forms_agree(
    web: bool,
    aliased: bool,
    marker: Seq<char>,
    repository: Seq<char>,
    path: Seq<char>,
)
    requires
        marker == blob_marker() || marker == tree_marker() || marker.len() == 0,
        repository.len() > 0,
        repository[0] == '/',
        !occurs((github_host() + repository).push('/'), separator()),
        !occurs(seq!['/'] + path, separator()),
        !has_kind_marker(path),
    ensures
        parse_spec(normalized(surface_form(web, aliased, marker, repository, path)))
            == parse_spec(plain_form(Seq::<char>::empty(), repository, path)),
{
    lemma_surface_forms_normalize_alike(web, aliased, marker, repository, path);
    let head = github_host() + repository;
    lemma_kind_markers_parse_alike(head, marker, path);
    assert(plain_form(marker, repository, path) =~= head + separator() + (marker + path));
    assert(plain_form(Seq::<char>::empty(), repository, path) =~= head + separator() + path);
}

/// The short name reads no more of a commit than its first five characters:
/// two references to one path of one remote, at commits that begin alike, are
/// shown under one name. The name is a label and no key.
pub proof fn lemma_display_name_reads_five(a: Reference, b: Reference)
    requires
        a.remote == b.remote,
        a.path == b.path,
        a.commit.len() >= 5,
        b.commit.len() >= 5,
        a.commit.take(5) == b.commit.take(5),
    ensures
        display_name(a) == display_name(b),
{
    assert(a.commit.len() == 5 ==> a.commit.take(5) =~= a.commit);
    assert(b.commit.len() == 5 ==> b.commit.take(5) =~= b.commit);
}

} // verus!
