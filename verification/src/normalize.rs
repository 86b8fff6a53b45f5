//! Bringing the accepted ways of writing a link to one form.
//!
//! A link may open with the address of the code-intelligence service or with
//! `sg://`, and may name its host by an alias directly after that opening.
//! Only the front of the text is looked at: what stands further in is kept
//! as it is.

use crate::text::{chars_to_string, matches_at, matches_here, sub_chars, to_chars};
use vstd::prelude::*;

verus! {

/// A short name that links may write in place of a code host's full name.
#[derive(Clone, Debug)]
pub struct HostAlias {
    /// The short name, such as `gh`.
    pub alias: String,
    /// The host's full name, such as `github.com`.
    pub host: String,
}

/// `sg://`, which opens a link in its short form.
pub open spec fn short_scheme() -> Seq<char> {
    seq!['s', 'g', ':', '/', '/']
}

/// `https://sourcegraph.com/`, which opens a link to the public service.
pub open spec fn service_prefix() -> Seq<char> {
    "https://sourcegraph.com/"@
}

/// `gh`, the short name of GitHub.
pub open spec fn github_alias() -> Seq<char> {
    seq!['g', 'h']
}

/// `github.com`, the full name of GitHub.
pub open spec fn github_host() -> Seq<char> {
    "github.com"@
}

/// The regular expression that matches a `/` at the start of a text.
pub open spec fn leading_slash_pattern() -> Seq<char> {
    "^/"@
}

/// `s` without `prefix`, where `s` begins with it; `s` itself where it does
/// not.
pub open spec fn without_prefix(s: Seq<char>, prefix: Seq<char>) -> Seq<char> {
    if matches_at(s, prefix, 0) {
        s.skip(prefix.len() as int)
    } else {
        s
    }
}

/// `s` without the `/` that it begins with, if it begins with one.
pub open spec fn without_leading_slash(s: Seq<char>) -> Seq<char> {
    if s.len() > 0 && s[0] == '/' {
        s.skip(1)
    } else {
        s
    }
}

/// `s` with `host` in place of `alias`, where `s` begins with `lead`, then
/// `alias`, then `/`; `s` itself where it does not. An empty `lead` opens no
/// link, and nothing is expanded after it.
pub open spec fn expand_after(s: Seq<char>, lead: Seq<char>, alias: Seq<char>, host: Seq<char>)
    -> Seq<char> {
    if lead.len() > 0 && matches_at(s, (lead + alias).push('/'), 0) {
        lead + host + s.skip((lead.len() + alias.len()) as int)
    } else {
        s
    }
}

/// `s` with `host` in place of `alias`, where `alias` stands directly after
/// the service's prefix or after `sg://` at the front of `s`, and before `/`.
pub open spec fn expand_alias(s: Seq<char>, service: Seq<char>, alias: Seq<char>, host: Seq<char>)
    -> Seq<char> {
    expand_after(expand_after(s, service, alias, host), short_scheme(), alias, host)
}

/// `s` with each alias, in the order given, expanded.
pub open spec fn expand_aliases(s: Seq<char>, aliases: Seq<HostAlias>, service: Seq<char>) -> Seq<
    char,
>
    decreases aliases.len(),
{
    if aliases.len() == 0 {
        s
    } else {
        expand_aliases(
            expand_alias(s, service, aliases[0].alias@, aliases[0].host@),
            aliases.skip(1),
            service,
        )
    }
}

/// The normal form of `raw` for a service and its aliases: first the aliases
/// are expanded, then the service's prefix leaves the front, then `sg://`
/// leaves the front.
pub open spec fn normalized_with(raw: Seq<char>, aliases: Seq<HostAlias>, service: Seq<char>)
    -> Seq<char> {
    without_prefix(without_prefix(expand_aliases(raw, aliases, service), service), short_scheme())
}

/// The normal form of `raw` for the public service, with `gh` standing for
/// `github.com`.
pub open spec fn normalized(raw: Seq<char>) -> Seq<char> {
    without_prefix(
        without_prefix(
            expand_alias(raw, service_prefix(), github_alias(), github_host()),
            service_prefix(),
        ),
        short_scheme(),
    )
}

/// The normal form of `raw` for a service named by its endpoint, which ends
/// without `/`: the aliases are expanded after the endpoint and its `/`, then
/// the endpoint leaves the front, then `sg://`, then one `/`.
pub open spec fn normalized_at(raw: Seq<char>, aliases: Seq<HostAlias>, endpoint: Seq<char>)
    -> Seq<char> {
    without_leading_slash(
        without_prefix(
            without_prefix(expand_aliases(raw, aliases, endpoint.push('/')), endpoint),
            short_scheme(),
        ),
    )
}

/// With `gh` for `github.com` as the one alias and the public service's
/// prefix, the general normal form is the default one.
pub proof fn lemma_normalized_is_default(raw: Seq<char>, aliases: Seq<HostAlias>)
    requires
        aliases.len() == 1,
        aliases[0].alias@ == github_alias(),
        aliases[0].host@ == github_host(),
    ensures
        normalized_with(raw, aliases, service_prefix()) == normalized(raw),
{
    let once = expand_alias(raw, service_prefix(), github_alias(), github_host());
    assert(aliases.skip(1).len() == 0);
    assert(expand_aliases(once, aliases.skip(1), service_prefix()) == once);
    assert(expand_aliases(raw, aliases, service_prefix()) == once);
}

fn append_chars(out: &mut Vec<char>, more: &Vec<char>, from: usize)
    requires
        from <= more.len(),
    ensures
        final(out)@ == old(out)@ + more@.skip(from as int),
{
    let ghost before = out@;
    let mut i: usize = from;
    assert(more@.subrange(from as int, from as int) =~= Seq::<char>::empty());
    assert(out@ =~= before + more@.subrange(from as int, i as int));
    while i < more.len()
        invariant
            from <= i <= more.len(),
            out@ == before + more@.subrange(from as int, i as int),
        decreases more.len() - i,
    {
        out.push(more[i]);
        i += 1;
        assert(out@ =~= before + more@.subrange(from as int, i as int));
    }
    assert(more@.subrange(from as int, i as int) =~= more@.skip(from as int));
}

fn strip_prefix(s: Vec<char>, prefix: &Vec<char>) -> (out: Vec<char>)
    ensures
        out@ == without_prefix(s@, prefix@),
{
    if matches_here(&s, prefix, 0) {
        let end = s.len();
        let out = sub_chars(&s, prefix.len(), end);
        assert(s@.subrange(prefix@.len() as int, s@.len() as int) =~= s@.skip(
            prefix@.len() as int,
        ));
        out
    } else {
        s
    }
}

fn expand_alias_after(s: Vec<char>, lead: &Vec<char>, alias: &Vec<char>, host: &Vec<char>) -> (out:
    Vec<char>)
    ensures
        out@ == expand_after(s@, lead@, alias@, host@),
{
    if lead.len() == 0 {
        return s;
    }
    let mut pattern: Vec<char> = Vec::new();
    append_chars(&mut pattern, lead, 0);
    append_chars(&mut pattern, alias, 0);
    pattern.push('/');
    assert(lead@.skip(0) =~= lead@ && alias@.skip(0) =~= alias@);
    assert(pattern@ =~= (lead@ + alias@).push('/'));
    if matches_here(&s, &pattern, 0) {
        let mut out: Vec<char> = Vec::new();
        append_chars(&mut out, lead, 0);
        append_chars(&mut out, host, 0);
        assert(host@.skip(0) =~= host@);
        append_chars(&mut out, &s, pattern.len() - 1);
        assert(out@ =~= lead@ + host@ + s@.skip((lead@.len() + alias@.len()) as int));
        out
    } else {
        s
    }
}

fn short_scheme_chars() -> (out: Vec<char>)
    ensures
        out@ == short_scheme(),
{
    proof {
        reveal_strlit("sg://");
    }
    let out = to_chars("sg://");
    assert(out@ =~= short_scheme());
    out
}

fn expand_all(raw: &str, aliases: &Vec<HostAlias>, service: &Vec<char>) -> (out: Vec<char>)
    ensures
        out@ == expand_aliases(raw@, aliases@, service@),
{
    let scheme = short_scheme_chars();
    let mut text = to_chars(raw);
    let mut k: usize = 0;
    assert(aliases@.skip(0) =~= aliases@);
    while k < aliases.len()
        invariant
            k <= aliases.len(),
            scheme@ == short_scheme(),
            expand_aliases(text@, aliases@.skip(k as int), service@) == expand_aliases(
                raw@,
                aliases@,
                service@,
            ),
        decreases aliases.len() - k,
    {
        let alias = to_chars(aliases[k].alias.as_str());
        let host = to_chars(aliases[k].host.as_str());
        proof {
            let left = aliases@.skip(k as int);
            assert(left[0] == aliases@[k as int]);
            assert(left.skip(1) =~= aliases@.skip(k + 1));
        }
        text = expand_alias_after(text, service, &alias, &host);
        text = expand_alias_after(text, &scheme, &alias, &host);
        k += 1;
    }
    assert(aliases@.skip(k as int).len() == 0);
    text
}

/// Calls `regex::Regex::new` on `pattern` and then `Regex::replace_all` on
/// `text`.
///
/// Nothing here is proved; the contract is taken from the `regex` crate. The
/// one pattern admitted compiles. Its `^` matches at the beginning of the
/// text only, so it has at most one match, the `/` that the text begins
/// with. `replace_all` rewrites every match and hands a text without a match
/// back unchanged, and an empty replacement holds nothing to expand. So the
/// result is the text without that one `/`, or the text itself.
#[verifier::external_body]
fn replace_all_matches(pattern: &str, text: &str, replacement: &str) -> (out: String)
    requires
        pattern@ == leading_slash_pattern(),
        replacement@.len() == 0,
    ensures
        out@ == without_leading_slash(text@),
{
    regex::Regex::new(pattern).unwrap().replace_all(text, replacement).into_owned()
}

/// Rewrites `raw` into its normal form for a service and its aliases.
///
/// Only the front of the text is rewritten, and nothing is checked. Each
/// alias is expanded where it stands directly after `service_prefix` or after
/// `sg://` at the front, and before `/`. Then `service_prefix` leaves the
/// front, and then `sg://` leaves the front. An empty `service_prefix` opens
/// no link: no alias is expanded after it and nothing leaves for it.
pub fn normalize(raw: &str, aliases: &Vec<HostAlias>, service_prefix: &str) -> (out: String)
    ensures
        out@ == normalized_with(raw@, aliases@, service_prefix@),
{
    let service = to_chars(service_prefix);
    let text = expand_all(raw, aliases, &service);
    let text = strip_prefix(text, &service);
    let text = strip_prefix(text, &short_scheme_chars());
    let out = chars_to_string(&text, 0, text.len());
    assert(out@ =~= text@);
    out
}

/// Rewrites `url` into its normal form for a service named by its endpoint,
/// such as `https://sourcegraph.com`, which ends without `/`.
///
/// Each alias is expanded where it stands directly after the endpoint and its
/// `/`, or after `sg://`, at the front and before `/`. Then the endpoint
/// leaves the front, then `sg://`, and then the one `/` that is left in
/// front, if there is one.
pub fn normalize_at(url: &str, aliases: &Vec<HostAlias>, endpoint: &str) -> (out: String)
    ensures
        out@ == normalized_at(url@, aliases@, endpoint@),
{
    let service = to_chars(endpoint);
    let mut with_slash = service.clone();
    with_slash.push('/');
    let text = expand_all(url, aliases, &with_slash);
    let text = strip_prefix(text, &service);
    let text = strip_prefix(text, &short_scheme_chars());
    let text = chars_to_string(&text, 0, text.len());
    proof {
        reveal_strlit("");
    }
    let out = replace_all_matches("^/", text.as_str(), "");
    assert(text@ =~= without_prefix(
        without_prefix(expand_aliases(url@, aliases@, endpoint@.push('/')), endpoint@),
        short_scheme(),
    ));
    out
}

/// Rewrites `url` into its normal form for the public service. `gh` becomes
/// `github.com` where it stands directly after `https://sourcegraph.com/` or
/// after `sg://` at the front, and before `/`. Then
/// `https://sourcegraph.com/` leaves the front, and then `sg://` leaves the
/// front. What stands further in is kept.
pub fn normalize_url(url: &str) -> (out: String)
    ensures
        out@ == normalized(url@),
{
    proof {
        reveal_strlit("gh");
    }
    let alias = "gh".to_owned();
    assert(alias@ =~= github_alias());
    let host = "github.com".to_owned();
    let mut aliases: Vec<HostAlias> = Vec::new();
    aliases.push(HostAlias { alias, host });
    proof {
        lemma_normalized_is_default(url@, aliases@);
    }
    normalize(url, &aliases, "https://sourcegraph.com/")
}

} // verus!
