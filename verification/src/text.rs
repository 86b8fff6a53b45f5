//! Searching and cutting sequences of characters.
//!
//! Every executable function here works on `Vec<char>` and is specified over
//! `Seq<char>`, the view that `str` and `String` share.

use vstd::prelude::*;

verus! {

/// Whether `pat` stands in `s` at index `i`.
pub open spec fn matches_at(s: Seq<char>, pat: Seq<char>, i: int) -> bool {
    &&& 0 <= i
    &&& i + pat.len() <= s.len()
    &&& s.subrange(i, i + pat.len()) == pat
}

/// Whether `pat` stands anywhere in `s`.
pub open spec fn occurs(s: Seq<char>, pat: Seq<char>) -> bool {
    exists|i: int| matches_at(s, pat, i)
}

/// Whether `i` is the leftmost index at which `pat` stands in `s`.
pub open spec fn is_first_match(s: Seq<char>, pat: Seq<char>, i: int) -> bool {
    &&& matches_at(s, pat, i)
    &&& forall|j: int| 0 <= j < i ==> !matches_at(s, pat, j)
}

/// The leftmost index at which `pat` stands in `s`; meaningful only where
/// `occurs(s, pat)`.
pub open spec fn first_match(s: Seq<char>, pat: Seq<char>) -> int {
    choose|i: int| is_first_match(s, pat, i)
}

/// `s` cut at the leftmost `pat`: what stands before it and what stands
/// after it. `None` where `pat` does not occur.
pub open spec fn split_once(s: Seq<char>, pat: Seq<char>) -> Option<(Seq<char>, Seq<char>)> {
    if occurs(s, pat) {
        let i = first_match(s, pat);
        Some((s.take(i), s.skip(i + pat.len())))
    } else {
        None
    }
}

/// A leftmost match is the only leftmost match.
pub proof fn lemma_first_match_is(s: Seq<char>, pat: Seq<char>, i: int)
    requires
        is_first_match(s, pat, i),
    ensures
        occurs(s, pat),
        first_match(s, pat) == i,
{
    let k = first_match(s, pat);
    assert(is_first_match(s, pat, k));
    if k < i {
        assert(!matches_at(s, pat, k));
    }
    if i < k {
        assert(!matches_at(s, pat, i));
    }
}

/// Wherever `pat` occurs it has a leftmost match, which lies within `s`.
pub proof fn lemma_first_match_exists(s: Seq<char>, pat: Seq<char>)
    requires
        occurs(s, pat),
    ensures
        is_first_match(s, pat, first_match(s, pat)),
        0 <= first_match(s, pat),
        first_match(s, pat) + pat.len() <= s.len(),
{
    let w = choose|i: int| matches_at(s, pat, i);
    lemma_least_match(s, pat, w);
}

proof fn lemma_least_match(s: Seq<char>, pat: Seq<char>, w: int)
    requires
        matches_at(s, pat, w),
    ensures
        exists|i: int| is_first_match(s, pat, i),
    decreases w,
{
    if exists|j: int| 0 <= j < w && matches_at(s, pat, j) {
        let j = choose|j: int| 0 <= j < w && matches_at(s, pat, j);
        lemma_least_match(s, pat, j);
    } else {
        assert(is_first_match(s, pat, w));
    }
}

/// A match in `a + b` that starts at or after the end of `a` is a match in `b`.
pub proof fn lemma_match_in_second(a: Seq<char>, b: Seq<char>, pat: Seq<char>, j: int)
    requires
        j >= a.len(),
    ensures
        matches_at(a + b, pat, j) == matches_at(b, pat, j - a.len()),
{
    let s = a + b;
    let k = j - a.len();
    if j + pat.len() <= s.len() {
        assert(s.subrange(j, j + pat.len()) =~= b.subrange(k, k + pat.len()));
    }
}

/// A match in `a + b` that ends at or before the end of `a` is a match in `a`.
pub proof fn lemma_match_in_first(a: Seq<char>, b: Seq<char>, pat: Seq<char>, j: int)
    requires
        0 <= j,
        j + pat.len() <= a.len(),
    ensures
        matches_at(a + b, pat, j) == matches_at(a, pat, j),
{
    assert((a + b).subrange(j, j + pat.len()) =~= a.subrange(j, j + pat.len()));
}

/// `String::push` of the standard library, which appends the given character
/// to the end of the string. Taken from its documentation, not proved.
pub assume_specification[ String::push ](s: &mut String, c: char)
    ensures
        final(s)@ == old(s)@.push(c),
;

/// The characters of `s`, in order.
pub fn to_chars(s: &str) -> (out: Vec<char>)
    ensures
        out@ == s@,
{
    let mut out: Vec<char> = Vec::new();
    for c in it: s.chars()
        invariant
            it.seq() == s@,
            out@ == it.seq().take(it.index() as int),
    {
        out.push(c);
    }
    out
}

/// The string made of the characters of `chars` from `from` up to `to`.
pub fn chars_to_string(chars: &Vec<char>, from: usize, to: usize) -> (out: String)
    requires
        from <= to <= chars.len(),
    ensures
        out@ == chars@.subrange(from as int, to as int),
{
    let mut out = String::new();
    let mut i: usize = from;
    while i < to
        invariant
            from <= i <= to <= chars.len(),
            out@ == chars@.subrange(from as int, i as int),
        decreases to - i,
    {
        out.push(chars[i]);
        i += 1;
        assert(out@ =~= chars@.subrange(from as int, i as int));
    }
    out
}

/// Whether `pat` stands in `s` at index `i`.
pub fn matches_here(s: &Vec<char>, pat: &Vec<char>, i: usize) -> (r: bool)
    ensures
        r == matches_at(s@, pat@, i as int),
{
    if i > s.len() || pat.len() > s.len() - i {
        return false;
    }
    let mut k: usize = 0;
    while k < pat.len()
        invariant
            i + pat.len() <= s.len(),
            k <= pat.len(),
            forall|j: int| 0 <= j < k ==> s@[i + j] == pat@[j],
        decreases pat.len() - k,
    {
        if s[i + k] != pat[k] {
            assert(s@.subrange(i as int, i + pat@.len())[k as int] == s@[i + k]);
            return false;
        }
        k += 1;
    }
    assert(s@.subrange(i as int, i + pat@.len()) =~= pat@);
    true
}

/// The leftmost index at or after `start` at which `pat` stands in `s`.
pub fn find_from(s: &Vec<char>, pat: &Vec<char>, start: usize) -> (r: Option<usize>)
    ensures
        match r {
            Some(i) => {
                &&& start <= i
                &&& matches_at(s@, pat@, i as int)
                &&& forall|j: int| start <= j < i ==> !matches_at(s@, pat@, j)
            },
            None => forall|j: int| start <= j ==> !matches_at(s@, pat@, j),
        },
{
    let mut i: usize = start;
    while i <= s.len()
        invariant
            start <= i,
            forall|j: int| start <= j < i ==> !matches_at(s@, pat@, j),
        decreases s.len() + 1 - i,
    {
        if matches_here(s, pat, i) {
            return Some(i);
        }
        if i == s.len() {
            return None;
        }
        i += 1;
    }
    None
}

/// The characters of `s` from `from` up to `to`.
pub fn sub_chars(s: &Vec<char>, from: usize, to: usize) -> (out: Vec<char>)
    requires
        from <= to <= s.len(),
    ensures
        out@ == s@.subrange(from as int, to as int),
{
    let mut out: Vec<char> = Vec::new();
    let mut i: usize = from;
    while i < to
        invariant
            from <= i <= to <= s.len(),
            out@ == s@.subrange(from as int, i as int),
        decreases to - i,
    {
        out.push(s[i]);
        i += 1;
        assert(out@ =~= s@.subrange(from as int, i as int));
    }
    out
}

/// `s` cut at the leftmost `pat`.
pub fn split_once_chars(s: &Vec<char>, pat: &Vec<char>) -> (r: Option<(Vec<char>, Vec<char>)>)
    ensures
        match r {
            Some((before, after)) => split_once(s@, pat@) == Some((before@, after@)),
            None => split_once(s@, pat@) is None,
        },
{
    match find_from(s, pat, 0) {
        Some(i) => {
            proof {
                lemma_first_match_is(s@, pat@, i as int);
            }
            let end = s.len();
            let before = sub_chars(s, 0, i);
            let after = sub_chars(s, i + pat.len(), end);
            Some((before, after))
        },
        None => None,
    }
}

/// Whether `pat` stands anywhere in `s`.
pub fn contains_chars(s: &Vec<char>, pat: &Vec<char>) -> (r: bool)
    ensures
        r == occurs(s@, pat@),
{
    find_from(s, pat, 0).is_some()
}

} // verus!
