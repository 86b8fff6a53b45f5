//! The line and column that may follow a path.

use crate::text::{contains_chars, occurs, split_once, split_once_chars, sub_chars};
use vstd::prelude::*;

verus! {

/// Whether `c` is one of `0` to `9`.
pub open spec fn is_digit(c: char) -> bool {
    '0' <= c <= '9'
}

/// Whether `s` is one or more decimal digits.
pub open spec fn is_digits(s: Seq<char>) -> bool {
    &&& s.len() > 0
    &&& forall|i: int| 0 <= i < s.len() ==> is_digit(#[trigger] s[i])
}

/// The number that the decimal digits `s` write.
pub open spec fn digits_value(s: Seq<char>) -> nat
    decreases s.len(),
{
    if s.len() == 0 {
        0
    } else {
        digits_value(s.drop_last()) * 10 + digit_value(s.last())
    }
}

/// The number that the digit `c` writes, and 0 for any other character.
pub open spec fn digit_value(c: char) -> nat {
    if is_digit(c) {
        (c as int - '0' as int) as nat
    } else {
        0
    }
}

/// `s` without one leading `+`.
pub open spec fn unsigned_text(s: Seq<char>) -> Seq<char> {
    if s.len() > 0 && s[0] == '+' {
        s.skip(1)
    } else {
        s
    }
}

/// The number that `s` writes: decimal digits, after at most one `+`, whose
/// value fits the machine word. `None` for every other text.
pub open spec fn parsed_number(s: Seq<char>) -> Option<nat> {
    let digits = unsigned_text(s);
    if is_digits(digits) && digits_value(digits) <= usize::MAX {
        Some(digits_value(digits))
    } else {
        None
    }
}

/// The number that `s` writes, and 1 where it writes none.
pub open spec fn number_or_one(s: Seq<char>) -> nat {
    match parsed_number(s) {
        Some(n) => n,
        None => 1,
    }
}

/// The single character `:`.
pub open spec fn colon() -> Seq<char> {
    seq![':']
}

/// `s` without its first character.
pub open spec fn after_marker(s: Seq<char>) -> Seq<char> {
    if s.len() > 0 {
        s.skip(1)
    } else {
        s
    }
}

/// Whether exactly one `:` stands in `suffix`.
pub open spec fn has_one_colon(suffix: Seq<char>) -> bool {
    match split_once(suffix, colon()) {
        Some((_, second)) => !occurs(second, colon()),
        None => false,
    }
}

/// The line and column that `suffix` gives. With exactly one `:` in it, the
/// line is what stands between the first character and the `:`, the column
/// what follows the `:`, each read as a number or taken as 1. With any other
/// count of `:`, neither is given.
pub open spec fn position_of(suffix: Seq<char>) -> (Option<nat>, Option<nat>) {
    match split_once(suffix, colon()) {
        Some((first, second)) => if occurs(second, colon()) {
            (None, None)
        } else {
            (Some(number_or_one(after_marker(first))), Some(number_or_one(second)))
        },
        None => (None, None),
    }
}

/// What `Option<usize>` stands for in contracts.
pub open spec fn as_nat(n: Option<usize>) -> Option<nat> {
    match n {
        Some(v) => Some(v as nat),
        None => None,
    }
}

/// A prefix of a digit text writes no larger a number than the whole.
proof fn lemma_prefix_value(s: Seq<char>, k: int)
    requires
        0 <= k <= s.len(),
    ensures
        digits_value(s.take(k)) <= digits_value(s),
    decreases s.len() - k,
{
    if k == s.len() {
        assert(s.take(k) =~= s);
    } else {
        lemma_prefix_value(s, k + 1);
        let longer = s.take(k + 1);
        assert(longer.drop_last() =~= s.take(k));
        assert(digits_value(longer) == digits_value(longer.drop_last()) * 10 + digit_value(
            longer.last(),
        ));
    }
}

/// Reads `s` as a number: decimal digits after at most one `+`. `None` where
/// `s` is anything else, or writes a number beyond the machine word.
pub fn parse_number(s: &Vec<char>) -> (r: Option<usize>)
    ensures
        as_nat(r) == parsed_number(s@),
{
    let start: usize = if s.len() > 0 && s[0] == '+' {
        1
    } else {
        0
    };
    let ghost digits = unsigned_text(s@);
    assert(digits =~= s@.skip(start as int));
    if start == s.len() {
        return None;
    }
    let mut value: usize = 0;
    let mut i: usize = start;
    while i < s.len()
        invariant
            start <= i <= s.len(),
            digits == s@.skip(start as int),
            digits == unsigned_text(s@),
            forall|j: int| 0 <= j < i - start ==> is_digit(#[trigger] digits[j]),
            value == digits_value(digits.take(i - start)),
        decreases s.len() - i,
    {
        let c = s[i];
        if c < '0' || c > '9' {
            assert(!is_digit(digits[i - start]));
            return None;
        }
        let d: usize = (c as u32 - '0' as u32) as usize;
        proof {
            let longer = digits.take(i - start + 1);
            assert(longer.drop_last() =~= digits.take(i - start));
            assert(longer.last() == c);
            assert(digits_value(longer) == value * 10 + d);
            lemma_prefix_value(digits, i - start + 1);
        }
        let next = match value.checked_mul(10) {
            Some(v) => v.checked_add(d),
            None => None,
        };
        match next {
            Some(v) => {
                value = v;
            },
            None => {
                // The digits seen so far already write too large a number;
                // whatever follows, the whole is no smaller or is no number.
                let mut k: usize = i + 1;
                while k < s.len()
                    invariant
                        i < k <= s.len(),
                        start <= i,
                        digits == s@.skip(start as int),
                        digits == unsigned_text(s@),
                        digits_value(digits) > usize::MAX,
                        forall|j: int| 0 <= j < k - start ==> is_digit(#[trigger] digits[j]),
                    decreases s.len() - k,
                {
                    let e = s[k];
                    if e < '0' || e > '9' {
                        assert(!is_digit(digits[k - start]));
                        return None;
                    }
                    k += 1;
                }
                return None;
            },
        }
        i += 1;
    }
    assert(digits.take(i - start) =~= digits);
    Some(value)
}

/// The line and column that `suffix` gives.
pub fn parse_position(suffix: &Vec<char>) -> (r: (Option<usize>, Option<usize>))
    ensures
        (as_nat(r.0), as_nat(r.1)) == position_of(suffix@),
        r.0 is Some <==> has_one_colon(suffix@),
        r.1 is Some <==> has_one_colon(suffix@),
{
    let mut sep: Vec<char> = Vec::new();
    sep.push(':');
    assert(sep@ =~= colon());
    match split_once_chars(suffix, &sep) {
        Some((first, second)) => {
            if contains_chars(&second, &sep) {
                (None, None)
            } else {
                let line_text = if first.len() > 0 {
                    sub_chars(&first, 1, first.len())
                } else {
                    first
                };
                let line = match parse_number(&line_text) {
                    Some(n) => n,
                    None => 1,
                };
                let col = match parse_number(&second) {
                    Some(n) => n,
                    None => 1,
                };
                (Some(line), Some(col))
            }
        },
        None => (None, None),
    }
}

} // verus!
