//! Order keys: strings whose lexicographic order is the order of the items
//! that carry them. A new key can always be asked for between two neighbours,
//! so an item is placed anywhere without renumbering the others.

use crate::text::{lex_lt, str_lt};
use vstd::prelude::*;

verus! {

/// The characters that order keys are written with.
pub open spec fn is_key_char(c: char) -> bool {
    ('0' <= c && c <= '9') || ('A' <= c && c <= 'Z') || ('a' <= c && c <= 'z')
}

/// A non-empty string of key characters.
pub open spec fn is_key_text(s: Seq<char>) -> bool {
    s.len() > 0 && forall|i: int| 0 <= i < s.len() ==> is_key_char(#[trigger] s[i])
}

/// An absent bound, or one that is a key text.
pub open spec fn is_bound(b: Option<Seq<char>>) -> bool {
    b matches Some(s) ==> is_key_text(s)
}

/// `k` sorts after `lower` and before `upper`, as far as they are given.
pub open spec fn strictly_between(
    lower: Option<Seq<char>>,
    k: Seq<char>,
    upper: Option<Seq<char>>,
) -> bool {
    &&& lower matches Some(l) ==> lex_lt(l, k)
    &&& upper matches Some(u) ==> lex_lt(k, u)
}

/// The length of the first part of an order key, which stands for a whole
/// number: the first character tells it. From `a` to `z` the part grows from
/// 2 characters to 27; from `Z` down to `A` likewise.
pub open spec fn whole_part_len(first: char) -> int {
    if 'a' <= first && first <= 'z' {
        first as int - 'a' as int + 2
    } else {
        'Z' as int - first as int + 2
    }
}

/// The smallest whole part, which is no order key by itself.
pub open spec fn smallest_whole_part() -> Seq<char> {
    "A00000000000000000000000000"@
}

/// An order key, as the generator gives and takes them: a key text that
/// begins with a letter, holds the whole part that the letter announces, is
/// not the smallest whole part alone, and does not end the part behind the
/// whole part with `0`.
pub open spec fn is_order_key(s: Seq<char>) -> bool {
    &&& is_key_text(s)
    &&& (('a' <= s[0] && s[0] <= 'z') || ('A' <= s[0] && s[0] <= 'Z'))
    &&& whole_part_len(s[0]) <= s.len()
    &&& s != smallest_whole_part()
    &&& (s.len() > whole_part_len(s[0]) ==> s.last() != '0')
}

/// An absent bound, or one that is an order key.
pub open spec fn is_order_bound(b: Option<Seq<char>>) -> bool {
    b matches Some(s) ==> is_order_key(s)
}

/// Where both bounds are given, the lower one sorts before the upper one.
pub open spec fn in_order(lower: Option<Seq<char>>, upper: Option<Seq<char>>) -> bool {
    lower matches Some(l) ==> (upper matches Some(u) ==> lex_lt(l, u))
}

/// What the fractional-index generator answers for two bounds: a key, or
/// nothing where it rejects them.
pub uninterp spec fn generated_key(lower: Option<Seq<char>>, upper: Option<Seq<char>>) -> Option<
    Seq<char>,
>;

/// The candidate, if it lies strictly between the bounds.
pub open spec fn accepted(
    lower: Option<Seq<char>>,
    candidate: Option<Seq<char>>,
    upper: Option<Seq<char>>,
) -> Option<Seq<char>> {
    match candidate {
        Some(k) => if strictly_between(lower, k, upper) {
            Some(k)
        } else {
            None
        },
        None => None,
    }
}

/// The key that `key_between` gives for two bounds.
pub open spec fn spec_key_between(lower: Option<Seq<char>>, upper: Option<Seq<char>>) -> Option<
    Seq<char>,
> {
    if is_bound(lower) && is_bound(upper) {
        accepted(lower, generated_key(lower, upper), upper)
    } else {
        None
    }
}

/// Calls `lexicon_fractional_index::key_between`. The bounds must be key
/// texts, on which the generator does not fail abruptly. Its answer depends
/// on the two bounds alone, and an error it reports becomes `None`. For
/// bounds that are order keys or absent, and in order, it reports no error,
/// and the key that it gives sorts strictly between the bounds, as its
/// documentation says; of its answer for other bounds nothing is claimed.
#[verifier::external_body]
fn generate_key(lower: &Option<String>, upper: &Option<String>) -> (r: Option<String>)
    requires
        is_bound(lower.deep_view()),
        is_bound(upper.deep_view()),
    ensures
        r.deep_view() == generated_key(lower.deep_view(), upper.deep_view()),
        is_order_bound(lower.deep_view()) && is_order_bound(upper.deep_view()) && in_order(
            lower.deep_view(),
            upper.deep_view(),
        ) ==> r is Some && strictly_between(
            lower.deep_view(),
            r.deep_view()->0,
            upper.deep_view(),
        ),
{
    match lexicon_fractional_index::key_between(lower, upper) {
        Ok(key) => Some(key),
        Err(_) => None,
    }
}

/// Whether the string is a key text.
pub fn check_key_text(s: &str) -> (r: bool)
    ensures
        r == is_key_text(s@),
{
    let n: usize = s.unicode_len();
    if n == 0 {
        return false;
    }
    let mut i: usize = 0;
    while i < n
        invariant
            n == s@.len(),
            i <= n,
            forall|j: int| 0 <= j < i ==> is_key_char(#[trigger] s@[j]),
        decreases n - i,
    {
        let c: char = s.get_char(i);
        let ok = ('0' <= c && c <= '9') || ('A' <= c && c <= 'Z') || ('a' <= c && c <= 'z');
        if !ok {
            return false;
        }
        i = i + 1;
    }
    true
}

fn check_bound(b: &Option<String>) -> (r: bool)
    ensures
        r == is_bound(b.deep_view()),
{
    match b {
        Some(s) => check_key_text(s.as_str()),
        None => true,
    }
}

/// Keeps a candidate key only if it sorts strictly between the bounds.
pub fn accept_key(lower: &Option<String>, candidate: Option<String>, upper: &Option<String>) -> (r:
    Option<String>)
    ensures
        r.deep_view() == accepted(lower.deep_view(), candidate.deep_view(), upper.deep_view()),
{
    match candidate {
        Some(k) => {
            let above = match lower {
                Some(l) => str_lt(l.as_str(), k.as_str()),
                None => true,
            };
            let below = match upper {
                Some(u) => str_lt(k.as_str(), u.as_str()),
                None => true,
            };
            if above && below {
                Some(k)
            } else {
                None
            }
        },
        None => None,
    }
}

/// A key that sorts strictly between `lower` and `upper`; an absent bound
/// does not bound. For bounds that are order keys or absent, and in order,
/// there is always a key. `None` when a bound is not a key text, or when the
/// generator gives no key between them (as it does when `lower` does not sort
/// before `upper`).
pub fn key_between(lower: &Option<String>, upper: &Option<String>) -> (r: Option<String>)
    ensures
        r.deep_view() == spec_key_between(lower.deep_view(), upper.deep_view()),
        r matches Some(k) ==> strictly_between(lower.deep_view(), k@, upper.deep_view()),
        is_order_bound(lower.deep_view()) && is_order_bound(upper.deep_view()) && in_order(
            lower.deep_view(),
            upper.deep_view(),
        ) ==> r is Some,
{
    if check_bound(lower) && check_bound(upper) {
        let candidate = generate_key(lower, upper);
        accept_key(lower, candidate, upper)
    } else {
        None
    }
}

/// Every key that `key_between` gives sorts after the lower bound and before
/// the upper one; with one bound absent, on the right side of the other.
pub proof fn law_key_between_is_between(lower: Option<Seq<char>>, upper: Option<Seq<char>>)
    ensures
        spec_key_between(lower, upper) matches Some(k) ==> strictly_between(lower, k, upper),
        spec_key_between(None, upper) matches Some(k) ==> (upper matches Some(u) ==> lex_lt(k, u)),
        spec_key_between(lower, None) matches Some(k) ==> (lower matches Some(l) ==> lex_lt(l, k)),
{
}

/// No key is given for bounds that are out of order or equal.
pub proof fn law_key_between_needs_room(lower: Seq<char>, upper: Seq<char>)
    requires
        !lex_lt(lower, upper),
    ensures
        spec_key_between(Some(lower), Some(upper)) is None,
{
    match spec_key_between(Some(lower), Some(upper)) {
        Some(k) => {
            crate::text::lemma_lex_transitive(lower, k, upper);
        },
        None => {},
    }
}

} // verus!
