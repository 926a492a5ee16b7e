//! Names that are not yet taken.

use crate::text::{joined, lemma_numeral_injective, numeral, numeral_string, str_eq};
use vstd::prelude::*;
use vstd::set_lib::{lemma_int_range, lemma_len_subset, set_int_range};

verus! {

/// The `n`-th name after `base`: the base, a space and the number.
pub open spec fn candidate(base: Seq<char>, n: nat) -> Seq<char> {
    base + seq![' '] + numeral(n)
}

/// The smallest number from `n` on whose candidate is not among `used`.
pub open spec fn first_free(base: Seq<char>, used: Seq<Seq<char>>, n: nat) -> nat
    decreases used.len() + 2 - n,
{
    if n > used.len() + 1 || !used.contains(candidate(base, n)) {
        n
    } else {
        first_free(base, used, n + 1)
    }
}

/// The first of `base 1`, `base 2`, ... that is not among `used`.
pub open spec fn spec_unused_name(base: Seq<char>, used: Seq<Seq<char>>) -> Seq<char> {
    candidate(base, first_free(base, used, 1))
}

/// Different numbers give different candidates.
pub proof fn lemma_candidate_injective(base: Seq<char>, a: nat, b: nat)
    requires
        candidate(base, a) == candidate(base, b),
    ensures
        a == b,
{
    let ca = candidate(base, a);
    let cb = candidate(base, b);
    assert(ca.subrange(base.len() as int + 1, ca.len() as int) =~= numeral(a));
    assert(cb.subrange(base.len() as int + 1, cb.len() as int) =~= numeral(b));
    lemma_numeral_injective(a, b);
}

/// The candidates of the numbers below `n` are all taken, each by another of
/// the used names, whose indices are `hits`.
pub open spec fn all_taken(base: Seq<char>, used: Seq<Seq<char>>, n: nat, hits: Set<int>) -> bool {
    &&& hits.finite()
    &&& hits.len() == n - 1
    &&& hits.subset_of(set_int_range(0, used.len() as int))
    &&& forall|j: int| #[trigger]
        hits.contains(j) ==> exists|m: nat| 1 <= m < n && used[j] == candidate(base, m)
}

pub proof fn lemma_first_free(base: Seq<char>, used: Seq<Seq<char>>, n: nat, hits: Set<int>)
    requires
        n >= 1,
        all_taken(base, used, n, hits),
        forall|m: nat| 1 <= m < n ==> used.contains(#[trigger] candidate(base, m)),
    ensures
        n <= first_free(base, used, n) <= used.len() + 1,
        !used.contains(candidate(base, first_free(base, used, n))),
        forall|m: nat|
            1 <= m < first_free(base, used, n) ==> used.contains(#[trigger] candidate(base, m)),
    decreases used.len() + 2 - n,
{
    lemma_int_range(0, used.len() as int);
    lemma_len_subset(hits, set_int_range(0, used.len() as int));
    if used.contains(candidate(base, n)) {
        let j = choose|j: int| 0 <= j < used.len() && used[j] == candidate(base, n);
        if hits.contains(j) {
            let m = choose|m: nat| 1 <= m < n && used[j] == candidate(base, m);
            lemma_candidate_injective(base, m, n);
        }
        let more = hits.insert(j);
        assert forall|k: int| #[trigger] more.contains(k) implies exists|m: nat|
            1 <= m < n + 1 && used[k] == candidate(base, m) by {
            if k == j {
                assert(1 <= n < n + 1 && used[k] == candidate(base, n));
            } else {
                let m = choose|m: nat| 1 <= m < n && used[k] == candidate(base, m);
                assert(1 <= m < n + 1 && used[k] == candidate(base, m));
            }
        }
        lemma_len_subset(more, set_int_range(0, used.len() as int));
        lemma_first_free(base, used, n + 1, more);
    }
}

/// The unused name is not among the used ones, and it is the first candidate
/// of which that holds.
pub proof fn lemma_unused_name(base: Seq<char>, used: Seq<Seq<char>>)
    ensures
        !used.contains(spec_unused_name(base, used)),
        1 <= first_free(base, used, 1) <= used.len() + 1,
        forall|m: nat|
            1 <= m < first_free(base, used, 1) ==> used.contains(#[trigger] candidate(base, m)),
{
    lemma_int_range(0, used.len() as int);
    lemma_first_free(base, used, 1, Set::empty());
}

/// Whether `name` is one of `names`.
pub fn name_in(names: &Vec<String>, name: &str) -> (r: bool)
    ensures
        r == names.deep_view().contains(name@),
{
    let mut i: usize = 0;
    while i < names.len()
        invariant
            i <= names.len(),
            forall|j: int| 0 <= j < i ==> names.deep_view()[j] != name@,
        decreases names.len() - i,
    {
        if str_eq(names[i].as_str(), name) {
            assert(names.deep_view()[i as int] == name@);
            return true;
        }
        i = i + 1;
    }
    false
}

/// The first of `base 1`, `base 2`, ... that is not among `used`.
pub fn unused_name(base: &str, used: &Vec<String>) -> (r: String)
    ensures
        r@ == spec_unused_name(base@, used.deep_view()),
        !used.deep_view().contains(r@),
{
    proof {
        lemma_unused_name(base@, used.deep_view());
        reveal_strlit(" ");
    }
    let prefix = joined(base, " ");
    assert(prefix@ =~= base@ + seq![' ']);
    let mut n: u128 = 1;
    loop
        invariant
            1 <= n <= used.len() + 1,
            prefix@ == base@ + seq![' '],
            first_free(base@, used.deep_view(), 1) == first_free(base@, used.deep_view(), n as nat),
            1 <= first_free(base@, used.deep_view(), 1) <= used.deep_view().len() + 1,
            forall|m: nat|
                1 <= m < n ==> used.deep_view().contains(#[trigger] candidate(base@, m)),
            forall|m: nat|
                1 <= m < first_free(base@, used.deep_view(), 1) ==> used.deep_view().contains(
                    #[trigger] candidate(base@, m),
                ),
            !used.deep_view().contains(spec_unused_name(base@, used.deep_view())),
        decreases used.len() + 2 - n,
    {
        let name = joined(prefix.as_str(), numeral_string(n).as_str());
        assert(name@ == candidate(base@, n as nat));
        if !name_in(used, name.as_str()) {
            return name;
        }
        proof {
            // The first free number lies further on, so there is room to go on.
            let f = first_free(base@, used.deep_view(), 1);
            if f <= n {
                if f < n {
                    assert(used.deep_view().contains(candidate(base@, f)));
                }
                assert(false);
            }
        }
        n = n + 1;
    }
}

} // verus!
