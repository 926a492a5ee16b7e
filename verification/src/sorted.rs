//! Sequences kept strictly sorted by the key of their elements.
//!
//! Such a sequence is the canonical form of a finite map from keys to
//! elements: two of them that answer every lookup alike are equal. The stores
//! of this crate keep their contents in this form, so that equal contents
//! always mean equal states.

use vstd::prelude::*;

verus! {

/// Elements that carry a key, with a strict total order on the keys.
pub trait Keyed: Sized {
    type Key;

    spec fn key(self) -> Self::Key;

    spec fn key_lt(a: Self::Key, b: Self::Key) -> bool;

    proof fn lemma_key_order(a: Self::Key, b: Self::Key, c: Self::Key)
        ensures
            !Self::key_lt(a, a),
            Self::key_lt(a, b) && Self::key_lt(b, c) ==> Self::key_lt(a, c),
            Self::key_lt(a, b) || Self::key_lt(b, a) || a == b,
    ;
}

/// Every element's key is strictly before the keys of all later elements.
pub open spec fn sorted<E: Keyed>(s: Seq<E>) -> bool {
    forall|i: int, j: int|
        0 <= i < j < s.len() ==> E::key_lt(#[trigger] s[i].key(), #[trigger] s[j].key())
}

/// `r` is the place of `k` in `s`: everything before it has a smaller key,
/// and the element at it, if there is one, has not.
pub open spec fn is_rank<E: Keyed>(s: Seq<E>, k: E::Key, r: int) -> bool {
    &&& 0 <= r <= s.len()
    &&& forall|i: int| 0 <= i < r ==> E::key_lt(#[trigger] s[i].key(), k)
    &&& (r < s.len() ==> !E::key_lt(s[r].key(), k))
}

/// The number of leading elements whose key is smaller than `k`.
pub open spec fn rank<E: Keyed>(s: Seq<E>, k: E::Key) -> int
    decreases s.len(),
{
    if s.len() == 0 || !E::key_lt(s[0].key(), k) {
        0
    } else {
        1 + rank(s.skip(1), k)
    }
}

/// Whether an element with key `k` is in `s` (for sorted `s`).
pub open spec fn contains_key<E: Keyed>(s: Seq<E>, k: E::Key) -> bool {
    rank(s, k) < s.len() && s[rank(s, k)].key() == k
}

/// The element with key `k`, if `s` holds one (for sorted `s`).
pub open spec fn lookup<E: Keyed>(s: Seq<E>, k: E::Key) -> Option<E> {
    if contains_key(s, k) {
        Some(s[rank(s, k)])
    } else {
        None
    }
}

/// `s` with `e` in the place of its key: replacing the element that had the
/// key, or added.
pub open spec fn put<E: Keyed>(s: Seq<E>, e: E) -> Seq<E> {
    if contains_key(s, e.key()) {
        s.update(rank(s, e.key()), e)
    } else {
        s.insert(rank(s, e.key()), e)
    }
}

/// `s` without the element of key `k`.
pub open spec fn del<E: Keyed>(s: Seq<E>, k: E::Key) -> Seq<E> {
    if contains_key(s, k) {
        s.remove(rank(s, k))
    } else {
        s
    }
}

pub proof fn lemma_rank<E: Keyed>(s: Seq<E>, k: E::Key)
    ensures
        is_rank(s, k, rank(s, k)),
    decreases s.len(),
{
    if s.len() == 0 || !E::key_lt(s[0].key(), k) {
    } else {
        let t = s.skip(1);
        lemma_rank(t, k);
        let r = rank(t, k);
        assert forall|i: int| 0 <= i < r + 1 implies E::key_lt(#[trigger] s[i].key(), k) by {
            if i > 0 {
                assert(t[i - 1] == s[i]);
                assert(E::key_lt(t[i - 1].key(), k));
            }
        }
        if r + 1 < s.len() {
            assert(t[r] == s[r + 1]);
        }
    }
}

pub proof fn lemma_rank_unique<E: Keyed>(s: Seq<E>, k: E::Key, r: int)
    requires
        is_rank(s, k, r),
    ensures
        rank(s, k) == r,
{
    lemma_rank(s, k);
    let q = rank(s, k);
    if q < r {
        assert(E::key_lt(s[q].key(), k));
    } else if r < q {
        assert(E::key_lt(s[r].key(), k));
    }
}

/// In a sorted sequence the place of an element's own key is its index.
pub proof fn lemma_rank_of_element<E: Keyed>(s: Seq<E>, i: int)
    requires
        sorted(s),
        0 <= i < s.len(),
    ensures
        rank(s, s[i].key()) == i,
        contains_key(s, s[i].key()),
        lookup(s, s[i].key()) == Some(s[i]),
{
    E::lemma_key_order(s[i].key(), s[i].key(), s[i].key());
    assert forall|j: int| 0 <= j < i implies E::key_lt(#[trigger] s[j].key(), s[i].key()) by {}
    lemma_rank_unique(s, s[i].key(), i);
}

/// In a sorted sequence everything from the place of `k` on has a key that is
/// `k` or greater; only the element at the place itself can have the key `k`.
pub proof fn lemma_rank_sorted<E: Keyed>(s: Seq<E>, k: E::Key)
    requires
        sorted(s),
    ensures
        forall|i: int| rank(s, k) <= i < s.len() ==> !E::key_lt(#[trigger] s[i].key(), k),
        forall|i: int| rank(s, k) < i < s.len() ==> E::key_lt(k, #[trigger] s[i].key()),
        forall|i: int| 0 <= i < s.len() && #[trigger] s[i].key() == k ==> i == rank(s, k),
{
    lemma_rank(s, k);
    let r = rank(s, k);
    assert forall|i: int| r <= i < s.len() implies !E::key_lt(#[trigger] s[i].key(), k) by {
        if r < i {
            E::lemma_key_order(s[r].key(), s[i].key(), k);
        }
    }
    assert forall|i: int| r < i < s.len() implies E::key_lt(k, #[trigger] s[i].key()) by {
        E::lemma_key_order(s[r].key(), k, s[i].key());
        E::lemma_key_order(s[r].key(), s[i].key(), s[i].key());
        E::lemma_key_order(k, s[r].key(), s[i].key());
    }
    assert forall|i: int| 0 <= i < s.len() && #[trigger] s[i].key() == k implies i == r by {
        E::lemma_key_order(k, k, k);
        if i < r {
            assert(E::key_lt(s[i].key(), k));
        } else if r < i {
            assert(E::key_lt(k, s[i].key()));
        }
    }
}

/// `put` keeps the sequence sorted, and changes the answer for its own key
/// only.
pub proof fn lemma_put<E: Keyed>(s: Seq<E>, e: E)
    requires
        sorted(s),
    ensures
        sorted(put(s, e)),
        lookup(put(s, e), e.key()) == Some(e),
        forall|k: E::Key| k != e.key() ==> lookup(put(s, e), k) == lookup(s, k),
        put(s, e).len() == if contains_key(s, e.key()) { s.len() } else { s.len() + 1 },
{
    let ke = e.key();
    let r = rank(s, ke);
    let t = put(s, e);
    lemma_rank(s, ke);
    lemma_rank_sorted(s, ke);
    if contains_key(s, ke) {
        assert forall|i: int, j: int| 0 <= i < j < t.len() implies E::key_lt(
            #[trigger] t[i].key(),
            #[trigger] t[j].key(),
        ) by {
            assert(t[i].key() == s[i].key());
            assert(t[j].key() == s[j].key());
        }
    } else {
        assert forall|i: int, j: int| 0 <= i < j < t.len() implies E::key_lt(
            #[trigger] t[i].key(),
            #[trigger] t[j].key(),
        ) by {
            if j < r {
                assert(t[i] == s[i] && t[j] == s[j]);
            } else if j == r {
                assert(t[i] == s[i]);
            } else if i < r {
                assert(t[i] == s[i] && t[j] == s[j - 1]);
            } else if i == r {
                assert(t[j] == s[j - 1]);
                if j - 1 == r {
                    E::lemma_key_order(ke, s[r].key(), ke);
                }
            } else {
                assert(t[i] == s[i - 1] && t[j] == s[j - 1]);
            }
        }
    }
    assert(t[r] == e);
    lemma_rank_of_element(t, r);
    assert forall|k: E::Key| k != ke implies lookup(t, k) == lookup(s, k) by {
        lemma_rank(s, k);
        lemma_rank_sorted(s, k);
        let q = rank(s, k);
        E::lemma_key_order(k, ke, k);
        E::lemma_key_order(ke, k, ke);
        if contains_key(s, ke) {
            assert forall|i: int| 0 <= i < q implies E::key_lt(#[trigger] t[i].key(), k) by {
                assert(t[i].key() == s[i].key());
            }
            if q < t.len() {
                assert(t[q].key() == s[q].key());
            }
            lemma_rank_unique(t, k, q);
            if q != r && q < s.len() {
                assert(t[q] == s[q]);
            }
        } else if E::key_lt(k, ke) {
            // `k` stands before the new element: its place does not move.
            if q > r {
                assert(E::key_lt(s[r].key(), k));
                E::lemma_key_order(s[r].key(), k, ke);
            }
            assert forall|i: int| 0 <= i < q implies E::key_lt(#[trigger] t[i].key(), k) by {
                assert(t[i] == s[i]);
            }
            if q < r {
                assert(t[q] == s[q]);
            } else {
                assert(t[q] == e);
                E::lemma_key_order(ke, k, ke);
            }
            lemma_rank_unique(t, k, q);
        } else {
            // `k` stands after the new element: its place moves up by one.
            assert(E::key_lt(ke, k));
            if q < r {
                assert(E::key_lt(s[q].key(), ke));
                E::lemma_key_order(s[q].key(), ke, k);
            }
            assert forall|i: int| 0 <= i < q + 1 implies E::key_lt(#[trigger] t[i].key(), k) by {
                if i < r {
                    assert(t[i] == s[i]);
                } else if i == r {
                } else {
                    assert(t[i] == s[i - 1]);
                }
            }
            if q + 1 < t.len() {
                assert(t[q + 1] == s[q]);
            }
            lemma_rank_unique(t, k, q + 1);
        }
    }
}

/// `del` keeps the sequence sorted, and changes the answer for its own key
/// only.
pub proof fn lemma_del<E: Keyed>(s: Seq<E>, k0: E::Key)
    requires
        sorted(s),
    ensures
        sorted(del(s, k0)),
        lookup(del(s, k0), k0) is None,
        forall|k: E::Key| k != k0 ==> lookup(del(s, k0), k) == lookup(s, k),
        del(s, k0).len() == if contains_key(s, k0) { s.len() - 1 } else { s.len() as int },
{
    let r = rank(s, k0);
    let t = del(s, k0);
    lemma_rank(s, k0);
    lemma_rank_sorted(s, k0);
    if contains_key(s, k0) {
        assert forall|i: int, j: int| 0 <= i < j < t.len() implies E::key_lt(
            #[trigger] t[i].key(),
            #[trigger] t[j].key(),
        ) by {
            let si = if i < r { i } else { i + 1 };
            let sj = if j < r { j } else { j + 1 };
            assert(t[i] == s[si] && t[j] == s[sj]);
        }
        assert forall|i: int| 0 <= i < r implies E::key_lt(#[trigger] t[i].key(), k0) by {
            assert(t[i] == s[i]);
        }
        if r < t.len() {
            assert(t[r] == s[r + 1]);
            E::lemma_key_order(k0, t[r].key(), k0);
        }
        lemma_rank_unique(t, k0, r);
        assert forall|k: E::Key| k != k0 implies lookup(t, k) == lookup(s, k) by {
            lemma_rank(s, k);
            lemma_rank_sorted(s, k);
            let q = rank(s, k);
            E::lemma_key_order(k, k0, k);
            E::lemma_key_order(k0, k, k0);
            if q <= r {
                if q == r {
                    // then `k` is before `k0`, and the element after `r` is too large
                    assert(E::key_lt(k, k0));
                    if r < t.len() {
                        E::lemma_key_order(k, k0, t[r].key());
                        E::lemma_key_order(k, t[r].key(), k);
                    }
                } else {
                    assert(t[q] == s[q]);
                }
                assert forall|i: int| 0 <= i < q implies E::key_lt(#[trigger] t[i].key(), k) by {
                    assert(t[i] == s[i]);
                }
                lemma_rank_unique(t, k, q);
            } else {
                assert forall|i: int| 0 <= i < q - 1 implies E::key_lt(
                    #[trigger] t[i].key(),
                    k,
                ) by {
                    let si = if i < r { i } else { i + 1 };
                    assert(t[i] == s[si]);
                }
                if q - 1 < t.len() {
                    assert(t[q - 1] == s[q]);
                }
                lemma_rank_unique(t, k, q - 1);
            }
        }
    } else {
    }
}

/// Two sorted sequences that answer every lookup alike are equal.
pub proof fn lemma_sorted_ext<E: Keyed>(a: Seq<E>, b: Seq<E>)
    requires
        sorted(a),
        sorted(b),
        forall|k: E::Key| lookup(a, k) == lookup(b, k),
    ensures
        a == b,
    decreases a.len(),
{
    if a.len() == 0 {
        if b.len() > 0 {
            lemma_rank_of_element(b, 0);
            assert(lookup(a, b[0].key()) is None);
        }
        assert(a =~= b);
    } else {
        let n = a.len() - 1;
        let x = a[n];
        lemma_rank_of_element(a, n);
        assert(lookup(b, x.key()) == Some(x));
        lemma_rank(b, x.key());
        let j = rank(b, x.key());
        assert(b[j] == x);
        if j < b.len() - 1 {
            let y = b[b.len() - 1];
            lemma_rank_of_element(b, b.len() - 1);
            assert(lookup(a, y.key()) == Some(y));
            lemma_rank(a, y.key());
            let i = rank(a, y.key());
            assert(a[i] == y);
            assert(E::key_lt(b[j].key(), b[b.len() - 1].key()));
            if i < n {
                assert(E::key_lt(a[i].key(), a[n].key()));
                E::lemma_key_order(x.key(), y.key(), x.key());
            }
            E::lemma_key_order(x.key(), x.key(), x.key());
        }
        lemma_del(a, x.key());
        lemma_del(b, x.key());
        assert(del(a, x.key()) =~= a.drop_last());
        assert(del(b, x.key()) =~= b.drop_last());
        assert forall|k: E::Key| lookup(a.drop_last(), k) == lookup(b.drop_last(), k) by {
            if k != x.key() {
                assert(lookup(del(a, x.key()), k) == lookup(a, k));
                assert(lookup(del(b, x.key()), k) == lookup(b, k));
            }
        }
        lemma_sorted_ext(a.drop_last(), b.drop_last());
        assert(a =~= a.drop_last().push(x));
        assert(b =~= b.drop_last().push(x));
    }
}

/// Putting back what was deleted restores the sequence.
pub proof fn lemma_put_after_del<E: Keyed>(s: Seq<E>, i: int)
    requires
        sorted(s),
        0 <= i < s.len(),
    ensures
        put(del(s, s[i].key()), s[i]) == s,
        del(s, s[i].key()) == s.remove(i),
{
    let e = s[i];
    lemma_rank_of_element(s, i);
    lemma_del(s, e.key());
    lemma_put(del(s, e.key()), e);
    assert forall|k: E::Key| lookup(put(del(s, e.key()), e), k) == lookup(s, k) by {}
    lemma_sorted_ext(put(del(s, e.key()), e), s);
}

/// Deleting what was newly put restores the sequence.
pub proof fn lemma_del_after_put<E: Keyed>(s: Seq<E>, e: E)
    requires
        sorted(s),
        !contains_key(s, e.key()),
    ensures
        del(put(s, e), e.key()) == s,
{
    lemma_put(s, e);
    lemma_del(put(s, e), e.key());
    assert forall|k: E::Key| lookup(del(put(s, e), e.key()), k) == lookup(s, k) by {}
    lemma_sorted_ext(del(put(s, e), e.key()), s);
}

/// Putting back the element that a `put` replaced restores the sequence.
pub proof fn lemma_put_after_put<E: Keyed>(s: Seq<E>, i: int, e: E)
    requires
        sorted(s),
        0 <= i < s.len(),
        e.key() == s[i].key(),
    ensures
        put(put(s, e), s[i]) == s,
{
    lemma_rank_of_element(s, i);
    lemma_put(s, e);
    lemma_put(put(s, e), s[i]);
    assert forall|k: E::Key| lookup(put(put(s, e), s[i]), k) == lookup(s, k) by {}
    lemma_sorted_ext(put(put(s, e), s[i]), s);
}

} // verus!
