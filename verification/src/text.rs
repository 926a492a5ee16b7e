//! Text as sequences of characters: the lexicographic order that sorts
//! order keys, and the decimal numerals used in generated names.

use vstd::prelude::*;

verus! {

/// `i` is a place at which `a` sorts before `b`: the two agree on their first
/// `i` characters, and there `a` either ends while `b` goes on, or holds the
/// smaller character.
pub open spec fn splits_before(a: Seq<char>, b: Seq<char>, i: int) -> bool {
    &&& 0 <= i <= a.len()
    &&& i < b.len()
    &&& forall|j: int| 0 <= j < i ==> a[j] == b[j]
    &&& (i < a.len() ==> (a[i] as int) < (b[i] as int))
}

/// The strict lexicographic order of strings, character by character.
pub open spec fn lex_lt(a: Seq<char>, b: Seq<char>) -> bool {
    exists|i: int| splits_before(a, b, i)
}

/// The length of the longest common prefix.
pub open spec fn common_prefix(a: Seq<char>, b: Seq<char>) -> int
    decreases a.len(),
{
    if a.len() == 0 || b.len() == 0 || a[0] != b[0] {
        0
    } else {
        1 + common_prefix(a.skip(1), b.skip(1))
    }
}

pub proof fn lemma_common_prefix(a: Seq<char>, b: Seq<char>)
    ensures
        0 <= common_prefix(a, b) <= a.len(),
        common_prefix(a, b) <= b.len(),
        forall|j: int| 0 <= j < common_prefix(a, b) ==> a[j] == b[j],
        common_prefix(a, b) < a.len() && common_prefix(a, b) < b.len() ==> a[common_prefix(a, b)]
            != b[common_prefix(a, b)],
    decreases a.len(),
{
    if a.len() == 0 || b.len() == 0 || a[0] != b[0] {
    } else {
        lemma_common_prefix(a.skip(1), b.skip(1));
        let n = common_prefix(a.skip(1), b.skip(1));
        assert forall|j: int| 0 <= j < n + 1 implies a[j] == b[j] by {
            if j > 0 {
                assert(a.skip(1)[j - 1] == b.skip(1)[j - 1]);
            }
        }
        if n + 1 < a.len() && n + 1 < b.len() {
            assert(a.skip(1)[n] != b.skip(1)[n]);
        }
    }
}

/// No string sorts before itself.
pub proof fn lemma_lex_irreflexive(a: Seq<char>)
    ensures
        !lex_lt(a, a),
{
}

/// The order is transitive.
pub proof fn lemma_lex_transitive(a: Seq<char>, b: Seq<char>, c: Seq<char>)
    requires
        lex_lt(a, b),
        lex_lt(b, c),
    ensures
        lex_lt(a, c),
{
    let i = choose|i: int| splits_before(a, b, i);
    let j = choose|j: int| splits_before(b, c, j);
    let k = if i <= j { i } else { j };
    assert(splits_before(a, c, k));
}

/// Of two different strings one sorts before the other.
pub proof fn lemma_lex_total(a: Seq<char>, b: Seq<char>)
    ensures
        lex_lt(a, b) || lex_lt(b, a) || a == b,
{
    lemma_common_prefix(a, b);
    let n = common_prefix(a, b);
    if n == a.len() && n == b.len() {
        assert(a =~= b);
    } else if n == a.len() {
        assert(splits_before(a, b, n));
    } else if n == b.len() {
        assert(splits_before(b, a, n));
    } else if (a[n] as int) < (b[n] as int) {
        assert(splits_before(a, b, n));
    } else {
        assert(splits_before(b, a, n));
    }
}

/// Two strings are never each before the other.
pub proof fn lemma_lex_asymmetric(a: Seq<char>, b: Seq<char>)
    requires
        lex_lt(a, b),
    ensures
        !lex_lt(b, a),
{
    if lex_lt(b, a) {
        lemma_lex_transitive(a, b, a);
        lemma_lex_irreflexive(a);
    }
}

/// Compares two strings in the lexicographic order.
pub fn str_lt(a: &str, b: &str) -> (r: bool)
    ensures
        r == lex_lt(a@, b@),
{
    let la: usize = a.unicode_len();
    let lb: usize = b.unicode_len();
    let mut i: usize = 0;
    while i < la && i < lb
        invariant
            la == a@.len(),
            lb == b@.len(),
            i <= la,
            i <= lb,
            forall|j: int| 0 <= j < i ==> a@[j] == b@[j],
        decreases la - i,
    {
        let ca: char = a.get_char(i);
        let cb: char = b.get_char(i);
        if ca != cb {
            let r = (ca as u32) < (cb as u32);
            proof {
                if r {
                    assert(splits_before(a@, b@, i as int));
                } else {
                    assert(splits_before(b@, a@, i as int));
                    lemma_lex_asymmetric(b@, a@);
                }
            }
            return r;
        }
        i = i + 1;
    }
    let r = i < lb;
    proof {
        if r {
            assert(splits_before(a@, b@, i as int));
        } else if i < la {
            assert(splits_before(b@, a@, i as int));
            lemma_lex_asymmetric(b@, a@);
        } else {
            assert(a@ =~= b@);
            lemma_lex_irreflexive(a@);
        }
    }
    r
}

/// Whether two strings hold the same characters.
pub fn str_eq(a: &str, b: &str) -> (r: bool)
    ensures
        r == (a@ == b@),
{
    let la: usize = a.unicode_len();
    let lb: usize = b.unicode_len();
    if la != lb {
        return false;
    }
    let mut i: usize = 0;
    while i < la
        invariant
            la == a@.len(),
            lb == b@.len(),
            la == lb,
            i <= la,
            forall|j: int| 0 <= j < i ==> a@[j] == b@[j],
        decreases la - i,
    {
        if a.get_char(i) != b.get_char(i) {
            return false;
        }
        i = i + 1;
    }
    assert(a@ =~= b@);
    true
}

/// The two strings joined.
pub fn joined(a: &str, b: &str) -> (r: String)
    ensures
        r@ == a@ + b@,
{
    let mut r = String::from_str(a);
    r.append(b);
    r
}

/// The character of a decimal digit.
pub open spec fn digit_char(d: nat) -> char {
    if d == 0 {
        '0'
    } else if d == 1 {
        '1'
    } else if d == 2 {
        '2'
    } else if d == 3 {
        '3'
    } else if d == 4 {
        '4'
    } else if d == 5 {
        '5'
    } else if d == 6 {
        '6'
    } else if d == 7 {
        '7'
    } else if d == 8 {
        '8'
    } else {
        '9'
    }
}

/// The decimal numeral of `n`, without leading zeros.
pub open spec fn numeral(n: nat) -> Seq<char>
    decreases n,
{
    if n < 10 {
        seq![digit_char(n)]
    } else {
        numeral(n / 10).push(digit_char(n % 10))
    }
}

fn digit_str(d: u128) -> (s: &'static str)
    requires
        d < 10,
    ensures
        s@ == seq![digit_char(d as nat)],
{
    proof {
        reveal_strlit("0");
        reveal_strlit("1");
        reveal_strlit("2");
        reveal_strlit("3");
        reveal_strlit("4");
        reveal_strlit("5");
        reveal_strlit("6");
        reveal_strlit("7");
        reveal_strlit("8");
        reveal_strlit("9");
    }
    let s = if d == 0 {
        "0"
    } else if d == 1 {
        "1"
    } else if d == 2 {
        "2"
    } else if d == 3 {
        "3"
    } else if d == 4 {
        "4"
    } else if d == 5 {
        "5"
    } else if d == 6 {
        "6"
    } else if d == 7 {
        "7"
    } else if d == 8 {
        "8"
    } else {
        "9"
    };
    assert(s@ =~= seq![digit_char(d as nat)]);
    s
}

/// Writes `n` as a decimal numeral.
pub fn numeral_string(n: u128) -> (r: String)
    ensures
        r@ == numeral(n as nat),
{
    let mut r = String::from_str(digit_str(n % 10));
    let mut m: u128 = n / 10;
    // `numeral(n)` is `numeral(m)` followed by `r`, or `r` alone once `m` is 0
    // and nothing is left to write.
    while m > 0
        invariant
            r@.len() > 0,
            m > 0 ==> numeral(n as nat) == numeral(m as nat) + r@,
            m == 0 ==> numeral(n as nat) == r@,
        decreases m,
    {
        let next = joined(digit_str(m % 10), r.as_str());
        proof {
            let d = seq![digit_char((m % 10) as nat)];
            if m >= 10 {
                assert(numeral(m as nat) == numeral((m / 10) as nat).push(digit_char((m % 10) as nat)));
                assert(numeral((m / 10) as nat).push(digit_char((m % 10) as nat)) + r@ =~= numeral(
                    (m / 10) as nat,
                ) + (d + r@));
            } else {
                assert(numeral(m as nat) =~= d);
            }
        }
        r = next;
        m = m / 10;
    }
    r
}

/// A numeral has at least one digit, and two or more from ten on.
pub proof fn lemma_numeral_len(n: nat)
    ensures
        numeral(n).len() >= 1,
        n >= 10 ==> numeral(n).len() >= 2,
    decreases n,
{
    if n >= 10 {
        lemma_numeral_len(n / 10);
    }
}

/// Different numbers have different numerals.
pub proof fn lemma_numeral_injective(a: nat, b: nat)
    requires
        numeral(a) == numeral(b),
    ensures
        a == b,
    decreases a,
{
    lemma_numeral_len(a);
    lemma_numeral_len(b);
    if a < 10 && b < 10 {
        assert(numeral(a)[0] == digit_char(a));
        assert(numeral(b)[0] == digit_char(b));
    } else if a >= 10 && b >= 10 {
        let x = numeral(a / 10);
        let y = numeral(b / 10);
        assert(x.push(digit_char(a % 10)).drop_last() =~= x);
        assert(y.push(digit_char(b % 10)).drop_last() =~= y);
        assert(x.push(digit_char(a % 10)).last() == digit_char(a % 10));
        assert(y.push(digit_char(b % 10)).last() == digit_char(b % 10));
        lemma_numeral_injective(a / 10, b / 10);
    }
}

} // verus!
