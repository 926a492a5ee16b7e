//! Run-length encoded sequences: a sequence of values, held as runs of
//! repeated values.

use vstd::prelude::*;

verus! {

/// The sequence that a list of runs stands for.
pub open spec fn expand<T>(runs: Seq<(T, usize)>) -> Seq<T>
    decreases runs.len(),
{
    if runs.len() == 0 {
        Seq::empty()
    } else {
        expand(runs.drop_last()) + Seq::new(runs.last().1 as nat, |i: int| runs.last().0)
    }
}

/// The number of values that a list of runs stands for.
pub open spec fn total<T>(runs: Seq<(T, usize)>) -> nat
    decreases runs.len(),
{
    if runs.len() == 0 {
        0
    } else {
        total(runs.drop_last()) + runs.last().1 as nat
    }
}

pub proof fn lemma_expand_len<T>(runs: Seq<(T, usize)>)
    ensures
        expand(runs).len() == total(runs),
    decreases runs.len(),
{
    if runs.len() > 0 {
        lemma_expand_len(runs.drop_last());
    }
}

/// A sequence of values, held as runs. No run is empty.
#[derive(Debug, PartialEq, Eq)]
pub struct RunLengthEncoding<T> {
    runs: Vec<(T, usize)>,
    len: usize,
}

impl<T> View for RunLengthEncoding<T> {
    type V = Seq<T>;

    closed spec fn view(&self) -> Seq<T> {
        expand(self.runs@)
    }
}

impl<T> RunLengthEncoding<T> {
    #[verifier::type_invariant]
    closed spec fn inv(&self) -> bool {
        &&& self.len == total(self.runs@)
        &&& forall|i: int| 0 <= i < self.runs@.len() ==> (#[trigger] self.runs@[i]).1 >= 1
    }

    /// The empty sequence.
    pub fn new() -> (r: Self)
        ensures
            r@ == Seq::<T>::empty(),
    {
        RunLengthEncoding { runs: Vec::new(), len: 0 }
    }

    /// The number of values.
    pub fn size(&self) -> (n: usize)
        ensures
            n == self@.len(),
    {
        proof {
            use_type_invariant(self);
            lemma_expand_len(self.runs@);
        }
        self.len
    }

    pub fn is_empty(&self) -> (r: bool)
        ensures
            r == (self@.len() == 0),
    {
        self.size() == 0
    }

    /// The number of runs.
    pub fn run_count(&self) -> (n: usize)
        ensures
            n == self.spec_runs().len(),
    {
        self.runs.len()
    }

    /// The runs: each a value and the number of times it is repeated.
    pub closed spec fn spec_runs(&self) -> Seq<(T, usize)> {
        self.runs@
    }

    /// The sequence is what its runs stand for.
    pub proof fn lemma_runs(&self)
        ensures
            self@ == expand(self.spec_runs()),
    {
    }

    /// The `k`-th run: its value and the number of times it is repeated.
    pub fn run(&self, k: usize) -> (r: (&T, usize))
        requires
            k < self.spec_runs().len(),
        ensures
            *r.0 == self.spec_runs()[k as int].0,
            r.1 == self.spec_runs()[k as int].1,
            r.1 >= 1,
    {
        proof {
            use_type_invariant(self);
        }
        (&self.runs[k].0, self.runs[k].1)
    }

    /// Adds `n` times the same value to the end. The sequence may not grow
    /// longer than a `usize` counts.
    pub fn push_n(&mut self, value: T, n: usize)
        requires
            old(self)@.len() + n <= usize::MAX,
        ensures
            final(self)@ == old(self)@ + Seq::new(n as nat, |i: int| value),
    {
        proof {
            use_type_invariant(&*self);
            lemma_expand_len(self.runs@);
        }
        if n == 0 {
            assert(self@ + Seq::new(0, |i: int| value) =~= self@);
            return ;
        }
        let ghost before = self.runs@;
        let mut taken: RunLengthEncoding<T> = RunLengthEncoding::new();
        std::mem::swap(self, &mut taken);
        let RunLengthEncoding { runs, len } = taken;
        let mut runs = runs;
        runs.push((value, n));
        assert(runs@.drop_last() =~= before);
        *self = RunLengthEncoding { runs, len: len + n };
    }

    /// Adds one value to the end.
    pub fn push(&mut self, value: T)
        requires
            old(self)@.len() + 1 <= usize::MAX,
        ensures
            final(self)@ == old(self)@.push(value),
    {
        self.push_n(value, 1);
        assert(Seq::new(1, |i: int| value) =~= seq![value]);
        assert(old(self)@ + seq![value] =~= old(self)@.push(value));
    }

    /// The value at an index, if the sequence is that long.
    pub fn get_at(&self, index: usize) -> (r: Option<&T>)
        ensures
            index < self@.len() ==> r == Some(&self@[index as int]),
            index >= self@.len() ==> r is None,
    {
        proof {
            use_type_invariant(self);
            lemma_expand_len(self.runs@);
        }
        if index >= self.len {
            return None;
        }
        let mut k: usize = 0;
        let mut passed: usize = 0;
        proof {
            assert(self.runs@.take(0) =~= Seq::<(T, usize)>::empty());
        }
        while k < self.runs.len()
            invariant
                k <= self.runs@.len(),
                passed == expand(self.runs@.take(k as int)).len(),
                passed <= index,
                index < self.len,
                self.len == expand(self.runs@).len(),
            decreases self.runs@.len() - k,
        {
            let run = &self.runs[k];
            proof {
                lemma_expand_take(self.runs@, k as int);
            }
            if index - passed < run.1 {
                return Some(&run.0);
            }
            passed = passed + run.1;
            k = k + 1;
        }
        proof {
            assert(self.runs@.take(self.runs@.len() as int) =~= self.runs@);
        }
        None
    }
}

impl<T: Clone> Clone for RunLengthEncoding<T> {
    /// A sequence in runs of the same lengths, the value of each run a
    /// clone of the value of the run that it is made from.
    fn clone(&self) -> (r: Self)
        ensures
            r@.len() == self@.len(),
            r.spec_runs().len() == self.spec_runs().len(),
            forall|i: int|
                0 <= i < self.spec_runs().len() ==> (#[trigger] r.spec_runs()[i]).1
                    == self.spec_runs()[i].1 && cloned(self.spec_runs()[i].0, r.spec_runs()[i].0),
    {
        proof {
            use_type_invariant(self);
            lemma_expand_len(self.runs@);
        }
        let mut runs: Vec<(T, usize)> = Vec::new();
        let mut k: usize = 0;
        proof {
            assert(self.runs@.take(0) =~= Seq::<(T, usize)>::empty());
        }
        while k < self.runs.len()
            invariant
                k <= self.runs@.len(),
                runs@.len() == k,
                total(runs@) == total(self.runs@.take(k as int)),
                forall|i: int| 0 <= i < k ==> (#[trigger] runs@[i]).1 >= 1,
                forall|i: int|
                    0 <= i < k ==> (#[trigger] runs@[i]).1 == self.runs@[i].1 && cloned(
                        self.runs@[i].0,
                        runs@[i].0,
                    ),
                forall|i: int| 0 <= i < self.runs@.len() ==> (#[trigger] self.runs@[i]).1 >= 1,
            decreases self.runs@.len() - k,
        {
            let ghost before = runs@;
            let value = self.runs[k].0.clone();
            runs.push((value, self.runs[k].1));
            proof {
                assert(runs@.drop_last() =~= before);
                assert(self.runs@.take(k + 1).drop_last() =~= self.runs@.take(k as int));
                assert(self.runs@.take(k + 1).last() == self.runs@[k as int]);
            }
            k = k + 1;
        }
        proof {
            assert(self.runs@.take(self.runs@.len() as int) =~= self.runs@);
            lemma_expand_len(runs@);
        }
        RunLengthEncoding { runs, len: self.len }
    }
}

/// The sequence of the first `k + 1` runs is that of the first `k` followed
/// by the values of one more run, and it starts the whole sequence.
pub proof fn lemma_expand_take<T>(runs: Seq<(T, usize)>, k: int)
    requires
        0 <= k < runs.len(),
    ensures
        expand(runs.take(k + 1)) == expand(runs.take(k)) + Seq::new(
            runs[k].1 as nat,
            |i: int| runs[k].0,
        ),
        expand(runs.take(k + 1)).len() <= expand(runs).len(),
        forall|i: int|
            0 <= i < expand(runs.take(k + 1)).len() ==> expand(runs.take(k + 1))[i] == expand(
                runs,
            )[i],
{
    assert(runs.take(k + 1).drop_last() =~= runs.take(k));
    assert(runs.take(k + 1).last() == runs[k]);
    lemma_expand_prefix(runs, k + 1);
}

/// The sequence of the first `k` runs starts the whole sequence.
pub proof fn lemma_expand_prefix<T>(runs: Seq<(T, usize)>, k: int)
    requires
        0 <= k <= runs.len(),
    ensures
        expand(runs.take(k)).len() <= expand(runs).len(),
        forall|i: int|
            0 <= i < expand(runs.take(k)).len() ==> expand(runs.take(k))[i] == expand(runs)[i],
    decreases runs.len() - k,
{
    if k == runs.len() {
        assert(runs.take(k) =~= runs);
    } else {
        lemma_expand_prefix(runs, k + 1);
        assert(runs.take(k + 1).drop_last() =~= runs.take(k));
    }
}

} // verus!
