//! A store of values by cell position, kept sorted by position.

use crate::pos::Pos;
use crate::sorted::{
    contains_key, del, is_rank, lemma_del, lemma_put, lemma_rank_sorted, lemma_rank_unique, lookup,
    put, rank, sorted, Keyed,
};
use vstd::prelude::*;

verus! {

impl<T> Keyed for (Pos, T) {
    type Key = Pos;

    open spec fn key(self) -> Pos {
        self.0
    }

    open spec fn key_lt(a: Pos, b: Pos) -> bool {
        a.precedes(b)
    }

    proof fn lemma_key_order(a: Pos, b: Pos, c: Pos) {
    }
}

/// The value that a sorted sequence of entries holds at a position.
pub open spec fn value_at<T>(s: Seq<(Pos, T)>, pos: Pos) -> Option<T> {
    match lookup(s, pos) {
        Some(e) => Some(e.1),
        None => None,
    }
}

/// One value at one position.
#[derive(Debug, PartialEq)]
pub struct Entry<V> {
    pub pos: Pos,
    pub value: V,
}

/// Values by position. No position occurs twice, and the entries stand in
/// the order of their positions.
#[derive(Debug, PartialEq)]
pub struct PosMap<V: DeepView> {
    entries: Vec<Entry<V>>,
}

impl<V: DeepView> View for PosMap<V> {
    type V = Seq<(Pos, V::V)>;

    closed spec fn view(&self) -> Seq<(Pos, V::V)> {
        Seq::new(
            self.entries@.len(),
            |i: int| (self.entries@[i].pos, self.entries@[i].value.deep_view()),
        )
    }
}

impl<V: DeepView> DeepView for PosMap<V> {
    type V = Seq<(Pos, V::V)>;

    open spec fn deep_view(&self) -> Seq<(Pos, V::V)> {
        self@
    }
}

impl<V: DeepView> PosMap<V> {
    #[verifier::type_invariant]
    closed spec fn inv(&self) -> bool {
        sorted(self@)
    }

    /// Recalls that the entries are sorted by position.
    pub fn note_sorted(&self)
        ensures
            sorted(self@),
    {
        proof {
            use_type_invariant(self);
        }
    }

    pub fn new() -> (r: Self)
        ensures
            r@ == Seq::<(Pos, V::V)>::empty(),
    {
        let r = PosMap { entries: Vec::new() };
        assert(r@ =~= Seq::<(Pos, V::V)>::empty());
        r
    }

    /// The number of entries.
    pub fn len(&self) -> (n: usize)
        ensures
            n == self@.len(),
    {
        self.entries.len()
    }

    /// The position of the `i`-th entry.
    pub fn pos_at(&self, i: usize) -> (p: Pos)
        requires
            i < self@.len(),
        ensures
            p == self@[i as int].0,
    {
        self.entries[i].pos
    }

    /// The value of the `i`-th entry.
    pub fn value_at_index(&self, i: usize) -> (v: &V)
        requires
            i < self@.len(),
        ensures
            v.deep_view() == self@[i as int].1,
    {
        &self.entries[i].value
    }

    /// The place of `pos`: the index of its entry, or where one would go.
    fn find(&self, pos: Pos) -> (i: usize)
        ensures
            i as int == rank(self@, pos),
            i <= self@.len(),
            i <= self.entries@.len(),
    {
        let mut i: usize = 0;
        while i < self.entries.len() && self.entries[i].pos.is_before(&pos)
            invariant
                i <= self.entries@.len(),
                self@.len() == self.entries@.len(),
                forall|j: int| 0 <= j < i ==> (#[trigger] self@[j]).0.precedes(pos),
            decreases self.entries@.len() - i,
        {
            i = i + 1;
        }
        proof {
            assert(is_rank(self@, pos, i as int)) by {
                assert forall|j: int| 0 <= j < i implies <(Pos, V::V) as Keyed>::key_lt(
                    (#[trigger] self@[j]).key(),
                    pos,
                ) by {
                    assert(self@[j].0.precedes(pos));
                }
                if i < self@.len() {
                    assert(self@[i as int].0 == self.entries@[i as int].pos);
                }
            }
            lemma_rank_unique(self@, pos, i as int);
        }
        i
    }

    /// Whether a value is held at `pos`.
    pub fn contains(&self, pos: Pos) -> (r: bool)
        ensures
            r == contains_key(self@, pos),
            r == value_at(self@, pos).is_some(),
    {
        let i = self.find(pos);
        i < self.entries.len() && self.entries[i].pos == pos
    }

    /// The value held at `pos`.
    pub fn get(&self, pos: Pos) -> (r: Option<&V>)
        ensures
            r.deep_view() == value_at(self@, pos),
    {
        let i = self.find(pos);
        if i < self.entries.len() && self.entries[i].pos == pos {
            Some(&self.entries[i].value)
        } else {
            None
        }
    }

    /// Holds `value` at `pos` from now on, and gives back what was held there.
    pub fn set(&mut self, pos: Pos, value: V) -> (r: Option<V>)
        ensures
            final(self)@ == put(old(self)@, (pos, value.deep_view())),
            r.deep_view() == value_at(old(self)@, pos),
    {
        proof {
            use_type_invariant(&*self);
            lemma_put(self@, (pos, value.deep_view()));
        }
        let i = self.find(pos);
        let ghost before = self@;
        let ghost e = (pos, value.deep_view());
        let found = i < self.entries.len() && self.entries[i].pos == pos;
        let mut entries: Vec<Entry<V>> = Vec::new();
        assert(sorted(Seq::<(Pos, V::V)>::empty()));
        std::mem::swap(&mut self.entries, &mut entries);
        let r = if found {
            let old_entry = entries.remove(i);
            Some(old_entry.value)
        } else {
            None
        };
        entries.insert(i, Entry { pos, value });
        proof {
            let after = Seq::new(entries@.len(), |j: int| (entries@[j].pos, entries@[j].value.deep_view()));
            if found {
                assert(after =~= before.update(i as int, e));
            } else {
                assert(after =~= before.insert(i as int, e));
            }
        }
        self.entries = entries;
        r
    }

    /// Adds an entry behind all others; its position must come after theirs.
    pub fn push_last(&mut self, pos: Pos, value: V)
        requires
            forall|i: int| 0 <= i < old(self)@.len() ==> (#[trigger] old(self)@[i]).0.precedes(pos),
        ensures
            final(self)@ == old(self)@.push((pos, value.deep_view())),
    {
        proof {
            use_type_invariant(&*self);
        }
        let ghost before = self@;
        let ghost e = (pos, value.deep_view());
        let mut entries: Vec<Entry<V>> = Vec::new();
        assert(sorted(Seq::<(Pos, V::V)>::empty()));
        std::mem::swap(&mut self.entries, &mut entries);
        entries.push(Entry { pos, value });
        proof {
            let after = Seq::new(entries@.len(), |j: int| (entries@[j].pos, entries@[j].value.deep_view()));
            assert(after =~= before.push(e));
            assert forall|i: int, j: int|
                0 <= i < j < after.len() implies <(Pos, V::V) as Keyed>::key_lt(
                #[trigger] after[i].key(),
                #[trigger] after[j].key(),
            ) by {
                if j < before.len() {
                    assert(<(Pos, V::V) as Keyed>::key_lt(before[i].key(), before[j].key()));
                } else {
                    assert(before[i].0.precedes(pos));
                }
            }
        }
        self.entries = entries;
    }

    /// Holds nothing at `pos` from now on, and gives back what was held there.
    pub fn remove(&mut self, pos: Pos) -> (r: Option<V>)
        ensures
            final(self)@ == del(old(self)@, pos),
            r.deep_view() == value_at(old(self)@, pos),
    {
        proof {
            use_type_invariant(&*self);
            lemma_del(self@, pos);
        }
        let i = self.find(pos);
        let ghost before = self@;
        if i < self.entries.len() && self.entries[i].pos == pos {
            let mut entries: Vec<Entry<V>> = Vec::new();
            assert(sorted(Seq::<(Pos, V::V)>::empty()));
            std::mem::swap(&mut self.entries, &mut entries);
            let old_entry = entries.remove(i);
            proof {
                let after = Seq::new(entries@.len(), |j: int| (entries@[j].pos, entries@[j].value.deep_view()));
                assert(after =~= before.remove(i as int));
            }
            self.entries = entries;
            Some(old_entry.value)
        } else {
            None
        }
    }
}

} // verus!
