//! The collection of sheets, in tab order.
//!
//! Sheets are kept sorted by their order key, and by identity where two keys
//! are equal, so that the same set of sheets is always the same sequence.

use crate::pos::SheetId;
use crate::sheet::{Sheet, SheetView};
use crate::sorted::{
    contains_key, del, is_rank, lemma_del, lemma_del_after_put, lemma_put, lemma_put_after_del,
    lemma_rank, lemma_rank_of_element, lemma_rank_sorted, lemma_rank_unique, put, rank, sorted,
    Keyed,
};
use crate::text::{lex_lt, str_eq, str_lt};
use vstd::prelude::*;

verus! {

/// What sheets are sorted by: the order key, then the identity.
pub struct SheetKey {
    pub order: Seq<char>,
    pub id: u64,
}

impl Keyed for SheetView {
    type Key = SheetKey;

    open spec fn key(self) -> SheetKey {
        SheetKey { order: self.order, id: self.id.id }
    }

    open spec fn key_lt(a: SheetKey, b: SheetKey) -> bool {
        lex_lt(a.order, b.order) || (a.order == b.order && a.id < b.id)
    }

    proof fn lemma_key_order(a: SheetKey, b: SheetKey, c: SheetKey) {
        crate::text::lemma_lex_irreflexive(a.order);
        crate::text::lemma_lex_total(a.order, b.order);
        if Self::key_lt(a, b) && Self::key_lt(b, c) {
            if lex_lt(a.order, b.order) && lex_lt(b.order, c.order) {
                crate::text::lemma_lex_transitive(a.order, b.order, c.order);
            }
        }
    }
}

/// The sheets of a grid, in tab order.
pub type GridView = Seq<SheetView>;

/// No two sheets have the same identity.
pub open spec fn distinct_ids(g: GridView) -> bool {
    forall|i: int, j: int| 0 <= i < j < g.len() ==> (#[trigger] g[i]).id != (#[trigger] g[j]).id
}

/// The grid is in canonical form, and so is each sheet.
pub open spec fn grid_wf(g: GridView) -> bool {
    &&& sorted(g)
    &&& distinct_ids(g)
    &&& forall|i: int| 0 <= i < g.len() ==> (#[trigger] g[i]).wf()
}

/// The index of the sheet with identity `id`, or the number of sheets if
/// there is none.
pub open spec fn position(g: GridView, id: SheetId) -> int
    decreases g.len(),
{
    if g.len() == 0 || g[0].id == id {
        0
    } else {
        1 + position(g.skip(1), id)
    }
}

pub open spec fn has_sheet(g: GridView, id: SheetId) -> bool {
    position(g, id) < g.len()
}

/// The sheet with identity `id` (where the grid has one).
pub open spec fn sheet_of(g: GridView, id: SheetId) -> SheetView {
    g[position(g, id)]
}

/// The grid without the sheet of identity `id`.
pub open spec fn without(g: GridView, id: SheetId) -> GridView {
    if has_sheet(g, id) {
        g.remove(position(g, id))
    } else {
        g
    }
}

/// The grid with `s` in place of the sheet that has its identity, or added.
/// The sheet stands where its order key puts it.
pub open spec fn with_sheet(g: GridView, s: SheetView) -> GridView {
    put(without(g, s.id), s)
}

/// The identity of the first sheet in tab order.
pub open spec fn first_id(g: GridView) -> Option<SheetId> {
    if g.len() > 0 {
        Some(g[0].id)
    } else {
        None
    }
}

/// The order key of the sheet that follows the sheet `id` in tab order.
pub open spec fn next_order(g: GridView, id: SheetId) -> Option<Seq<char>> {
    if position(g, id) + 1 < g.len() {
        Some(g[position(g, id) + 1].order)
    } else {
        None
    }
}

/// The order key of the sheet before the sheet `id` in tab order.
pub open spec fn previous_order(g: GridView, id: SheetId) -> Option<Seq<char>> {
    if 0 < position(g, id) < g.len() {
        Some(g[position(g, id) - 1].order)
    } else {
        None
    }
}

/// The order key behind the last sheet.
pub open spec fn end_order(g: GridView) -> Seq<char> {
    if g.len() == 0 {
        match crate::order::spec_key_between(None, None) {
            Some(k) => k,
            None => "a0"@,
        }
    } else {
        match crate::order::spec_key_between(Some(g.last().order), None) {
            Some(k) => k,
            None => g.last().order,
        }
    }
}

/// No two sheets have the same name.
pub open spec fn distinct_names(g: GridView) -> bool {
    forall|i: int, j: int|
        0 <= i < j < g.len() ==> (#[trigger] g[i]).name != (#[trigger] g[j]).name
}

/// The names of the sheets, in tab order.
pub open spec fn names(g: GridView) -> Seq<Seq<char>> {
    Seq::new(g.len(), |i: int| g[i].name)
}

pub open spec fn is_position(g: GridView, id: SheetId, p: int) -> bool {
    &&& 0 <= p <= g.len()
    &&& forall|i: int| 0 <= i < p ==> (#[trigger] g[i]).id != id
    &&& (p < g.len() ==> g[p].id == id)
}

pub proof fn lemma_position(g: GridView, id: SheetId)
    ensures
        is_position(g, id, position(g, id)),
    decreases g.len(),
{
    if g.len() == 0 || g[0].id == id {
    } else {
        let t = g.skip(1);
        lemma_position(t, id);
        let p = position(t, id);
        assert forall|i: int| 0 <= i < p + 1 implies (#[trigger] g[i]).id != id by {
            if i > 0 {
                assert(t[i - 1] == g[i]);
            }
        }
        if p + 1 < g.len() {
            assert(t[p] == g[p + 1]);
        }
    }
}

pub proof fn lemma_position_unique(g: GridView, id: SheetId, p: int)
    requires
        is_position(g, id, p),
    ensures
        position(g, id) == p,
{
    lemma_position(g, id);
    let q = position(g, id);
    if q < p {
        assert(g[q].id != id);
    } else if p < q {
        assert(g[p].id != id);
    }
}

/// In a well-formed grid a sheet is found at its index by identity and by
/// key alike.
pub proof fn lemma_position_of_sheet(g: GridView, i: int)
    requires
        grid_wf(g),
        0 <= i < g.len(),
    ensures
        position(g, g[i].id) == i,
        rank(g, g[i].key()) == i,
        has_sheet(g, g[i].id),
        without(g, g[i].id) == g.remove(i),
        without(g, g[i].id) == del(g, g[i].key()),
{
    assert forall|j: int| 0 <= j < i implies (#[trigger] g[j]).id != g[i].id by {}
    lemma_position_unique(g, g[i].id, i);
    lemma_rank_of_element(g, i);
}

/// Taking a sheet out keeps the grid well-formed and leaves no sheet of that
/// identity.
pub proof fn lemma_without(g: GridView, id: SheetId)
    requires
        grid_wf(g),
    ensures
        grid_wf(without(g, id)),
        !has_sheet(without(g, id), id),
        forall|other: SheetId|
            other != id ==> has_sheet(without(g, id), other) == has_sheet(g, other) && (has_sheet(
                g,
                other,
            ) ==> sheet_of(without(g, id), other) == sheet_of(g, other)),
        without(g, id).len() == if has_sheet(g, id) { g.len() - 1 } else { g.len() as int },
{
    lemma_position(g, id);
    let p = position(g, id);
    let t = without(g, id);
    if has_sheet(g, id) {
        lemma_position_of_sheet(g, p);
        lemma_del(g, g[p].key());
        assert forall|i: int, j: int| 0 <= i < j < t.len() implies (#[trigger] t[i]).id != (
        #[trigger] t[j]).id by {
            let si = if i < p { i } else { i + 1 };
            let sj = if j < p { j } else { j + 1 };
            assert(t[i] == g[si] && t[j] == g[sj]);
        }
        assert forall|i: int| 0 <= i < t.len() implies (#[trigger] t[i]).wf() && t[i].id != id by {
            let si = if i < p { i } else { i + 1 };
            assert(t[i] == g[si]);
            if si > p {
                assert(g[p].id != g[si].id);
            }
        }
        lemma_position_unique(t, id, t.len() as int);
        assert forall|other: SheetId| other != id implies has_sheet(t, other) == has_sheet(g, other)
            && (has_sheet(g, other) ==> sheet_of(t, other) == sheet_of(g, other)) by {
            lemma_position(g, other);
            let q = position(g, other);
            let tq = if q < p { q } else { q - 1 };
            assert forall|i: int| 0 <= i < tq implies (#[trigger] t[i]).id != other by {
                let si = if i < p { i } else { i + 1 };
                assert(t[i] == g[si]);
            }
            if q < g.len() {
                assert(t[tq] == g[q]);
            }
            lemma_position_unique(t, other, tq);
        }
    } else {
        lemma_position_unique(t, id, t.len() as int);
    }
}

/// Putting a sheet in keeps the grid well-formed; the sheet is then found
/// by its identity, and the other sheets are found as before.
pub proof fn lemma_with_sheet(g: GridView, s: SheetView)
    requires
        grid_wf(g),
        s.wf(),
    ensures
        grid_wf(with_sheet(g, s)),
        has_sheet(with_sheet(g, s), s.id),
        sheet_of(with_sheet(g, s), s.id) == s,
        forall|other: SheetId|
            other != s.id ==> has_sheet(with_sheet(g, s), other) == has_sheet(g, other) && (
            has_sheet(g, other) ==> sheet_of(with_sheet(g, s), other) == sheet_of(g, other)),
        with_sheet(g, s).len() == if has_sheet(g, s.id) {
            g.len() as int
        } else {
            g.len() as int + 1
        },
        !has_sheet(g, s.id) ==> without(with_sheet(g, s), s.id) == g,
        without(with_sheet(g, s), s.id) == without(g, s.id),
        !has_sheet(g, s.id) ==> with_sheet(g, s) == g.insert(rank(g, s.key()), s),
{
    lemma_without(g, s.id);
    let u = without(g, s.id);
    lemma_position(u, s.id);
    // No sheet of `u` has the key of `s`, since none has its identity.
    lemma_rank(u, s.key());
    let r = rank(u, s.key());
    if contains_key(u, s.key()) {
        assert(u[r].id == s.id);
    }
    lemma_put(u, s);
    lemma_del_after_put(u, s);
    let t = with_sheet(g, s);
    assert(t =~= u.insert(r, s));
    assert forall|i: int, j: int|
        0 <= i < j < t.len() implies (#[trigger] t[i]).id != (#[trigger] t[j]).id by {
        let ui = if i < r { i } else { i - 1 };
        let uj = if j < r { j } else { j - 1 };
        if i != r {
            assert(t[i] == u[ui]);
        }
        if j != r {
            assert(t[j] == u[uj]);
        }
    }
    assert forall|i: int| 0 <= i < t.len() implies (#[trigger] t[i]).wf() by {
        let ui = if i < r { i } else { i - 1 };
        if i != r {
            assert(t[i] == u[ui]);
        }
    }
    assert forall|i: int| 0 <= i < r implies (#[trigger] t[i]).id != s.id by {
        assert(t[i] == u[i]);
    }
    lemma_position_unique(t, s.id, r);
    assert(t.remove(r) =~= u);
    assert forall|other: SheetId| other != s.id implies has_sheet(t, other) == has_sheet(u, other)
        && (has_sheet(u, other) ==> sheet_of(t, other) == sheet_of(u, other)) by {
        lemma_position(u, other);
        let q = position(u, other);
        let tq = if q < r { q } else { q + 1 };
        assert forall|i: int| 0 <= i < tq implies (#[trigger] t[i]).id != other by {
            let ui = if i < r { i } else { i - 1 };
            if i != r {
                assert(t[i] == u[ui]);
            }
        }
        if q < u.len() {
            assert(t[tq] == u[q]);
        }
        lemma_position_unique(t, other, tq);
    }
}

/// Putting a sheet in makes the grid one sheet longer, unless it takes the
/// place of a sheet.
pub proof fn lemma_with_sheet_len(g: GridView)
    requires
        grid_wf(g),
    ensures
        forall|s: SheetView|
            (#[trigger] with_sheet(g, s)).len() == if has_sheet(g, s.id) {
                g.len() as int
            } else {
                g.len() as int + 1
            },
{
    assert forall|s: SheetView|
        (#[trigger] with_sheet(g, s)).len() == if has_sheet(g, s.id) {
            g.len() as int
        } else {
            g.len() as int + 1
        } by {
        lemma_without(g, s.id);
        let u = without(g, s.id);
        lemma_position(u, s.id);
        lemma_rank(u, s.key());
        if contains_key(u, s.key()) {
            assert(u[rank(u, s.key())].id == s.id);
        }
    }
}

/// Putting back a sheet that was taken out restores the grid.
pub proof fn lemma_restore_sheet(g: GridView, id: SheetId)
    requires
        grid_wf(g),
        has_sheet(g, id),
    ensures
        with_sheet(without(g, id), sheet_of(g, id)) == g,
        with_sheet(g, sheet_of(g, id)) == g,
{
    lemma_position(g, id);
    let p = position(g, id);
    lemma_position_of_sheet(g, p);
    lemma_without(g, id);
    lemma_position(without(g, id), id);
    lemma_put_after_del(g, p);
}

/// The identity `k` steps from `base`.
pub open spec fn nth_id(base: nat, k: nat) -> SheetId {
    SheetId { id: (base + k) as u64 }
}

/// The number of steps from `base` to the first identity, from `base + k`
/// on, that no sheet has.
pub open spec fn first_unused(g: GridView, base: nat, k: nat) -> nat
    decreases g.len() + 1 - k,
{
    if k > g.len() || !has_sheet(g, nth_id(base, k)) {
        k
    } else {
        first_unused(g, base, k + 1)
    }
}

/// Where the search for an unused identity starts: at `start`, or at 0 where
/// the identities from `start` on might run out.
pub open spec fn search_base(g: GridView, start: u64) -> nat {
    if start + g.len() <= u64::MAX {
        start as nat
    } else {
        0
    }
}

/// An identity that no sheet has: the first one from `start` on, as a rule.
pub open spec fn unused_id(g: GridView, start: u64) -> SheetId {
    nth_id(search_base(g, start), first_unused(g, search_base(g, start), 0))
}

pub proof fn lemma_first_unused(g: GridView, base: nat, k: nat, hits: Set<int>)
    requires
        base + g.len() <= u64::MAX,
        hits.finite(),
        hits.len() == k,
        hits.subset_of(vstd::set_lib::set_int_range(0, g.len() as int)),
        forall|j: int| #[trigger]
            hits.contains(j) ==> exists|m: nat| m < k && g[j].id == #[trigger] nth_id(base, m),
    ensures
        k <= first_unused(g, base, k) <= g.len(),
        !has_sheet(g, nth_id(base, first_unused(g, base, k))),
        forall|m: nat|
            k <= m < first_unused(g, base, k) ==> has_sheet(g, #[trigger] nth_id(base, m)),
    decreases g.len() + 1 - k,
{
    vstd::set_lib::lemma_int_range(0, g.len() as int);
    vstd::set_lib::lemma_len_subset(hits, vstd::set_lib::set_int_range(0, g.len() as int));
    let id = nth_id(base, k);
    if has_sheet(g, id) {
        lemma_position(g, id);
        let j = position(g, id);
        if hits.contains(j) {
            let m = choose|m: nat| m < k && g[j].id == #[trigger] nth_id(base, m);
            assert(false);
        }
        let more = hits.insert(j);
        assert forall|i: int| #[trigger] more.contains(i) implies exists|m: nat|
            m < k + 1 && g[i].id == #[trigger] nth_id(base, m) by {
            if i == j {
                assert(k < k + 1 && g[i].id == nth_id(base, k));
            } else {
                let m = choose|m: nat| m < k && g[i].id == #[trigger] nth_id(base, m);
                assert(m < k + 1 && g[i].id == nth_id(base, m));
            }
        }
        vstd::set_lib::lemma_len_subset(more, vstd::set_lib::set_int_range(0, g.len() as int));
        lemma_first_unused(g, base, k + 1, more);
    }
}

/// The unused identity is indeed one that no sheet has.
pub proof fn lemma_unused_id(g: GridView, start: u64)
    requires
        g.len() <= u64::MAX,
    ensures
        !has_sheet(g, unused_id(g, start)),
        search_base(g, start) + g.len() <= u64::MAX,
        first_unused(g, search_base(g, start), 0) <= g.len(),
        forall|m: nat|
            m < first_unused(g, search_base(g, start), 0) ==> has_sheet(
                g,
                #[trigger] nth_id(search_base(g, start), m),
            ),
{
    vstd::set_lib::lemma_int_range(0, g.len() as int);
    lemma_first_unused(g, search_base(g, start), 0, Set::empty());
}

/// The sheets.
#[derive(Debug, PartialEq)]
pub struct Grid {
    sheets: Vec<Sheet>,
}

impl View for Grid {
    type V = GridView;

    closed spec fn view(&self) -> GridView {
        self.sheets.deep_view()
    }
}

/// Whether `a` stands before `b` in tab order.
fn sheet_before(a: &Sheet, b: &Sheet) -> (r: bool)
    ensures
        r == SheetView::key_lt(a@.key(), b@.key()),
{
    if str_lt(a.order().as_str(), b.order().as_str()) {
        true
    } else {
        str_eq(a.order().as_str(), b.order().as_str()) && a.id().id < b.id().id
    }
}

impl Grid {
    #[verifier::type_invariant]
    closed spec fn inv(&self) -> bool {
        grid_wf(self.sheets.deep_view())
    }

    /// Recalls that the grid is well-formed.
    pub fn note_wf(&self)
        ensures
            grid_wf(self@),
    {
        proof {
            use_type_invariant(self);
        }
    }

    /// A grid without sheets.
    pub fn new() -> (r: Grid)
        ensures
            r@ == Seq::<SheetView>::empty(),
    {
        let r = Grid { sheets: Vec::new() };
        assert(r.sheets.deep_view() =~= Seq::<SheetView>::empty());
        r
    }

    /// The sheets in tab order.
    pub fn sheets(&self) -> (r: &Vec<Sheet>)
        ensures
            r.deep_view() == self@,
    {
        &self.sheets
    }

    /// The number of sheets.
    pub fn len(&self) -> (n: usize)
        ensures
            n == self@.len(),
    {
        self.sheets.len()
    }

    /// The index of the sheet with identity `id`, or the number of sheets.
    pub fn index_of(&self, id: SheetId) -> (i: usize)
        ensures
            i == position(self@, id),
    {
        let mut i: usize = 0;
        while i < self.sheets.len() && self.sheets[i].id() != id
            invariant
                i <= self.sheets@.len(),
                self@.len() == self.sheets@.len(),
                forall|j: int| 0 <= j < i ==> (#[trigger] self@[j]).id != id,
            decreases self.sheets@.len() - i,
        {
            i = i + 1;
        }
        proof {
            lemma_position_unique(self@, id, i as int);
        }
        i
    }

    /// The sheet with identity `id`.
    pub fn try_sheet(&self, id: SheetId) -> (r: Option<&Sheet>)
        ensures
            r.is_some() == has_sheet(self@, id),
            r matches Some(s) ==> s@ == sheet_of(self@, id),
    {
        let i = self.index_of(id);
        if i < self.sheets.len() {
            Some(&self.sheets[i])
        } else {
            None
        }
    }

    /// The identities of the sheets in tab order.
    pub fn sheet_ids(&self) -> (r: Vec<SheetId>)
        ensures
            r@ == Seq::new(self@.len(), |i: int| self@[i].id),
    {
        let mut r: Vec<SheetId> = Vec::new();
        let mut i: usize = 0;
        while i < self.sheets.len()
            invariant
                i <= self.sheets@.len(),
                self@.len() == self.sheets@.len(),
                r@ == Seq::new(i as nat, |j: int| self@[j].id),
            decreases self.sheets@.len() - i,
        {
            r.push(self.sheets[i].id());
            assert(r@ =~= Seq::new((i + 1) as nat, |j: int| self@[j].id));
            i = i + 1;
        }
        r
    }

    /// The identity of the first sheet in tab order.
    pub fn first_sheet_id(&self) -> (r: Option<SheetId>)
        ensures
            r == first_id(self@),
    {
        if self.sheets.len() > 0 {
            Some(self.sheets[0].id())
        } else {
            None
        }
    }

    /// The sheet that follows the sheet `id` in tab order.
    pub fn next_sheet(&self, id: SheetId) -> (r: Option<&Sheet>)
        ensures
            r.is_some() == (position(self@, id) + 1 < self@.len()),
            r matches Some(s) ==> s@ == self@[position(self@, id) + 1],
            (match r {
                Some(s) => Some(s@.order),
                None => None,
            }) == next_order(self@, id),
    {
        let i = self.index_of(id);
        if i < self.sheets.len() && i + 1 < self.sheets.len() {
            Some(&self.sheets[i + 1])
        } else {
            None
        }
    }

    /// An identity that no sheet of the grid has: the first one from `start`
    /// on, as a rule.
    pub fn unused_id(&self, start: u64) -> (r: SheetId)
        ensures
            r == unused_id(self@, start),
            !has_sheet(self@, r),
    {
        let n: usize = self.sheets.len();
        proof {
            lemma_unused_id(self@, start);
        }
        let base: u64 = if start as u128 + n as u128 <= u64::MAX as u128 {
            start
        } else {
            0
        };
        let ghost f = first_unused(self@, base as nat, 0);
        let mut k: u64 = 0;
        loop
            invariant
                n == self@.len(),
                base == search_base(self@, start),
                base + n <= u64::MAX,
                f == first_unused(self@, base as nat, 0),
                k <= f <= n,
                !has_sheet(self@, nth_id(base as nat, f)),
                forall|m: nat| m < f ==> has_sheet(self@, #[trigger] nth_id(base as nat, m)),
            decreases n + 1 - k,
        {
            let id = SheetId { id: base + k };
            assert(id == nth_id(base as nat, k as nat));
            if self.index_of(id) >= n {
                return id;
            }
            k = k + 1;
        }
    }

    /// The order key behind the last sheet: a key after the last sheet's,
    /// or that key itself where no key is given after it.
    pub fn end_order(&self) -> (r: String)
        ensures
            r@ == end_order(self@),
    {
        let n: usize = self.sheets.len();
        if n == 0 {
            match crate::order::key_between(&None, &None) {
                Some(k) => k,
                None => String::from_str("a0"),
            }
        } else {
            let last = self.sheets[n - 1].order().clone();
            let bound = Some(last);
            match crate::order::key_between(&bound, &None) {
                Some(k) => k,
                None => bound.unwrap(),
            }
        }
    }

    /// The order key of the sheet before the sheet `id` in tab order.
    pub fn previous_sheet_order(&self, id: SheetId) -> (r: Option<String>)
        ensures
            r.deep_view() == previous_order(self@, id),
    {
        let i = self.index_of(id);
        if i > 0 && i < self.sheets.len() {
            Some(self.sheets[i - 1].order().clone())
        } else {
            None
        }
    }

    /// Takes the sheet with identity `id` out of the grid.
    pub fn remove_sheet(&mut self, id: SheetId) -> (r: Option<Sheet>)
        ensures
            final(self)@ == without(old(self)@, id),
            r.is_some() == has_sheet(old(self)@, id),
            r matches Some(s) ==> s@ == sheet_of(old(self)@, id),
    {
        proof {
            use_type_invariant(&*self);
            lemma_without(self@, id);
        }
        let i = self.index_of(id);
        if i < self.sheets.len() {
            let ghost before = self@;
            let mut sheets: Vec<Sheet> = Vec::new();
            assert(sheets.deep_view() =~= Seq::<SheetView>::empty());
            std::mem::swap(&mut self.sheets, &mut sheets);
            let s = sheets.remove(i);
            assert(sheets.deep_view() =~= before.remove(i as int));
            self.sheets = sheets;
            Some(s)
        } else {
            None
        }
    }

    /// Gives the sheet with identity `id` another order key, which moves it
    /// to where the key puts it, and gives back the old key. Nothing happens
    /// where the grid has no such sheet.
    pub fn move_sheet(&mut self, id: SheetId, order: String) -> (r: Option<String>)
        ensures
            r is Some == has_sheet(old(self)@, id),
            r matches Some(before) ==> before@ == sheet_of(old(self)@, id).order,
            final(self)@ == if has_sheet(old(self)@, id) {
                with_sheet(old(self)@, sheet_of(old(self)@, id).with_order(order@))
            } else {
                old(self)@
            },
    {
        self.note_wf();
        proof {
            lemma_without(self@, id);
            lemma_position(self@, id);
        }
        match self.remove_sheet(id) {
            Some(sheet) => {
                let mut sheet = sheet;
                let before = sheet.set_order(order);
                self.add_sheet(sheet);
                Some(before)
            },
            None => None,
        }
    }

    /// Puts a sheet into the grid, in the place of the sheet that had its
    /// identity if there was one. It stands where its order key puts it.
    pub fn add_sheet(&mut self, sheet: Sheet)
        ensures
            final(self)@ == with_sheet(old(self)@, sheet@),
    {
        proof {
            use_type_invariant(&*self);
            lemma_without(self@, sheet@.id);
        }
        sheet.note_wf();
        let _ = self.remove_sheet(sheet.id());
        proof {
            use_type_invariant(&*self);
            lemma_put(self@, sheet@);
            lemma_with_sheet(old(self)@, sheet@);
        }
        let ghost before = self@;
        let mut i: usize = 0;
        while i < self.sheets.len() && sheet_before(&self.sheets[i], &sheet)
            invariant
                i <= self.sheets@.len(),
                self@ == before,
                self@.len() == self.sheets@.len(),
                forall|j: int|
                    0 <= j < i ==> SheetView::key_lt((#[trigger] self@[j]).key(), sheet@.key()),
            decreases self.sheets@.len() - i,
        {
            i = i + 1;
        }
        proof {
            lemma_rank_unique(before, sheet@.key(), i as int);
            lemma_position(before, sheet@.id);
            if contains_key(before, sheet@.key()) {
                assert(before[i as int].id == sheet@.id);
            }
        }
        let mut sheets: Vec<Sheet> = Vec::new();
        assert(sheets.deep_view() =~= Seq::<SheetView>::empty());
        std::mem::swap(&mut self.sheets, &mut sheets);
        sheets.insert(i, sheet);
        assert(sheets.deep_view() =~= before.insert(i as int, sheet@));
        self.sheets = sheets;
    }
}

} // verus!
