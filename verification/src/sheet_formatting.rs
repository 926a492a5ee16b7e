//! The formats of a sheet: of the sheet as a whole, of its columns, of its
//! rows and of its cells. A narrower format goes before a wider one.

use crate::formats::{Format, FormatUpdate, Formats};
use crate::pos::Pos;
use crate::selection::Target;
use crate::sorted::{del, lemma_del, lemma_put, lemma_sorted_ext, put, sorted, Keyed};
use crate::store::{value_at, PosMap};
use vstd::prelude::*;

verus! {

/// Formats by position, as stored.
pub type FormatsView = Seq<(Pos, Format)>;

/// No entry holds the format without values.
pub open spec fn no_default(s: FormatsView) -> bool {
    forall|i: int| 0 <= i < s.len() ==> !(#[trigger] s[i]).1.spec_is_default()
}

/// The format stored at a position: the format without values where none is.
pub open spec fn stored(s: FormatsView, pos: Pos) -> Format {
    match value_at(s, pos) {
        Some(f) => f,
        None => Format::spec_default(),
    }
}

/// The store with a format at a position; the format without values is not
/// stored.
pub open spec fn keep(s: FormatsView, pos: Pos, f: Format) -> FormatsView {
    if f.spec_is_default() {
        del(s, pos)
    } else {
        put(s, (pos, f))
    }
}

/// The position at which the format of a column is stored.
pub open spec fn column_key(col: i64) -> Pos {
    Pos { x: col, y: 0 }
}

/// The position at which the format of a row is stored.
pub open spec fn row_key(row: i64) -> Pos {
    Pos { x: 0, y: row }
}

/// The mathematical content of a [`SheetFormatting`].
pub struct SheetFormattingView {
    pub all: Format,
    pub columns: FormatsView,
    pub rows: FormatsView,
    pub cells: FormatsView,
}

impl SheetFormattingView {
    pub open spec fn wf(self) -> bool {
        &&& sorted(self.columns)
        &&& sorted(self.rows)
        &&& sorted(self.cells)
        &&& no_default(self.columns)
        &&& no_default(self.rows)
        &&& no_default(self.cells)
    }

    /// No format at all.
    pub open spec fn empty() -> SheetFormattingView {
        SheetFormattingView {
            all: Format::spec_default(),
            columns: Seq::empty(),
            rows: Seq::empty(),
            cells: Seq::empty(),
        }
    }

    /// The format that is set for a target itself.
    pub open spec fn format_of(self, t: Target) -> Format {
        match t {
            Target::All => self.all,
            Target::Column(col) => stored(self.columns, column_key(col)),
            Target::Row(row) => stored(self.rows, row_key(row)),
            Target::Cell(pos) => stored(self.cells, pos),
        }
    }

    /// The formats with the format of one target set.
    pub open spec fn with_format(self, t: Target, f: Format) -> SheetFormattingView {
        match t {
            Target::All => SheetFormattingView { all: f, ..self },
            Target::Column(col) => SheetFormattingView {
                columns: keep(self.columns, column_key(col), f),
                ..self
            },
            Target::Row(row) => SheetFormattingView {
                rows: keep(self.rows, row_key(row), f),
                ..self
            },
            Target::Cell(pos) => SheetFormattingView { cells: keep(self.cells, pos, f), ..self },
        }
    }

    /// The format that a cell is shown in: for each attribute the value of
    /// the cell, else of its row, else of its column, else of the sheet.
    pub open spec fn effective(self, pos: Pos) -> Format {
        self.format_of(Target::Cell(pos)).over(
            self.format_of(Target::Row(pos.y)),
            self.format_of(Target::Column(pos.x)),
            self.all,
        )
    }
}

/// Keeping a format keeps the store canonical, and changes the format at
/// that position only.
pub proof fn lemma_keep(s: FormatsView, pos: Pos, f: Format)
    requires
        sorted(s),
        no_default(s),
    ensures
        sorted(keep(s, pos, f)),
        no_default(keep(s, pos, f)),
        stored(keep(s, pos, f), pos) == f,
        forall|p: Pos| p != pos ==> stored(keep(s, pos, f), p) == stored(s, p),
{
    let t = keep(s, pos, f);
    let r = crate::sorted::rank(s, pos);
    crate::sorted::lemma_rank(s, pos);
    if f.spec_is_default() {
        lemma_del(s, pos);
        assert forall|i: int| 0 <= i < t.len() implies !(#[trigger] t[i]).1.spec_is_default() by {
            if crate::sorted::contains_key(s, pos) {
                let si = if i < r { i } else { i + 1 };
                assert(t[i] == s[si]);
            }
        }
    } else {
        lemma_put(s, (pos, f));
        assert forall|i: int| 0 <= i < t.len() implies !(#[trigger] t[i]).1.spec_is_default() by {
            if crate::sorted::contains_key(s, pos) {
                if i != r {
                    assert(t[i] == s[i]);
                }
            } else {
                if i < r {
                    assert(t[i] == s[i]);
                } else if i > r {
                    assert(t[i] == s[i - 1]);
                }
            }
        }
    }
}

/// Two canonical stores that hold the same format at every position are
/// equal.
pub proof fn lemma_stores_ext(a: FormatsView, b: FormatsView)
    requires
        sorted(a),
        sorted(b),
        no_default(a),
        no_default(b),
        forall|p: Pos| stored(a, p) == stored(b, p),
    ensures
        a == b,
{
    assert forall|p: Pos| crate::sorted::lookup(a, p) == crate::sorted::lookup(b, p) by {
        crate::sorted::lemma_rank(a, p);
        crate::sorted::lemma_rank(b, p);
        assert(stored(a, p) == stored(b, p));
        let x = crate::sorted::lookup(a, p);
        let y = crate::sorted::lookup(b, p);
        if x is Some {
            assert(x.unwrap() == a[crate::sorted::rank(a, p)]);
            assert(x.unwrap().0 == p);
        }
        if y is Some {
            assert(y.unwrap() == b[crate::sorted::rank(b, p)]);
            assert(y.unwrap().0 == p);
        }
    }
    lemma_sorted_ext(a, b);
}

/// Setting the format of a target keeps the formats well-formed, and
/// changes the format of that target only.
pub proof fn lemma_with_format(v: SheetFormattingView, t: Target, f: Format)
    requires
        v.wf(),
    ensures
        v.with_format(t, f).wf(),
        v.with_format(t, f).format_of(t) == f,
        forall|other: Target|
            other != t ==> v.with_format(t, f).format_of(other) == v.format_of(other),
{
    match t {
        Target::All => {},
        Target::Column(col) => {
            lemma_keep(v.columns, column_key(col), f);
        },
        Target::Row(row) => {
            lemma_keep(v.rows, row_key(row), f);
        },
        Target::Cell(pos) => {
            lemma_keep(v.cells, pos, f);
        },
    }
}

/// Two well-formed formats of sheets that give every target the same format
/// are equal, if columns and rows are stored under their keys.
pub proof fn lemma_formatting_ext(a: SheetFormattingView, b: SheetFormattingView)
    requires
        a.wf(),
        b.wf(),
        a.keyed(),
        b.keyed(),
        forall|t: Target| a.format_of(t) == b.format_of(t),
    ensures
        a == b,
{
    assert(a.all == b.all) by {
        assert(a.format_of(Target::All) == b.format_of(Target::All));
    }
    assert forall|p: Pos| stored(a.cells, p) == stored(b.cells, p) by {
        assert(a.format_of(Target::Cell(p)) == b.format_of(Target::Cell(p)));
    }
    lemma_stores_ext(a.cells, b.cells);
    assert forall|p: Pos| stored(a.columns, p) == stored(b.columns, p) by {
        if p.y == 0 {
            assert(a.format_of(Target::Column(p.x)) == b.format_of(Target::Column(p.x)));
            assert(column_key(p.x) == p);
        } else {
            lemma_off_key(a.columns, p);
            lemma_off_key(b.columns, p);
        }
    }
    lemma_stores_ext(a.columns, b.columns);
    assert forall|p: Pos| stored(a.rows, p) == stored(b.rows, p) by {
        if p.x == 0 {
            assert(a.format_of(Target::Row(p.y)) == b.format_of(Target::Row(p.y)));
            assert(row_key(p.y) == p);
        } else {
            lemma_off_key(a.rows, p);
            lemma_off_key(b.rows, p);
        }
    }
    lemma_stores_ext(a.rows, b.rows);
}

/// A store holds nothing at a position that is none of its positions.
pub proof fn lemma_off_key(s: FormatsView, p: Pos)
    requires
        sorted(s),
        forall|i: int| 0 <= i < s.len() ==> (#[trigger] s[i]).0 != p,
    ensures
        stored(s, p) == Format::spec_default(),
{
    crate::sorted::lemma_rank(s, p);
}

impl SheetFormattingView {
    /// The formats of columns are stored under column keys, and those of
    /// rows under row keys.
    pub open spec fn keyed(self) -> bool {
        &&& forall|i: int| 0 <= i < self.columns.len() ==> (#[trigger] self.columns[i]).0.y == 0
        &&& forall|i: int| 0 <= i < self.rows.len() ==> (#[trigger] self.rows[i]).0.x == 0
    }
}

/// The positions of a store after a format is kept at `pos` are those of
/// before, and `pos`.
pub proof fn lemma_keep_keys(s: FormatsView, pos: Pos, f: Format)
    requires
        sorted(s),
    ensures
        forall|i: int|
            0 <= i < keep(s, pos, f).len() ==> (#[trigger] keep(s, pos, f)[i]).0 == pos || exists|
                j: int,
            | 0 <= j < s.len() && (#[trigger] s[j]).0 == keep(s, pos, f)[i].0,
{
    let t = keep(s, pos, f);
    let r = crate::sorted::rank(s, pos);
    crate::sorted::lemma_rank(s, pos);
    assert forall|i: int| 0 <= i < t.len() implies (#[trigger] t[i]).0 == pos || exists|j: int|
        0 <= j < s.len() && (#[trigger] s[j]).0 == t[i].0 by {
        if f.spec_is_default() {
            if crate::sorted::contains_key(s, pos) {
                let si = if i < r { i } else { i + 1 };
                assert(t[i] == s[si]);
            } else {
                assert(t[i] == s[i]);
            }
        } else if crate::sorted::contains_key(s, pos) {
            if i != r {
                assert(t[i] == s[i]);
            }
        } else {
            if i < r {
                assert(t[i] == s[i]);
            } else if i > r {
                assert(t[i] == s[i - 1]);
            }
        }
    }
}

/// Setting the format of a target keeps columns and rows under their keys.
pub proof fn lemma_with_format_keyed(v: SheetFormattingView, t: Target, f: Format)
    requires
        v.wf(),
        v.keyed(),
    ensures
        v.with_format(t, f).keyed(),
{
    match t {
        Target::Column(col) => {
            lemma_keep_keys(v.columns, column_key(col), f);
            let s = keep(v.columns, column_key(col), f);
            assert forall|i: int| 0 <= i < s.len() implies (#[trigger] s[i]).0.y == 0 by {
                if s[i].0 != column_key(col) {
                    let j = choose|j: int|
                        0 <= j < v.columns.len() && (#[trigger] v.columns[j]).0 == s[i].0;
                    assert(v.columns[j].0.y == 0);
                }
            }
        },
        Target::Row(row) => {
            lemma_keep_keys(v.rows, row_key(row), f);
            let s = keep(v.rows, row_key(row), f);
            assert forall|i: int| 0 <= i < s.len() implies (#[trigger] s[i]).0.x == 0 by {
                if s[i].0 != row_key(row) {
                    let j = choose|j: int|
                        0 <= j < v.rows.len() && (#[trigger] v.rows[j]).0 == s[i].0;
                    assert(v.rows[j].0.x == 0);
                }
            }
        },
        _ => {},
    }
}

/// One change after another, as one change.
pub open spec fn then(a: FormatUpdate, b: FormatUpdate) -> FormatUpdate {
    FormatUpdate {
        align: if b.align is Some { b.align } else { a.align },
        vertical_align: if b.vertical_align is Some { b.vertical_align } else { a.vertical_align },
        wrap: if b.wrap is Some { b.wrap } else { a.wrap },
        numeric_format: if b.numeric_format is Some { b.numeric_format } else { a.numeric_format },
        numeric_decimals: if b.numeric_decimals is Some {
            b.numeric_decimals
        } else {
            a.numeric_decimals
        },
        numeric_commas: if b.numeric_commas is Some { b.numeric_commas } else { a.numeric_commas },
        bold: if b.bold is Some { b.bold } else { a.bold },
        border_top: if b.border_top is Some { b.border_top } else { a.border_top },
        border_bottom: if b.border_bottom is Some { b.border_bottom } else { a.border_bottom },
        border_left: if b.border_left is Some { b.border_left } else { a.border_left },
        border_right: if b.border_right is Some { b.border_right } else { a.border_right },
        italic: if b.italic is Some { b.italic } else { a.italic },
        text_color: if b.text_color is Some { b.text_color } else { a.text_color },
        fill_color: if b.fill_color is Some { b.fill_color } else { a.fill_color },
        render_size: if b.render_size is Some { b.render_size } else { a.render_size },
    }
}

/// The change that changes nothing.
pub open spec fn no_change() -> FormatUpdate {
    FormatUpdate {
        align: None,
        vertical_align: None,
        wrap: None,
        numeric_format: None,
        numeric_decimals: None,
        numeric_commas: None,
        bold: None,
        border_top: None,
        border_bottom: None,
        border_left: None,
        border_right: None,
        italic: None,
        text_color: None,
        fill_color: None,
        render_size: None,
    }
}

/// What changes made one after another come to, and what restores them.
pub proof fn lemma_then(f: Format, o: Format, a: FormatUpdate, b: FormatUpdate)
    ensures
        f.applied(a).applied(b) == f.applied(then(a, b)),
        then(o.restoring(a), o.restoring(b)) == o.restoring(then(a, b)),
        f.applied(no_change()) == f,
        o.restoring(no_change()) == no_change(),
        o.applied(a).applied(o.restoring(a)) == o,
{
}

/// The formats after the first `k` targets were changed, each by its change.
pub open spec fn pass(
    v: SheetFormattingView,
    targets: Seq<Target>,
    updates: Seq<FormatUpdate>,
    k: int,
) -> SheetFormattingView
    decreases k,
{
    if k <= 0 || k > targets.len() || k > updates.len() {
        v
    } else {
        let prev = pass(v, targets, updates, k - 1);
        prev.with_format(
            targets[k - 1],
            prev.format_of(targets[k - 1]).applied(updates[k - 1]),
        )
    }
}

/// For each target the change that sets back, to what the formats `v` give
/// it, what its change changes.
pub open spec fn restores(v: SheetFormattingView, targets: Seq<Target>, updates: Seq<FormatUpdate>) -> Seq<
    FormatUpdate,
> {
    Seq::new(targets.len(), |i: int| v.format_of(targets[i]).restoring(updates[i]))
}

/// The changes that the first `k` changes make to one target, as one change.
pub open spec fn composed(
    t: Target,
    targets: Seq<Target>,
    updates: Seq<FormatUpdate>,
    k: int,
) -> FormatUpdate
    decreases k,
{
    if k <= 0 || k > targets.len() || k > updates.len() {
        no_change()
    } else if targets[k - 1] == t {
        then(composed(t, targets, updates, k - 1), updates[k - 1])
    } else {
        composed(t, targets, updates, k - 1)
    }
}

/// A pass keeps the formats well-formed, and gives each target its format
/// changed by all the changes made to it.
pub proof fn lemma_pass(
    v: SheetFormattingView,
    targets: Seq<Target>,
    updates: Seq<FormatUpdate>,
    k: int,
)
    requires
        v.wf(),
        v.keyed(),
        0 <= k <= targets.len(),
        k <= updates.len(),
    ensures
        pass(v, targets, updates, k).wf(),
        pass(v, targets, updates, k).keyed(),
        forall|t: Target|
            pass(v, targets, updates, k).format_of(t) == v.format_of(t).applied(
                composed(t, targets, updates, k),
            ),
    decreases k,
{
    if k == 0 {
        assert forall|t: Target|
            pass(v, targets, updates, k).format_of(t) == v.format_of(t).applied(
                composed(t, targets, updates, k),
            ) by {
            lemma_then(v.format_of(t), v.format_of(t), no_change(), no_change());
        }
    } else {
        lemma_pass(v, targets, updates, k - 1);
        let prev = pass(v, targets, updates, k - 1);
        let at = targets[k - 1];
        let f = prev.format_of(at).applied(updates[k - 1]);
        lemma_with_format(prev, at, f);
        lemma_with_format_keyed(prev, at, f);
        assert forall|t: Target|
            pass(v, targets, updates, k).format_of(t) == v.format_of(t).applied(
                composed(t, targets, updates, k),
            ) by {
            assert(pass(v, targets, updates, k) == prev.with_format(at, f));
            assert(prev.format_of(t) == v.format_of(t).applied(
                composed(t, targets, updates, k - 1),
            ));
            if t == at {
                lemma_then(
                    v.format_of(t),
                    v.format_of(t),
                    composed(t, targets, updates, k - 1),
                    updates[k - 1],
                );
                assert(prev.with_format(at, f).format_of(t) == f);
            } else {
                assert(prev.with_format(at, f).format_of(t) == prev.format_of(t));
                assert(composed(t, targets, updates, k) == composed(t, targets, updates, k - 1));
            }
        }
    }
}

/// The restoring changes for one target come to the change that restores
/// what all the changes made to it come to.
pub proof fn lemma_composed_restores(
    v: SheetFormattingView,
    t: Target,
    targets: Seq<Target>,
    updates: Seq<FormatUpdate>,
    k: int,
)
    requires
        0 <= k <= targets.len(),
        targets.len() == updates.len(),
    ensures
        composed(t, targets, restores(v, targets, updates), k) == v.format_of(t).restoring(
            composed(t, targets, updates, k),
        ),
    decreases k,
{
    if k == 0 {
        lemma_then(v.format_of(t), v.format_of(t), no_change(), no_change());
    } else {
        lemma_composed_restores(v, t, targets, updates, k - 1);
        if targets[k - 1] == t {
            lemma_then(
                v.format_of(t),
                v.format_of(t),
                composed(t, targets, updates, k - 1),
                updates[k - 1],
            );
        }
    }
}

/// A pass with the restoring changes undoes a pass.
pub proof fn lemma_pass_back(
    v: SheetFormattingView,
    targets: Seq<Target>,
    updates: Seq<FormatUpdate>,
)
    requires
        v.wf(),
        v.keyed(),
        targets.len() == updates.len(),
    ensures
        ({
            let n = targets.len() as int;
            let changed = pass(v, targets, updates, n);
            changed.wf() && changed.keyed() && pass(
                changed,
                targets,
                restores(v, targets, updates),
                n,
            ) == v
        }),
{
    let n = targets.len() as int;
    let changed = pass(v, targets, updates, n);
    let back = restores(v, targets, updates);
    lemma_pass(v, targets, updates, n);
    lemma_pass(changed, targets, back, n);
    let restored = pass(changed, targets, back, n);
    assert forall|t: Target| restored.format_of(t) == v.format_of(t) by {
        lemma_composed_restores(v, t, targets, updates, n);
        lemma_then(
            v.format_of(t),
            v.format_of(t),
            composed(t, targets, updates, n),
            composed(t, targets, updates, n),
        );
    }
    lemma_formatting_ext(restored, v);
}

/// The formats of a sheet.
#[derive(Debug, PartialEq)]
pub struct SheetFormatting {
    all: Format,
    columns: PosMap<Format>,
    rows: PosMap<Format>,
    cells: PosMap<Format>,
}

impl View for SheetFormatting {
    type V = SheetFormattingView;

    closed spec fn view(&self) -> SheetFormattingView {
        SheetFormattingView {
            all: self.all,
            columns: self.columns@,
            rows: self.rows@,
            cells: self.cells@,
        }
    }
}

/// Copies a store of formats.
pub fn clone_formats(formats: &PosMap<Format>) -> (r: PosMap<Format>)
    ensures
        r@ == formats@,
{
    formats.note_sorted();
    let mut r: PosMap<Format> = PosMap::new();
    let mut i: usize = 0;
    while i < formats.len()
        invariant
            i <= formats@.len(),
            sorted(formats@),
            r@ == formats@.take(i as int),
        decreases formats@.len() - i,
    {
        assert forall|j: int| 0 <= j < r@.len() implies (#[trigger] r@[j]).0.precedes(
            formats@[i as int].0,
        ) by {
            assert(<(Pos, Format) as Keyed>::key_lt(formats@[j].key(), formats@[i as int].key()));
        }
        r.push_last(formats.pos_at(i), formats.value_at_index(i).clone());
        assert(r@ =~= formats@.take(i + 1));
        i = i + 1;
    }
    assert(formats@.take(formats@.len() as int) =~= formats@);
    r
}

fn stored_format(store: &PosMap<Format>, pos: Pos) -> (r: Format)
    ensures
        r == stored(store@, pos),
{
    match store.get(pos) {
        Some(f) => f.clone(),
        None => Format::default(),
    }
}

fn keep_format(store: &mut PosMap<Format>, pos: Pos, f: Format)
    ensures
        final(store)@ == keep(old(store)@, pos, f),
{
    if f.is_default() {
        store.remove(pos);
    } else {
        store.set(pos, f);
    }
}

impl SheetFormatting {
    #[verifier::type_invariant]
    closed spec fn inv(&self) -> bool {
        &&& no_default(self.columns@)
        &&& no_default(self.rows@)
        &&& no_default(self.cells@)
        &&& self@.keyed()
    }

    /// Recalls that the formats are well-formed.
    pub fn note_wf(&self)
        ensures
            self@.wf(),
            self@.keyed(),
    {
        proof {
            use_type_invariant(self);
        }
        self.columns.note_sorted();
        self.rows.note_sorted();
        self.cells.note_sorted();
    }

    /// No format at all.
    pub fn new() -> (r: SheetFormatting)
        ensures
            r@ == SheetFormattingView::empty(),
    {
        SheetFormatting {
            all: Format::default(),
            columns: PosMap::new(),
            rows: PosMap::new(),
            cells: PosMap::new(),
        }
    }

    /// The format that is set for a target itself.
    pub fn get(&self, t: Target) -> (r: Format)
        ensures
            r == self@.format_of(t),
    {
        match t {
            Target::All => self.all.clone(),
            Target::Column(col) => stored_format(&self.columns, Pos { x: col, y: 0 }),
            Target::Row(row) => stored_format(&self.rows, Pos { x: 0, y: row }),
            Target::Cell(pos) => stored_format(&self.cells, pos),
        }
    }

    /// Sets the format of a target.
    pub fn set(&mut self, t: Target, f: Format)
        ensures
            final(self)@ == old(self)@.with_format(t, f),
    {
        self.note_wf();
        proof {
            use_type_invariant(&*self);
            lemma_with_format(self@, t, f);
            lemma_with_format_keyed(self@, t, f);
        }
        let mut taken = SheetFormatting::new();
        std::mem::swap(self, &mut taken);
        let SheetFormatting { all, columns, rows, cells } = taken;
        let mut all = all;
        let mut columns = columns;
        let mut rows = rows;
        let mut cells = cells;
        match t {
            Target::All => {
                all = f;
            },
            Target::Column(col) => {
                keep_format(&mut columns, Pos { x: col, y: 0 }, f);
            },
            Target::Row(row) => {
                keep_format(&mut rows, Pos { x: 0, y: row }, f);
            },
            Target::Cell(pos) => {
                keep_format(&mut cells, pos, f);
            },
        }
        *self = SheetFormatting { all, columns, rows, cells };
    }

    /// The format that a cell is shown in.
    pub fn effective(&self, pos: Pos) -> (r: Format)
        ensures
            r == self@.effective(pos),
    {
        let cell = self.get(Target::Cell(pos));
        let row = self.get(Target::Row(pos.y));
        let column = self.get(Target::Column(pos.x));
        cell.combine(&row, &column, &self.all)
    }

    /// The number of cells that have a format of their own.
    pub fn cell_count(&self) -> (n: usize)
        ensures
            n == self@.cells.len(),
    {
        self.cells.len()
    }

    /// The position of the `i`-th cell that has a format of its own.
    pub fn cell_pos_at(&self, i: usize) -> (p: Pos)
        requires
            i < self@.cells.len(),
        ensures
            p == self@.cells[i as int].0,
    {
        self.cells.pos_at(i)
    }

    /// The format of the `i`-th cell that has a format of its own.
    pub fn cell_format_at(&self, i: usize) -> (f: &Format)
        requires
            i < self@.cells.len(),
        ensures
            *f == self@.cells[i as int].1,
    {
        self.cells.value_at_index(i)
    }

    /// Changes the format of each target by its change, and gives back the
    /// changes that restore the formats. Nothing is changed, and nothing
    /// given back, unless there is one change for each target.
    pub fn update(&mut self, targets: &Vec<Target>, updates: &Formats) -> (r: Option<Formats>)
        ensures
            targets@.len() == updates@.len() ==> r is Some && r.unwrap()@ == restores(
                old(self)@,
                targets@,
                updates@,
            ) && final(self)@ == pass(old(self)@, targets@, updates@, targets@.len() as int),
            targets@.len() != updates@.len() ==> r is None && final(self)@ == old(self)@,
    {
        let n: usize = targets.len();
        if updates.size() != n {
            return None;
        }
        let ghost start = self@;
        // First ask what restores each target.
        let mut back = Formats::new();
        let mut k: usize = 0;
        while k < n
            invariant
                k <= n,
                n == targets@.len(),
                n == updates@.len(),
                self@ == start,
                back@ == Seq::new(
                    k as nat,
                    |i: int| start.format_of(targets@[i]).restoring(updates@[i]),
                ),
            decreases n - k,
        {
            let change = updates.get_at(k).unwrap();
            let undo = self.get(targets[k]).restore(change);
            back.push_n(undo, 1);
            k = k + 1;
            assert(back@ =~= Seq::new(
                k as nat,
                |i: int| start.format_of(targets@[i]).restoring(updates@[i]),
            ));
        }
        assert(back@ =~= restores(start, targets@, updates@));
        // Then change them.
        let mut k: usize = 0;
        while k < n
            invariant
                k <= n,
                n == targets@.len(),
                n == updates@.len(),
                self@ == pass(start, targets@, updates@, k as int),
            decreases n - k,
        {
            let change = updates.get_at(k).unwrap();
            let f = self.get(targets[k]).apply(change);
            self.set(targets[k], f);
            k = k + 1;
        }
        Some(back)
    }
}

impl Clone for SheetFormatting {
    fn clone(&self) -> (r: SheetFormatting)
        ensures
            r@ == self@,
    {
        proof {
            use_type_invariant(self);
        }
        SheetFormatting {
            all: self.all.clone(),
            columns: clone_formats(&self.columns),
            rows: clone_formats(&self.rows),
            cells: clone_formats(&self.cells),
        }
    }
}

} // verus!
