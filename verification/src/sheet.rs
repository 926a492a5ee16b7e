//! A sheet: its identity and labels, its cell values and its code runs.

use crate::pos::{Pos, Rect, SheetId};
use crate::formats::Formats;
use crate::selection::Target;
use crate::sheet_formatting::{pass, restores, SheetFormatting, SheetFormattingView};
use crate::sorted::{del, lemma_del, lemma_put, lemma_sorted_ext, put, sorted, Keyed};
use crate::store::{value_at, PosMap};
use crate::values::{
    clone_values, lemma_area_fits, CellValue, CellValueView, CellValues, CellValuesView, CodeRun,
    CodeRunResultView, CodeRunView,
};
use vstd::prelude::*;

verus! {

/// The stored values of a sheet, by position.
pub type CellsView = Seq<(Pos, CellValueView)>;

/// The code runs of a sheet, by the position of their code cell.
pub type RunsView = Seq<(Pos, CodeRunView)>;

/// The mathematical content of a [`Sheet`].
pub struct SheetView {
    pub id: SheetId,
    pub name: Seq<char>,
    pub color: Option<Seq<char>>,
    pub order: Seq<char>,
    pub cells: CellsView,
    pub code_runs: RunsView,
    pub formats: SheetFormattingView,
}

/// No entry holds a blank.
pub open spec fn no_blank(cells: CellsView) -> bool {
    forall|i: int| 0 <= i < cells.len() ==> !((#[trigger] cells[i]).1 is Blank)
}

/// The value of a cell: what is stored at the position, or a blank.
pub open spec fn read(cells: CellsView, pos: Pos) -> CellValueView {
    match value_at(cells, pos) {
        Some(v) => v,
        None => CellValueView::Blank,
    }
}

/// The cells after one is written: a blank clears it.
pub open spec fn write(cells: CellsView, pos: Pos, v: CellValueView) -> CellsView {
    if v is Blank {
        del(cells, pos)
    } else {
        put(cells, (pos, v))
    }
}

/// A block of the given size can be laid out from `origin` without leaving
/// the grid of positions: the far corner of its rectangle is a position. A
/// block without cells fits too, wherever that corner is one.
pub open spec fn block_fits(origin: Pos, w: u32, h: u32) -> bool {
    &&& i64::MIN <= origin.x + w - 1 <= i64::MAX
    &&& i64::MIN <= origin.y + h - 1 <= i64::MAX
}

/// The rectangle that a block covers. That of a block without cells holds
/// no position: its far corner lies before the origin.
pub open spec fn block_rect(origin: Pos, w: u32, h: u32) -> Rect {
    Rect { min: origin, max: Pos { x: (origin.x + w - 1) as i64, y: (origin.y + h - 1) as i64 } }
}

/// The position of the `k`-th cell of a block, counting row by row.
pub open spec fn cell_pos(origin: Pos, w: u32, k: int) -> Pos {
    Pos { x: (origin.x + k % (w as int)) as i64, y: (origin.y + k / (w as int)) as i64 }
}

/// The cells after the first `k` values of a block are written from `origin`.
pub open spec fn merge(cells: CellsView, origin: Pos, block: CellValuesView, k: int) -> CellsView
    decreases k,
{
    if k <= 0 {
        cells
    } else {
        write(
            merge(cells, origin, block, k - 1),
            cell_pos(origin, block.w, k - 1),
            block.values[k - 1],
        )
    }
}

/// The values that the cells of a block's rectangle hold, blanks included.
pub open spec fn prior(cells: CellsView, origin: Pos, w: u32, h: u32) -> CellValuesView {
    CellValuesView {
        w,
        h,
        values: Seq::new((w * h) as nat, |k: int| read(cells, cell_pos(origin, w, k))),
    }
}

impl SheetView {
    /// The stores are in canonical form.
    pub open spec fn wf(self) -> bool {
        &&& sorted(self.cells)
        &&& sorted(self.code_runs)
        &&& no_blank(self.cells)
        &&& self.formats.wf()
        &&& self.formats.keyed()
    }

    /// A sheet without content.
    pub open spec fn empty(id: SheetId, name: Seq<char>, order: Seq<char>) -> SheetView {
        SheetView {
            id,
            name,
            color: None,
            order,
            cells: Seq::empty(),
            code_runs: Seq::empty(),
            formats: SheetFormattingView::empty(),
        }
    }

    pub open spec fn with_formats(self, formats: SheetFormattingView) -> SheetView {
        SheetView { formats, ..self }
    }

    pub open spec fn with_cells(self, cells: CellsView) -> SheetView {
        SheetView { cells, ..self }
    }

    pub open spec fn with_code_runs(self, code_runs: RunsView) -> SheetView {
        SheetView { code_runs, ..self }
    }

    pub open spec fn with_name(self, name: Seq<char>) -> SheetView {
        SheetView { name, ..self }
    }

    pub open spec fn with_color(self, color: Option<Seq<char>>) -> SheetView {
        SheetView { color, ..self }
    }

    pub open spec fn with_order(self, order: Seq<char>) -> SheetView {
        SheetView { order, ..self }
    }

    pub open spec fn with_id(self, id: SheetId) -> SheetView {
        SheetView { id, ..self }
    }

    /// The run of the code cell at `pos`.
    pub open spec fn run_at(self, pos: Pos) -> Option<CodeRunView> {
        value_at(self.code_runs, pos)
    }

    /// The sheet with the run of the code cell at `pos` set, or removed.
    pub open spec fn set_run(self, pos: Pos, run: Option<CodeRunView>) -> SheetView {
        match run {
            Some(r) => self.with_code_runs(put(self.code_runs, (pos, r))),
            None => self.with_code_runs(del(self.code_runs, pos)),
        }
    }
}

/// The rectangle that the output of a run takes up, from its code cell to the
/// right and down. It ends at the edge of the grid where it would go past.
pub open spec fn output_rect(pos: Pos, run: CodeRunView) -> Rect {
    Rect {
        min: pos,
        max: Pos {
            x: if pos.x + run.output_w() - 1 > i64::MAX {
                i64::MAX
            } else {
                (pos.x + run.output_w() - 1) as i64
            },
            y: if pos.y + run.output_h() - 1 > i64::MAX {
                i64::MAX
            } else {
                (pos.y + run.output_h() - 1) as i64
            },
        },
    }
}

/// The value that a run shows at `pos`, a cell of its output: none for an
/// error, for a run that does not show, and for a blank.
pub open spec fn output_value(at: Pos, run: CodeRunView, pos: Pos) -> Option<CellValueView> {
    match run.result {
        CodeRunResultView::Values(v) => {
            let dx = pos.x - at.x;
            let dy = pos.y - at.y;
            if !run.spill_error && 0 <= dx < v.w && 0 <= dy < v.h && v.wf() && !(v.at(dx, dy) is Blank) {
                Some(v.at(dx, dy))
            } else {
                None
            }
        },
        CodeRunResultView::Failed(_) => None,
    }
}

/// The value that the runs from the `from`-th on show at `pos`: that of the
/// first of them whose output covers the cell.
pub open spec fn run_output_at(runs: RunsView, pos: Pos, from: int) -> Option<CellValueView>
    decreases runs.len() - from,
{
    if from < 0 || from >= runs.len() {
        None
    } else if output_rect(runs[from].0, runs[from].1).spec_contains(pos) {
        output_value(runs[from].0, runs[from].1, pos)
    } else {
        run_output_at(runs, pos, from + 1)
    }
}

/// What a cell shows: its stored value, or for a code cell and for an empty
/// cell the output of a run that covers it. `None` where it shows nothing.
pub open spec fn spec_display_value(sheet: SheetView, pos: Pos) -> Option<CellValueView> {
    match value_at(sheet.cells, pos) {
        Some(CellValueView::Code(_)) => run_output_at(sheet.code_runs, pos, 0),
        Some(v) => Some(v),
        None => run_output_at(sheet.code_runs, pos, 0),
    }
}

/// Writing a cell keeps the store canonical, and changes that cell only.
pub proof fn lemma_write(cells: CellsView, pos: Pos, v: CellValueView)
    requires
        sorted(cells),
        no_blank(cells),
    ensures
        sorted(write(cells, pos, v)),
        no_blank(write(cells, pos, v)),
        read(write(cells, pos, v), pos) == v,
        forall|p: Pos| p != pos ==> read(write(cells, pos, v), p) == read(cells, p),
        forall|p: Pos| p != pos ==> value_at(write(cells, pos, v), p) == value_at(cells, p),
{
    let t = write(cells, pos, v);
    let r = crate::sorted::rank(cells, pos);
    crate::sorted::lemma_rank(cells, pos);
    if v is Blank {
        lemma_del(cells, pos);
        assert forall|i: int| 0 <= i < t.len() implies !((#[trigger] t[i]).1 is Blank) by {
            if crate::sorted::contains_key(cells, pos) {
                let si = if i < r { i } else { i + 1 };
                assert(t[i] == cells[si]);
            }
        }
    } else {
        lemma_put(cells, (pos, v));
        assert forall|i: int| 0 <= i < t.len() implies !((#[trigger] t[i]).1 is Blank) by {
            if crate::sorted::contains_key(cells, pos) {
                if i != r {
                    assert(t[i] == cells[i]);
                }
            } else {
                if i < r {
                    assert(t[i] == cells[i]);
                } else if i > r {
                    assert(t[i] == cells[i - 1]);
                }
            }
        }
    }
}

/// Two canonical stores in which every cell reads alike are equal.
pub proof fn lemma_cells_ext(a: CellsView, b: CellsView)
    requires
        sorted(a),
        sorted(b),
        no_blank(a),
        no_blank(b),
        forall|p: Pos| read(a, p) == read(b, p),
    ensures
        a == b,
{
    assert forall|p: Pos| crate::sorted::lookup(a, p) == crate::sorted::lookup(b, p) by {
        crate::sorted::lemma_rank(a, p);
        crate::sorted::lemma_rank(b, p);
        assert(read(a, p) == read(b, p));
        let x = crate::sorted::lookup(a, p);
        let y = crate::sorted::lookup(b, p);
        if x is Some {
            assert(x.unwrap() == a[crate::sorted::rank(a, p)]);
            assert(!(x.unwrap().1 is Blank));
            assert(x.unwrap().0 == p);
        }
        if y is Some {
            assert(y.unwrap() == b[crate::sorted::rank(b, p)]);
            assert(!(y.unwrap().1 is Blank));
            assert(y.unwrap().0 == p);
        }
        if x is Some && y is Some {
            assert(x.unwrap().1 == y.unwrap().1);
            assert(x.unwrap() == y.unwrap());
        }
    }
    lemma_sorted_ext(a, b);
}

/// The cells of a block lie in its rectangle, each at a position of its own,
/// and every position of the rectangle is one of them.
pub proof fn lemma_cell_pos(origin: Pos, w: u32, h: u32)
    requires
        block_fits(origin, w, h),
    ensures
        forall|k: int|
            0 <= k < w * h ==> block_rect(origin, w, h).spec_contains(
                #[trigger] cell_pos(origin, w, k),
            ),
        forall|k: int, j: int|
            0 <= k < w * h && 0 <= j < w * h && k != j ==> #[trigger] cell_pos(origin, w, k)
                != #[trigger] cell_pos(origin, w, j),
        forall|p: Pos|
            block_rect(origin, w, h).spec_contains(p) ==> {
                let k = (p.y - origin.y) * w + (p.x - origin.x);
                0 <= k < w * h && cell_pos(origin, w, k) == p
            },
{
    let wi = w as int;
    let hi = h as int;
    assert forall|k: int| 0 <= k < w * h implies block_rect(origin, w, h).spec_contains(
        #[trigger] cell_pos(origin, w, k),
    ) by {
        lemma_row_and_column(k, wi, hi);
    }
    assert forall|k: int, j: int|
        0 <= k < w * h && 0 <= j < w * h && k != j implies #[trigger] cell_pos(
        origin,
        w,
        k,
    ) != #[trigger] cell_pos(origin, w, j) by {
        lemma_row_and_column(k, wi, hi);
        lemma_row_and_column(j, wi, hi);
    }
    assert forall|p: Pos| block_rect(origin, w, h).spec_contains(p) implies {
        let k = (p.y - origin.y) * w + (p.x - origin.x);
        0 <= k < w * h && cell_pos(origin, w, k) == p
    } by {
        lemma_area_fits(p.x - origin.x, p.y - origin.y, wi, hi);
    }
}

/// The row and the column of the `k`-th cell of a block.
pub proof fn lemma_row_and_column(k: int, w: int, h: int)
    requires
        0 <= k < w * h,
        w >= 1,
        h >= 1,
    ensures
        0 <= k % w < w,
        0 <= k / w < h,
        k == (k / w) * w + k % w,
{
    assert(0 <= k % w < w && 0 <= k / w < h && k == (k / w) * w + k % w) by (nonlinear_arith)
        requires
            0 <= k < w * h,
            w >= 1,
            h >= 1,
    ;
}

/// What a cell reads after the first `k` values of a block are written: the
/// block's value where the cell is one of those `k`, and what it read before
/// elsewhere. The store stays canonical.
pub proof fn lemma_merge(cells: CellsView, origin: Pos, block: CellValuesView, k: int)
    requires
        sorted(cells),
        no_blank(cells),
        block.wf(),
        block_fits(origin, block.w, block.h),
        0 <= k <= block.w * block.h,
    ensures
        sorted(merge(cells, origin, block, k)),
        no_blank(merge(cells, origin, block, k)),
        forall|j: int|
            0 <= j < k ==> read(merge(cells, origin, block, k), #[trigger] cell_pos(origin, block.w, j))
                == block.values[j],
        forall|p: Pos|
            (forall|j: int| 0 <= j < k ==> #[trigger] cell_pos(origin, block.w, j) != p) ==> read(
                merge(cells, origin, block, k),
                p,
            ) == read(cells, p),
    decreases k,
{
    if k > 0 {
        lemma_merge(cells, origin, block, k - 1);
        let m = merge(cells, origin, block, k - 1);
        let pk = cell_pos(origin, block.w, k - 1);
        lemma_write(m, pk, block.values[k - 1]);
        lemma_cell_pos(origin, block.w, block.h);
        let t = merge(cells, origin, block, k);
        assert forall|j: int| 0 <= j < k implies read(t, #[trigger] cell_pos(origin, block.w, j))
            == block.values[j] by {
            if j < k - 1 {
                assert(cell_pos(origin, block.w, j) != pk);
            }
        }
        assert forall|p: Pos|
            (forall|j: int|
                0 <= j < k ==> #[trigger] cell_pos(origin, block.w, j) != p) implies read(
            t,
            p,
        ) == read(cells, p) by {
            assert(cell_pos(origin, block.w, k - 1) != p);
        }
    }
}

/// Writing back the values that a block replaced restores the cells.
pub proof fn lemma_merge_prior(cells: CellsView, origin: Pos, block: CellValuesView)
    requires
        sorted(cells),
        no_blank(cells),
        block.wf(),
        block_fits(origin, block.w, block.h),
    ensures
        ({
            let n = block.w * block.h;
            let merged = merge(cells, origin, block, n);
            let before = prior(cells, origin, block.w, block.h);
            &&& before.wf()
            &&& merge(merged, origin, before, n) == cells
            &&& prior(merged, origin, block.w, block.h) == block
        }),
{
    let n = block.w * block.h;
    let merged = merge(cells, origin, block, n);
    let before = prior(cells, origin, block.w, block.h);
    lemma_merge(cells, origin, block, n);
    lemma_merge(merged, origin, before, n);
    lemma_cell_pos(origin, block.w, block.h);
    let back = merge(merged, origin, before, n);
    assert forall|p: Pos| read(back, p) == read(cells, p) by {
        if block_rect(origin, block.w, block.h).spec_contains(p) {
            let k = (p.y - origin.y) * block.w + (p.x - origin.x);
            assert(cell_pos(origin, block.w, k) == p);
            assert(before.values[k] == read(cells, p));
        } else {
            assert(forall|j: int| 0 <= j < n ==> #[trigger] cell_pos(origin, block.w, j) != p);
        }
    }
    lemma_cells_ext(back, cells);
    assert(prior(merged, origin, block.w, block.h).values =~= block.values);
}

/// A sheet.
#[derive(Debug, PartialEq)]
pub struct Sheet {
    id: SheetId,
    name: String,
    color: Option<String>,
    order: String,
    cells: PosMap<CellValue>,
    code_runs: PosMap<CodeRun>,
    formatting: SheetFormatting,
}

impl View for Sheet {
    type V = SheetView;

    closed spec fn view(&self) -> SheetView {
        SheetView {
            id: self.id,
            name: self.name@,
            color: self.color.deep_view(),
            order: self.order@,
            cells: self.cells@,
            code_runs: self.code_runs@,
            formats: self.formatting@,
        }
    }
}

impl DeepView for Sheet {
    type V = SheetView;

    open spec fn deep_view(&self) -> SheetView {
        self@
    }
}

/// Copies an optional string.
pub fn clone_option_string(s: &Option<String>) -> (r: Option<String>)
    ensures
        r.deep_view() == s.deep_view(),
{
    match s {
        Some(t) => Some(t.clone()),
        None => None,
    }
}

impl Sheet {
    #[verifier::type_invariant]
    closed spec fn inv(&self) -> bool {
        no_blank(self.cells@)
    }

    /// Recalls that the stores of a sheet are canonical.
    pub fn note_wf(&self)
        ensures
            self@.wf(),
    {
        proof {
            use_type_invariant(self);
        }
        self.cells.note_sorted();
        self.code_runs.note_sorted();
        self.formatting.note_wf();
    }

    /// A sheet without content.
    pub fn new(id: SheetId, name: String, order: String) -> (r: Sheet)
        ensures
            r@ == SheetView::empty(id, name@, order@),
    {
        Sheet {
            id,
            name,
            color: None,
            order,
            cells: PosMap::new(),
            code_runs: PosMap::new(),
            formatting: SheetFormatting::new(),
        }
    }

    pub fn id(&self) -> (r: SheetId)
        ensures
            r == self@.id,
    {
        self.id
    }

    pub fn name(&self) -> (r: &String)
        ensures
            r@ == self@.name,
    {
        &self.name
    }

    pub fn color(&self) -> (r: &Option<String>)
        ensures
            r.deep_view() == self@.color,
    {
        &self.color
    }

    pub fn order(&self) -> (r: &String)
        ensures
            r@ == self@.order,
    {
        &self.order
    }

    /// Renames the sheet and gives back the old name.
    pub fn set_name(&mut self, name: String) -> (r: String)
        ensures
            final(self)@ == old(self)@.with_name(name@),
            r@ == old(self)@.name,
    {
        proof {
            use_type_invariant(&*self);
        }
        let mut name = name;
        std::mem::swap(&mut self.name, &mut name);
        name
    }

    /// Recolors the sheet and gives back the old color.
    pub fn set_color(&mut self, color: Option<String>) -> (r: Option<String>)
        ensures
            final(self)@ == old(self)@.with_color(color.deep_view()),
            r.deep_view() == old(self)@.color,
    {
        proof {
            use_type_invariant(&*self);
        }
        let mut color = color;
        std::mem::swap(&mut self.color, &mut color);
        color
    }

    /// Gives the sheet another order key and gives back the old one.
    pub fn set_order(&mut self, order: String) -> (r: String)
        ensures
            final(self)@ == old(self)@.with_order(order@),
            r@ == old(self)@.order,
    {
        proof {
            use_type_invariant(&*self);
        }
        let mut order = order;
        std::mem::swap(&mut self.order, &mut order);
        order
    }

    /// Gives the sheet another identity.
    pub fn set_id(&mut self, id: SheetId)
        ensures
            final(self)@ == old(self)@.with_id(id),
    {
        proof {
            use_type_invariant(&*self);
        }
        self.id = id;
    }

    /// The value stored at `pos`, if the cell is not blank.
    pub fn cell_value(&self, pos: Pos) -> (r: Option<&CellValue>)
        ensures
            r.deep_view() == value_at(self@.cells, pos),
            r matches Some(v) ==> !(v@ is Blank),
    {
        proof {
            use_type_invariant(self);
        }
        self.cells.note_sorted();
        let r = self.cells.get(pos);
        proof {
            crate::sorted::lemma_rank(self.cells@, pos);
        }
        r
    }

    /// Writes one cell and gives back what it held.
    pub fn set_cell_value(&mut self, pos: Pos, value: CellValue) -> (r: CellValue)
        ensures
            final(self)@ == old(self)@.with_cells(write(old(self)@.cells, pos, value@)),
            r@ == read(old(self)@.cells, pos),
    {
        proof {
            use_type_invariant(&*self);
        }
        self.cells.note_sorted();
        proof {
            lemma_write(self.cells@, pos, value@);
        }
        let mut cells: PosMap<CellValue> = PosMap::new();
        assert(no_blank(cells@));
        std::mem::swap(&mut self.cells, &mut cells);
        let before = if value.is_blank() {
            cells.remove(pos)
        } else {
            cells.set(pos, value)
        };
        self.cells = cells;
        match before {
            Some(v) => v,
            None => CellValue::Blank,
        }
    }

    /// Writes a block of values with its top left corner at `origin`, and
    /// gives back the block of values that the cells held before, blanks
    /// included.
    pub fn merge_cell_values(&mut self, origin: Pos, values: &CellValues) -> (r: CellValues)
        requires
            block_fits(origin, values@.w, values@.h),
        ensures
            final(self)@ == old(self)@.with_cells(
                merge(old(self)@.cells, origin, values@, values@.w * values@.h),
            ),
            r@ == prior(old(self)@.cells, origin, values@.w, values@.h),
    {
        proof {
            use_type_invariant(&*self);
        }
        self.cells.note_sorted();
        values.note_wf();
        let w: u32 = values.w();
        let h: u32 = values.h();
        let n: usize = values.len();
        let ghost start = self.cells@;
        proof {
            lemma_cell_pos(origin, w, h);
        }
        // First read what the cells hold.
        let mut before: Vec<CellValue> = Vec::new();
        let mut k: usize = 0;
        while k < n
            invariant
                k <= n,
                n == w * h,
                block_fits(origin, w, h),
                before.len() == k,
                self.cells@ == start,
                forall|j: int|
                    0 <= j < k ==> (#[trigger] before@[j])@ == read(start, cell_pos(origin, w, j)),
                forall|j: int|
                    0 <= j < w * h ==> block_rect(origin, w, h).spec_contains(
                        #[trigger] cell_pos(origin, w, j),
                    ),
            decreases n - k,
        {
            let pos = nth_pos(origin, w, h, k);
            let v = match self.cells.get(pos) {
                Some(v) => v.clone(),
                None => CellValue::Blank,
            };
            before.push(v);
            k = k + 1;
        }
        assert(before.deep_view() =~= prior(start, origin, w, h).values);
        // Then write the block.
        let mut cells: PosMap<CellValue> = PosMap::new();
        assert(no_blank(cells@));
        std::mem::swap(&mut self.cells, &mut cells);
        let mut k: usize = 0;
        while k < n
            invariant
                k <= n,
                n == w * h,
                n == values@.values.len(),
                w == values@.w,
                h == values@.h,
                values@.wf(),
                block_fits(origin, w, h),
                sorted(start),
                no_blank(start),
                cells@ == merge(start, origin, values@, k as int),
                forall|j: int|
                    0 <= j < w * h ==> block_rect(origin, w, h).spec_contains(
                        #[trigger] cell_pos(origin, w, j),
                    ),
            decreases n - k,
        {
            let pos = nth_pos(origin, w, h, k);
            let v = values.nth(k).clone();
            proof {
                lemma_merge(start, origin, values@, k as int);
            }
            if v.is_blank() {
                cells.remove(pos);
            } else {
                cells.set(pos, v);
            }
            k = k + 1;
        }
        proof {
            lemma_merge(start, origin, values@, n as int);
        }
        self.cells = cells;
        let r = CellValues::from_rows(w, h, before);
        r.unwrap()
    }

    /// The run of the code cell at `pos`.
    pub fn code_run(&self, pos: Pos) -> (r: Option<&CodeRun>)
        ensures
            r.deep_view() == self@.run_at(pos),
    {
        self.code_runs.get(pos)
    }

    /// Sets or removes the run of the code cell at `pos`, and gives back the
    /// run it had.
    pub fn set_code_run(&mut self, pos: Pos, run: Option<CodeRun>) -> (r: Option<CodeRun>)
        ensures
            final(self)@ == old(self)@.set_run(pos, run.deep_view()),
            r.deep_view() == old(self)@.run_at(pos),
    {
        proof {
            use_type_invariant(&*self);
        }
        let mut runs: PosMap<CodeRun> = PosMap::new();
        std::mem::swap(&mut self.code_runs, &mut runs);
        let before = match run {
            Some(r) => runs.set(pos, r),
            None => runs.remove(pos),
        };
        self.code_runs = runs;
        before
    }

    /// What the cell at `pos` shows.
    pub fn display_value(&self, pos: Pos) -> (r: Option<CellValue>)
        ensures
            r.deep_view() == spec_display_value(self@, pos),
    {
        match self.cell_value(pos) {
            Some(CellValue::Code(_)) => self.shown_by_runs(pos),
            Some(v) => Some(v.clone()),
            None => self.shown_by_runs(pos),
        }
    }

    /// The value that the first run covering `pos` shows there.
    fn shown_by_runs(&self, pos: Pos) -> (r: Option<CellValue>)
        ensures
            r.deep_view() == run_output_at(self@.code_runs, pos, 0),
    {
        let mut i: usize = 0;
        while i < self.code_runs.len()
            invariant
                i <= self@.code_runs.len(),
                self@.code_runs == self.code_runs@,
                run_output_at(self@.code_runs, pos, 0) == run_output_at(
                    self@.code_runs,
                    pos,
                    i as int,
                ),
            decreases self@.code_runs.len() - i,
        {
            let at = self.code_runs.pos_at(i);
            let run = self.code_runs.value_at_index(i);
            if run_covers(at, run, pos) {
                return shown_value(at, run, pos);
            }
            i = i + 1;
        }
        None
    }

    /// The formats of the sheet.
    pub fn formatting(&self) -> (r: &SheetFormatting)
        ensures
            r@ == self@.formats,
    {
        &self.formatting
    }

    /// Changes the format of each target by its change, and gives back the
    /// changes that restore the formats. Nothing is changed, and nothing
    /// given back, unless there is one change for each target.
    pub fn update_formats(&mut self, targets: &Vec<Target>, updates: &Formats) -> (r: Option<
        Formats,
    >)
        ensures
            targets@.len() == updates@.len() ==> r is Some && r.unwrap()@ == restores(
                old(self)@.formats,
                targets@,
                updates@,
            ) && final(self)@ == old(self)@.with_formats(
                pass(old(self)@.formats, targets@, updates@, targets@.len() as int),
            ),
            targets@.len() != updates@.len() ==> r is None && final(self)@ == old(self)@,
    {
        proof {
            use_type_invariant(&*self);
        }
        let mut formatting = SheetFormatting::new();
        std::mem::swap(&mut self.formatting, &mut formatting);
        let r = formatting.update(targets, updates);
        self.formatting = formatting;
        r
    }

    /// The number of code runs.
    pub fn code_run_count(&self) -> (n: usize)
        ensures
            n == self@.code_runs.len(),
    {
        self.code_runs.len()
    }

    /// The position of the `i`-th code run, in the order of positions.
    pub fn code_run_pos(&self, i: usize) -> (p: Pos)
        requires
            i < self@.code_runs.len(),
        ensures
            p == self@.code_runs[i as int].0,
    {
        self.code_runs.pos_at(i)
    }

    /// The `i`-th code run, in the order of positions.
    pub fn code_run_at_index(&self, i: usize) -> (r: &CodeRun)
        requires
            i < self@.code_runs.len(),
        ensures
            r@ == self@.code_runs[i as int].1,
    {
        self.code_runs.value_at_index(i)
    }

    /// The number of stored cell values.
    pub fn cell_count(&self) -> (n: usize)
        ensures
            n == self@.cells.len(),
    {
        self.cells.len()
    }

    /// The `i`-th stored value, in the order of positions.
    pub fn cell_value_at_index(&self, i: usize) -> (v: &CellValue)
        requires
            i < self@.cells.len(),
        ensures
            v@ == self@.cells[i as int].1,
    {
        self.cells.value_at_index(i)
    }

    /// The position of the `i`-th stored value, in the order of positions.
    pub fn cell_pos_at(&self, i: usize) -> (p: Pos)
        requires
            i < self@.cells.len(),
        ensures
            p == self@.cells[i as int].0,
    {
        self.cells.pos_at(i)
    }
}

/// The rectangle that the output of a run takes up.
pub fn run_output_rect(at: Pos, run: &CodeRun) -> (r: Rect)
    ensures
        r == output_rect(at, run@),
{
    let (w, h) = run.output_size();
    let x: i128 = at.x as i128 + w as i128 - 1;
    let y: i128 = at.y as i128 + h as i128 - 1;
    Rect {
        min: at,
        max: Pos {
            x: if x > i64::MAX as i128 { i64::MAX } else { x as i64 },
            y: if y > i64::MAX as i128 { i64::MAX } else { y as i64 },
        },
    }
}

/// Whether the output of a run covers the cell at `pos`.
pub fn run_covers(at: Pos, run: &CodeRun, pos: Pos) -> (r: bool)
    ensures
        r == output_rect(at, run@).spec_contains(pos),
{
    run_output_rect(at, run).contains(pos)
}

/// The value that a run shows at `pos`.
pub fn shown_value(at: Pos, run: &CodeRun, pos: Pos) -> (r: Option<CellValue>)
    ensures
        r.deep_view() == output_value(at, run@, pos),
{
    match &run.result {
        crate::values::CodeRunResult::Values(v) => {
            v.note_wf();
            let dx: i128 = pos.x as i128 - at.x as i128;
            let dy: i128 = pos.y as i128 - at.y as i128;
            if !run.spill_error && 0 <= dx && dx < v.w() as i128 && 0 <= dy && dy < v.h() as i128 {
                match v.get(dx as u32, dy as u32) {
                    Some(value) => if value.is_blank() {
                        None
                    } else {
                        Some(value.clone())
                    },
                    None => None,
                }
            } else {
                None
            }
        },
        crate::values::CodeRunResult::Failed(_) => None,
    }
}

/// Copies a store of cell values.
pub fn clone_cells(cells: &PosMap<CellValue>) -> (r: PosMap<CellValue>)
    ensures
        r@ == cells@,
{
    cells.note_sorted();
    let mut r: PosMap<CellValue> = PosMap::new();
    let mut i: usize = 0;
    while i < cells.len()
        invariant
            i <= cells@.len(),
            sorted(cells@),
            r@ == cells@.take(i as int),
        decreases cells@.len() - i,
    {
        assert forall|j: int| 0 <= j < r@.len() implies (#[trigger] r@[j]).0.precedes(
            cells@[i as int].0,
        ) by {
            assert(<(Pos, CellValueView) as crate::sorted::Keyed>::key_lt(
                cells@[j].key(),
                cells@[i as int].key(),
            ));
        }
        r.push_last(cells.pos_at(i), cells.value_at_index(i).clone());
        assert(r@ =~= cells@.take(i + 1));
        i = i + 1;
    }
    assert(cells@.take(cells@.len() as int) =~= cells@);
    r
}

/// Copies a store of code runs.
pub fn clone_runs(runs: &PosMap<CodeRun>) -> (r: PosMap<CodeRun>)
    ensures
        r@ == runs@,
{
    runs.note_sorted();
    let mut r: PosMap<CodeRun> = PosMap::new();
    let mut i: usize = 0;
    while i < runs.len()
        invariant
            i <= runs@.len(),
            sorted(runs@),
            r@ == runs@.take(i as int),
        decreases runs@.len() - i,
    {
        assert forall|j: int| 0 <= j < r@.len() implies (#[trigger] r@[j]).0.precedes(
            runs@[i as int].0,
        ) by {
            assert(<(Pos, CodeRunView) as crate::sorted::Keyed>::key_lt(
                runs@[j].key(),
                runs@[i as int].key(),
            ));
        }
        r.push_last(runs.pos_at(i), runs.value_at_index(i).clone());
        assert(r@ =~= runs@.take(i + 1));
        i = i + 1;
    }
    assert(runs@.take(runs@.len() as int) =~= runs@);
    r
}

impl Clone for Sheet {
    fn clone(&self) -> (r: Sheet)
        ensures
            r@ == self@,
    {
        proof {
            use_type_invariant(self);
        }
        Sheet {
            id: self.id,
            name: self.name.clone(),
            color: clone_option_string(&self.color),
            order: self.order.clone(),
            cells: clone_cells(&self.cells),
            code_runs: clone_runs(&self.code_runs),
            formatting: self.formatting.clone(),
        }
    }
}

/// The position of the `k`-th cell of a block.
pub fn nth_pos(origin: Pos, w: u32, h: u32, k: usize) -> (p: Pos)
    requires
        block_fits(origin, w, h),
        k < w * h,
    ensures
        p == cell_pos(origin, w, k as int),
        block_rect(origin, w, h).spec_contains(p),
{
    proof {
        lemma_cell_pos(origin, w, h);
        assert(block_rect(origin, w, h).spec_contains(cell_pos(origin, w, k as int)));
    }
    let dx: u64 = (k as u64) % (w as u64);
    let dy: u64 = (k as u64) / (w as u64);
    let x: i64 = (origin.x as i128 + dx as i128) as i64;
    let y: i64 = (origin.y as i128 + dy as i128) as i64;
    Pos { x, y }
}

} // verus!
