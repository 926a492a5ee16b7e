//! Selections by parts: the whole sheet, whole columns, whole rows, and
//! rectangles of cells.

use crate::pos::{Pos, Rect, SheetId};
use vstd::prelude::*;

verus! {

/// The most parts that a selection is taken apart into.
pub const MAX_PARTS: usize = 1048576;

/// What a format or a change applies to: the sheet, a column, a row or a
/// cell.
#[derive(Clone, Copy, Debug, PartialEq, Eq, Hash, Structural)]
pub enum Target {
    All,
    Column(i64),
    Row(i64),
    Cell(Pos),
}

/// A selection on a sheet: the cursor, and the parts that are selected.
#[derive(Debug, PartialEq, Eq)]
pub struct Selection {
    pub sheet_id: SheetId,
    /// The column of the cursor.
    pub x: i64,
    /// The row of the cursor.
    pub y: i64,
    pub rects: Option<Vec<Rect>>,
    pub rows: Option<Vec<i64>>,
    pub columns: Option<Vec<i64>>,
    pub all: bool,
}

pub struct SelectionView {
    pub sheet_id: SheetId,
    pub x: i64,
    pub y: i64,
    pub rects: Option<Seq<Rect>>,
    pub rows: Option<Seq<i64>>,
    pub columns: Option<Seq<i64>>,
    pub all: bool,
}

impl View for Selection {
    type V = SelectionView;

    open spec fn view(&self) -> SelectionView {
        SelectionView {
            sheet_id: self.sheet_id,
            x: self.x,
            y: self.y,
            rects: match self.rects {
                Some(v) => Some(v@),
                None => None,
            },
            rows: match self.rows {
                Some(v) => Some(v@),
                None => None,
            },
            columns: match self.columns {
                Some(v) => Some(v@),
                None => None,
            },
            all: self.all,
        }
    }
}

/// The list, or the empty list where there is none.
pub open spec fn listed<T>(list: Option<Seq<T>>) -> Seq<T> {
    match list {
        Some(s) => s,
        None => Seq::empty(),
    }
}

/// The number of columns of a rectangle.
pub open spec fn width(r: Rect) -> int {
    if r.max.x >= r.min.x && r.max.y >= r.min.y {
        r.max.x - r.min.x + 1
    } else {
        0
    }
}

/// The number of rows of a rectangle.
pub open spec fn height(r: Rect) -> int {
    if r.max.x >= r.min.x && r.max.y >= r.min.y {
        r.max.y - r.min.y + 1
    } else {
        0
    }
}

/// The `k`-th cell of a rectangle, counting row by row.
pub open spec fn rect_cell(r: Rect, k: int) -> Pos {
    Pos { x: (r.min.x + k % width(r)) as i64, y: (r.min.y + k / width(r)) as i64 }
}

/// The cells of a rectangle, row by row.
pub open spec fn rect_cells(r: Rect) -> Seq<Target> {
    Seq::new((width(r) * height(r)) as nat, |k: int| Target::Cell(rect_cell(r, k)))
}

/// The cells of the first `n` rectangles.
pub open spec fn rects_cells(rects: Seq<Rect>, n: int) -> Seq<Target>
    decreases n,
{
    if n <= 0 || n > rects.len() {
        Seq::empty()
    } else {
        rects_cells(rects, n - 1) + rect_cells(rects[n - 1])
    }
}

impl SelectionView {
    /// Whether the cell is selected.
    pub open spec fn contains(self, pos: Pos) -> bool {
        ||| self.all
        ||| listed(self.columns).contains(pos.x)
        ||| listed(self.rows).contains(pos.y)
        ||| exists|i: int|
            0 <= i < listed(self.rects).len() && (#[trigger] listed(self.rects)[i]).spec_contains(
                pos,
            )
    }

    /// What is selected, part by part: the sheet, the columns, the rows, and
    /// the cells of the rectangles, row by row.
    pub open spec fn targets(self) -> Seq<Target> {
        (if self.all {
            seq![Target::All]
        } else {
            Seq::empty()
        }) + Seq::new(listed(self.columns).len(), |i: int| Target::Column(listed(self.columns)[i]))
            + Seq::new(listed(self.rows).len(), |i: int| Target::Row(listed(self.rows)[i]))
            + rects_cells(listed(self.rects), listed(self.rects).len() as int)
    }
}

fn clone_numbers(list: &Option<Vec<i64>>) -> (r: Option<Vec<i64>>)
    ensures
        r is Some == list is Some,
        r matches Some(v) ==> v@ == list.unwrap()@,
{
    match list {
        Some(v) => {
            let c = v.clone();
            assert(c@ =~= v@);
            Some(c)
        },
        None => None,
    }
}

fn clone_rects(list: &Option<Vec<Rect>>) -> (r: Option<Vec<Rect>>)
    ensures
        r is Some == list is Some,
        r matches Some(v) ==> v@ == list.unwrap()@,
{
    match list {
        Some(v) => {
            let c = v.clone();
            assert(c@ =~= v@);
            Some(c)
        },
        None => None,
    }
}

/// The more rectangles, the more cells.
pub proof fn lemma_rects_cells_len(rects: Seq<Rect>, n: int, m: int)
    requires
        0 <= n <= m <= rects.len(),
    ensures
        rects_cells(rects, n).len() <= rects_cells(rects, m).len(),
        n < m ==> rects_cells(rects, n).len() + width(rects[n]) * height(rects[n]) <= rects_cells(
            rects,
            m,
        ).len(),
    decreases m - n,
{
    if n < m {
        lemma_rects_cells_len(rects, n + 1, m);
        assert(width(rects[n]) * height(rects[n]) >= 0) by (nonlinear_arith)
            requires
                width(rects[n]) >= 0,
                height(rects[n]) >= 0,
        ;
    }
}

impl Clone for Selection {
    fn clone(&self) -> (r: Selection)
        ensures
            r@ == self@,
    {
        Selection {
            sheet_id: self.sheet_id,
            x: self.x,
            y: self.y,
            rects: clone_rects(&self.rects),
            rows: clone_numbers(&self.rows),
            columns: clone_numbers(&self.columns),
            all: self.all,
        }
    }
}

/// Whether the list holds the value.
pub fn list_contains(list: &Option<Vec<i64>>, value: i64) -> (r: bool)
    ensures
        r == listed(
            match list {
                Some(v) => Some(v@),
                None => None,
            },
        ).contains(value),
{
    match list {
        Some(v) => {
            let mut i: usize = 0;
            while i < v.len()
                invariant
                    i <= v.len(),
                    *list == Some(*v),
                    forall|j: int| 0 <= j < i ==> v@[j] != value,
                decreases v.len() - i,
            {
                if v[i] == value {
                    assert(v@[i as int] == value);
                    return true;
                }
                i = i + 1;
            }
            false
        },
        None => false,
    }
}

impl Selection {
    /// The selection of one rectangle, with the cursor at its first corner.
    pub fn sheet_rect(rect: Rect, sheet_id: SheetId) -> (r: Selection)
        ensures
            r@ == (SelectionView {
                sheet_id,
                x: rect.min.x,
                y: rect.min.y,
                rects: Some(seq![rect]),
                rows: None,
                columns: None,
                all: false,
            }),
    {
        let mut rects: Vec<Rect> = Vec::new();
        rects.push(rect);
        Selection {
            sheet_id,
            x: rect.min.x,
            y: rect.min.y,
            rects: Some(rects),
            rows: None,
            columns: None,
            all: false,
        }
    }

    /// The selection of one cell.
    pub fn pos(x: i64, y: i64, sheet_id: SheetId) -> (r: Selection)
        ensures
            r@ == (SelectionView {
                sheet_id,
                x,
                y,
                rects: Some(seq![Rect { min: Pos { x, y }, max: Pos { x, y } }]),
                rows: None,
                columns: None,
                all: false,
            }),
    {
        Selection::sheet_rect(Rect::single_pos(Pos { x, y }), sheet_id)
    }

    /// The selection of the whole sheet.
    pub fn all(sheet_id: SheetId) -> (r: Selection)
        ensures
            r@ == (SelectionView {
                sheet_id,
                x: 0,
                y: 0,
                rects: None,
                rows: None,
                columns: None,
                all: true,
            }),
    {
        Selection { sheet_id, x: 0, y: 0, rects: None, rows: None, columns: None, all: true }
    }

    /// The selection of whole columns.
    pub fn columns(columns: Vec<i64>, sheet_id: SheetId) -> (r: Selection)
        ensures
            r@ == (SelectionView {
                sheet_id,
                x: 0,
                y: 0,
                rects: None,
                rows: None,
                columns: Some(columns@),
                all: false,
            }),
    {
        Selection { sheet_id, x: 0, y: 0, rects: None, rows: None, columns: Some(columns), all: false }
    }

    /// The selection of whole rows.
    pub fn rows(rows: Vec<i64>, sheet_id: SheetId) -> (r: Selection)
        ensures
            r@ == (SelectionView {
                sheet_id,
                x: 0,
                y: 0,
                rects: None,
                rows: Some(rows@),
                columns: None,
                all: false,
            }),
    {
        Selection { sheet_id, x: 0, y: 0, rects: None, rows: Some(rows), columns: None, all: false }
    }

    /// Whether the cell is selected.
    pub fn pos_in_selection(&self, pos: Pos) -> (r: bool)
        ensures
            r == self@.contains(pos),
    {
        if self.all || list_contains(&self.columns, pos.x) || list_contains(&self.rows, pos.y) {
            return true;
        }
        match &self.rects {
            Some(rects) => {
                let mut i: usize = 0;
                while i < rects.len()
                    invariant
                        i <= rects.len(),
                        listed(self@.rects) == rects@,
                        forall|j: int| 0 <= j < i ==> !(#[trigger] rects@[j]).spec_contains(pos),
                    decreases rects.len() - i,
                {
                    if rects[i].contains(pos) {
                        assert(listed(self@.rects)[i as int].spec_contains(pos));
                        return true;
                    }
                    i = i + 1;
                }
                false
            },
            None => false,
        }
    }

    /// What is selected, part by part. `None` where there are more than
    /// `MAX_PARTS` parts.
    pub fn targets(&self) -> (r: Option<Vec<Target>>)
        ensures
            r is Some == (self@.targets().len() <= MAX_PARTS),
            r matches Some(v) ==> v@ == self@.targets(),
    {
        let mut r: Vec<Target> = Vec::new();
        if self.all {
            r.push(Target::All);
        }
        let ghost head = r@;
        let ghost cols = listed(self@.columns);
        let ghost rows = listed(self@.rows);
        let ghost rects = listed(self@.rects);
        let ghost full = self@.targets();
        assert(full.len() == head.len() + cols.len() + rows.len() + rects_cells(
            rects,
            rects.len() as int,
        ).len()) by {
            assert(head =~= if self.all {
                seq![Target::All]
            } else {
                Seq::empty()
            });
        }
        match &self.columns {
            Some(v) => {
                let mut i: usize = 0;
                while i < v.len()
                    invariant
                        i <= v.len(),
                        v@ == cols,
                        r@ == head + Seq::new(i as nat, |j: int| Target::Column(cols[j])),
                        full.len() >= head.len() + cols.len(),
                        full == self@.targets(),
                    decreases v.len() - i,
                {
                    if r.len() >= MAX_PARTS {
                        return None;
                    }
                    r.push(Target::Column(v[i]));
                    i = i + 1;
                    assert(r@ =~= head + Seq::new(i as nat, |j: int| Target::Column(cols[j])));
                }
            },
            None => {
                assert(r@ =~= head + Seq::new(0, |j: int| Target::Column(cols[j])));
            },
        }
        let ghost with_cols = r@;
        match &self.rows {
            Some(v) => {
                let mut i: usize = 0;
                while i < v.len()
                    invariant
                        i <= v.len(),
                        v@ == rows,
                        r@ == with_cols + Seq::new(i as nat, |j: int| Target::Row(rows[j])),
                        full.len() >= with_cols.len() + rows.len(),
                        full == self@.targets(),
                    decreases v.len() - i,
                {
                    if r.len() >= MAX_PARTS {
                        return None;
                    }
                    r.push(Target::Row(v[i]));
                    i = i + 1;
                    assert(r@ =~= with_cols + Seq::new(i as nat, |j: int| Target::Row(rows[j])));
                }
            },
            None => {
                assert(r@ =~= with_cols + Seq::new(0, |j: int| Target::Row(rows[j])));
            },
        }
        let ghost with_rows = r@;
        match &self.rects {
            Some(v) => {
                let mut n: usize = 0;
                assert(r@ =~= with_rows + rects_cells(rects, 0));
                while n < v.len()
                    invariant
                        n <= v.len(),
                        v@ == rects,
                        r@ == with_rows + rects_cells(rects, n as int),
                        full.len() == with_rows.len() + rects_cells(rects, rects.len() as int).len(),
                        full == self@.targets(),
                    decreases v.len() - n,
                {
                    let rect = v[n];
                    let ghost before = r@;
                    proof {
                        lemma_rects_cells_len(rects, n as int, rects.len() as int);
                    }
                    if rect.max.x >= rect.min.x && rect.max.y >= rect.min.y {
                        let w: u128 = (rect.max.x as i128 - rect.min.x as i128 + 1) as u128;
                        let h: u128 = (rect.max.y as i128 - rect.min.y as i128 + 1) as u128;
                        assert(w * h >= w && w * h >= h && w * h >= 1) by (nonlinear_arith)
                            requires
                                w >= 1,
                                h >= 1,
                        ;
                        if w > MAX_PARTS as u128 || h > MAX_PARTS as u128 {
                            return None;
                        }
                        assert(w * h <= 1048576 * 1048576) by (nonlinear_arith)
                            requires
                                w <= 1048576,
                                h <= 1048576,
                        ;
                        let area: u128 = w * h;
                        if r.len() > MAX_PARTS || area > (MAX_PARTS - r.len()) as u128 {
                            return None;
                        }
                        let mut k: u128 = 0;
                        assert(r@ =~= before + Seq::new(0, |j: int| Target::Cell(rect_cell(rect, j))));
                        while k < area
                            invariant
                                k <= area,
                                area == w * h,
                                w == width(rect),
                                h == height(rect),
                                w >= 1,
                                h >= 1,
                                before.len() + area <= MAX_PARTS,
                                r@ == before + Seq::new(
                                    k as nat,
                                    |j: int| Target::Cell(rect_cell(rect, j)),
                                ),
                            decreases area - k,
                        {
                            proof {
                                crate::sheet::lemma_row_and_column(k as int, w as int, h as int);
                            }
                            let dx: u128 = k % w;
                            let dy: u128 = k / w;
                            let cell = Pos {
                                x: (rect.min.x as i128 + dx as i128) as i64,
                                y: (rect.min.y as i128 + dy as i128) as i64,
                            };
                            r.push(Target::Cell(cell));
                            k = k + 1;
                            assert(r@ =~= before + Seq::new(
                                k as nat,
                                |j: int| Target::Cell(rect_cell(rect, j)),
                            ));
                        }
                        assert(r@ =~= before + rect_cells(rect));
                    } else {
                        assert(r@ =~= before + rect_cells(rect));
                    }
                    n = n + 1;
                    assert(r@ =~= with_rows + rects_cells(rects, n as int));
                }
            },
            None => {
                assert(r@ =~= with_rows + rects_cells(rects, 0));
            },
        }
        assert(r@ =~= self@.targets());
        if r.len() > MAX_PARTS {
            return None;
        }
        Some(r)
    }
}

} // verus!
