//! Selections of cells in A1 style: a cursor and a list of ranges, each from
//! one corner to another, where a corner may be unbounded to the right or
//! downwards. Columns and rows count from 1.

use crate::pos::{Pos, SheetId};
use vstd::prelude::*;

verus! {

/// The coordinate that stands for "without bound".
pub const UNBOUNDED: i64 = i64::MAX;

/// One coordinate of a corner.
#[derive(Clone, Copy, Debug, PartialEq, Eq, Hash, Structural)]
pub struct CellRefCoord {
    pub coord: i64,
    pub is_absolute: bool,
}

impl CellRefCoord {
    pub open spec fn rel(coord: i64) -> CellRefCoord {
        CellRefCoord { coord, is_absolute: false }
    }

    pub open spec fn spec_is_unbounded(&self) -> bool {
        self.coord == UNBOUNDED
    }

    /// A relative coordinate.
    pub fn new_rel(coord: i64) -> (r: CellRefCoord)
        ensures
            r == CellRefCoord::rel(coord),
    {
        CellRefCoord { coord, is_absolute: false }
    }

    /// The coordinate without bound.
    pub fn unbounded() -> (r: CellRefCoord)
        ensures
            r == CellRefCoord::rel(UNBOUNDED),
    {
        CellRefCoord { coord: UNBOUNDED, is_absolute: false }
    }

    #[verifier::when_used_as_spec(spec_is_unbounded)]
    pub fn is_unbounded(&self) -> (r: bool)
        ensures
            r == self.spec_is_unbounded(),
    {
        self.coord == UNBOUNDED
    }
}

/// A corner of a range.
#[derive(Clone, Copy, Debug, PartialEq, Eq, Hash, Structural)]
pub struct CellRefRangeEnd {
    pub col: CellRefCoord,
    pub row: CellRefCoord,
}

impl CellRefRangeEnd {
    pub open spec fn xy(x: i64, y: i64) -> CellRefRangeEnd {
        CellRefRangeEnd { col: CellRefCoord::rel(x), row: CellRefCoord::rel(y) }
    }

    pub open spec fn spec_col(&self) -> i64 {
        self.col.coord
    }

    pub open spec fn spec_row(&self) -> i64 {
        self.row.coord
    }

    /// The relative corner at column `x` and row `y`.
    pub fn new_relative_xy(x: i64, y: i64) -> (r: CellRefRangeEnd)
        ensures
            r == CellRefRangeEnd::xy(x, y),
    {
        CellRefRangeEnd { col: CellRefCoord::new_rel(x), row: CellRefCoord::new_rel(y) }
    }

    /// The relative corner at a position.
    pub fn new_relative_pos(pos: Pos) -> (r: CellRefRangeEnd)
        ensures
            r == CellRefRangeEnd::xy(pos.x, pos.y),
    {
        CellRefRangeEnd::new_relative_xy(pos.x, pos.y)
    }

    /// The corner without bound in either direction.
    pub fn unbounded() -> (r: CellRefRangeEnd)
        ensures
            r == CellRefRangeEnd::xy(UNBOUNDED, UNBOUNDED),
    {
        CellRefRangeEnd::new_relative_xy(UNBOUNDED, UNBOUNDED)
    }

    #[verifier::when_used_as_spec(spec_col)]
    pub fn col(&self) -> (r: i64)
        ensures
            r == self.spec_col(),
    {
        self.col.coord
    }

    #[verifier::when_used_as_spec(spec_row)]
    pub fn row(&self) -> (r: i64)
        ensures
            r == self.spec_row(),
    {
        self.row.coord
    }
}

/// A range from one corner to another.
#[derive(Clone, Copy, Debug, PartialEq, Eq, Hash, Structural)]
pub struct RefRangeBounds {
    pub start: CellRefRangeEnd,
    pub end: CellRefRangeEnd,
}

pub open spec fn min_of(a: i64, b: i64) -> i64 {
    if a <= b {
        a
    } else {
        b
    }
}

pub open spec fn max_of(a: i64, b: i64) -> i64 {
    if a >= b {
        a
    } else {
        b
    }
}

impl RefRangeBounds {
    /// The range from corner to corner.
    pub open spec fn between(x0: i64, y0: i64, x1: i64, y1: i64) -> RefRangeBounds {
        RefRangeBounds { start: CellRefRangeEnd::xy(x0, y0), end: CellRefRangeEnd::xy(x1, y1) }
    }

    /// The range of all cells.
    pub open spec fn spec_all() -> RefRangeBounds {
        RefRangeBounds::between(1, 1, UNBOUNDED, UNBOUNDED)
    }

    /// The range takes in whole columns: it starts in row 1 and has no last
    /// row.
    pub open spec fn spec_is_column_range(&self) -> bool {
        self.start.row.coord == 1 && self.end.row.coord == UNBOUNDED
    }

    /// The range takes in whole rows: it starts in column 1 and has no last
    /// column.
    pub open spec fn spec_is_row_range(&self) -> bool {
        self.start.col.coord == 1 && self.end.col.coord == UNBOUNDED
    }

    /// The range takes in the whole column `col`.
    pub open spec fn spec_has_column_range(&self, col: i64) -> bool {
        self.spec_is_column_range() && min_of(self.start.col.coord, self.end.col.coord) <= col
            <= max_of(self.start.col.coord, self.end.col.coord)
    }

    /// The range takes in the whole row `row`.
    pub open spec fn spec_has_row_range(&self, row: i64) -> bool {
        self.spec_is_row_range() && min_of(self.start.row.coord, self.end.row.coord) <= row
            <= max_of(self.start.row.coord, self.end.row.coord)
    }

    /// The cell at `pos` lies between the corners.
    pub open spec fn spec_contains_pos(&self, pos: Pos) -> bool {
        &&& min_of(self.start.col.coord, self.end.col.coord) <= pos.x <= max_of(
            self.start.col.coord,
            self.end.col.coord,
        )
        &&& min_of(self.start.row.coord, self.end.row.coord) <= pos.y <= max_of(
            self.start.row.coord,
            self.end.row.coord,
        )
    }

    /// The range of all cells.
    pub fn all() -> (r: RefRangeBounds)
        ensures
            r == RefRangeBounds::spec_all(),
    {
        RefRangeBounds {
            start: CellRefRangeEnd::new_relative_xy(1, 1),
            end: CellRefRangeEnd::unbounded(),
        }
    }

    #[verifier::when_used_as_spec(spec_is_column_range)]
    pub fn is_column_range(&self) -> (r: bool)
        ensures
            r == self.spec_is_column_range(),
    {
        self.start.row.coord == 1 && self.end.row.coord == UNBOUNDED
    }

    #[verifier::when_used_as_spec(spec_is_row_range)]
    pub fn is_row_range(&self) -> (r: bool)
        ensures
            r == self.spec_is_row_range(),
    {
        self.start.col.coord == 1 && self.end.col.coord == UNBOUNDED
    }

    #[verifier::when_used_as_spec(spec_has_column_range)]
    pub fn has_column_range(&self, col: i64) -> (r: bool)
        ensures
            r == self.spec_has_column_range(col),
    {
        let a = self.start.col.coord;
        let b = self.end.col.coord;
        let lo = if a <= b { a } else { b };
        let hi = if a >= b { a } else { b };
        self.is_column_range() && lo <= col && col <= hi
    }

    #[verifier::when_used_as_spec(spec_has_row_range)]
    pub fn has_row_range(&self, row: i64) -> (r: bool)
        ensures
            r == self.spec_has_row_range(row),
    {
        let a = self.start.row.coord;
        let b = self.end.row.coord;
        let lo = if a <= b { a } else { b };
        let hi = if a >= b { a } else { b };
        self.is_row_range() && lo <= row && row <= hi
    }

    #[verifier::when_used_as_spec(spec_contains_pos)]
    pub fn contains_pos(&self, pos: Pos) -> (r: bool)
        ensures
            r == self.spec_contains_pos(pos),
    {
        let a = self.start.col.coord;
        let b = self.end.col.coord;
        let c = self.start.row.coord;
        let d = self.end.row.coord;
        let x0 = if a <= b { a } else { b };
        let x1 = if a >= b { a } else { b };
        let y0 = if c <= d { c } else { d };
        let y1 = if c >= d { c } else { d };
        x0 <= pos.x && pos.x <= x1 && y0 <= pos.y && pos.y <= y1
    }
}

/// A range of a selection.
#[derive(Clone, Copy, Debug, PartialEq, Eq, Hash, Structural)]
pub enum CellRefRange {
    Sheet { range: RefRangeBounds },
}

impl CellRefRange {
    pub open spec fn bounds(&self) -> RefRangeBounds {
        match self {
            CellRefRange::Sheet { range } => *range,
        }
    }

    pub open spec fn of(range: RefRangeBounds) -> CellRefRange {
        CellRefRange::Sheet { range }
    }

    /// The range from corner to corner.
    pub open spec fn between(x0: i64, y0: i64, x1: i64, y1: i64) -> CellRefRange {
        CellRefRange::of(RefRangeBounds::between(x0, y0, x1, y1))
    }

    pub open spec fn column(col: i64) -> CellRefRange {
        CellRefRange::between(col, 1, col, UNBOUNDED)
    }

    pub open spec fn row(row: i64) -> CellRefRange {
        CellRefRange::between(1, row, UNBOUNDED, row)
    }

    pub open spec fn columns(from: i64, to: i64) -> CellRefRange {
        CellRefRange::between(from, 1, to, UNBOUNDED)
    }

    pub open spec fn rows(from: i64, to: i64) -> CellRefRange {
        CellRefRange::between(1, from, UNBOUNDED, to)
    }

    pub open spec fn cell(x: i64, y: i64) -> CellRefRange {
        CellRefRange::between(x, y, x, y)
    }

    /// The range of all cells.
    pub fn all() -> (r: CellRefRange)
        ensures
            r == CellRefRange::of(RefRangeBounds::spec_all()),
    {
        CellRefRange::Sheet { range: RefRangeBounds::all() }
    }

    /// The bounds of the range.
    pub fn range(&self) -> (r: RefRangeBounds)
        ensures
            r == self.bounds(),
    {
        match self {
            CellRefRange::Sheet { range } => *range,
        }
    }

    /// The range from corner to corner.
    pub fn new_relative(x0: i64, y0: i64, x1: i64, y1: i64) -> (r: CellRefRange)
        ensures
            r == CellRefRange::between(x0, y0, x1, y1),
    {
        CellRefRange::Sheet {
            range: RefRangeBounds {
                start: CellRefRangeEnd::new_relative_xy(x0, y0),
                end: CellRefRangeEnd::new_relative_xy(x1, y1),
            },
        }
    }

    /// The whole column `col`.
    pub fn new_relative_column(col: i64) -> (r: CellRefRange)
        ensures
            r == CellRefRange::column(col),
    {
        CellRefRange::new_relative(col, 1, col, UNBOUNDED)
    }

    /// The whole row `row`.
    pub fn new_relative_row(row: i64) -> (r: CellRefRange)
        ensures
            r == CellRefRange::row(row),
    {
        CellRefRange::new_relative(1, row, UNBOUNDED, row)
    }

    /// The whole columns from one to another.
    pub fn new_relative_column_range(from: i64, to: i64) -> (r: CellRefRange)
        ensures
            r == CellRefRange::columns(from, to),
    {
        CellRefRange::new_relative(from, 1, to, UNBOUNDED)
    }

    /// The whole rows from one to another.
    pub fn new_relative_row_range(from: i64, to: i64) -> (r: CellRefRange)
        ensures
            r == CellRefRange::rows(from, to),
    {
        CellRefRange::new_relative(1, from, UNBOUNDED, to)
    }

    /// The single cell at column `x` and row `y`.
    pub fn new_relative_xy(x: i64, y: i64) -> (r: CellRefRange)
        ensures
            r == CellRefRange::cell(x, y),
    {
        CellRefRange::new_relative(x, y, x, y)
    }

    /// The single cell at a position.
    pub fn new_relative_pos(pos: Pos) -> (r: CellRefRange)
        ensures
            r == CellRefRange::cell(pos.x, pos.y),
    {
        CellRefRange::new_relative(pos.x, pos.y, pos.x, pos.y)
    }

    pub fn has_column_range(&self, col: i64) -> (r: bool)
        ensures
            r == self.bounds().spec_has_column_range(col),
    {
        self.range().has_column_range(col)
    }

    pub fn has_row_range(&self, row: i64) -> (r: bool)
        ensures
            r == self.bounds().spec_has_row_range(row),
    {
        self.range().has_row_range(row)
    }

    pub fn contains_pos(&self, pos: Pos) -> (r: bool)
        ensures
            r == self.bounds().spec_contains_pos(pos),
    {
        self.range().contains_pos(pos)
    }
}

/// A selection: the cursor, and the ranges that are selected.
#[derive(Debug, PartialEq, Eq)]
pub struct A1Selection {
    pub sheet_id: SheetId,
    pub cursor: Pos,
    pub ranges: Vec<CellRefRange>,
}

/// What a selection holds: the sheet that it is on, the cursor and the
/// ranges.
pub struct Picked {
    pub sheet_id: SheetId,
    pub cursor: Pos,
    pub ranges: Seq<CellRefRange>,
}

/// Whether one of the ranges contains the cell.
pub open spec fn any_contains(ranges: Seq<CellRefRange>, pos: Pos) -> bool {
    exists|i: int| 0 <= i < ranges.len() && (#[trigger] ranges[i]).bounds().spec_contains_pos(pos)
}

/// Whether one of the ranges takes in the whole column.
pub open spec fn any_has_column(ranges: Seq<CellRefRange>, col: i64) -> bool {
    exists|i: int|
        0 <= i < ranges.len() && (#[trigger] ranges[i]).bounds().spec_has_column_range(col)
}

/// Whether one of the ranges takes in the whole row.
pub open spec fn any_has_row(ranges: Seq<CellRefRange>, row: i64) -> bool {
    exists|i: int| 0 <= i < ranges.len() && (#[trigger] ranges[i]).bounds().spec_has_row_range(row)
}

/// The ranges with the end of the last one moved.
pub open spec fn with_last_end(ranges: Seq<CellRefRange>, end: CellRefRangeEnd) -> Seq<
    CellRefRange,
> {
    ranges.update(
        ranges.len() - 1,
        CellRefRange::of(RefRangeBounds { start: ranges.last().bounds().start, end }),
    )
}

/// What is left of a range that takes in the column `col` when the column
/// is taken out of it.
pub open spec fn column_pieces(r: RefRangeBounds, col: i64) -> Seq<CellRefRange> {
    if r.start.col.coord == r.end.col.coord {
        Seq::empty()
    } else if r.start.col.coord == col {
        seq![CellRefRange::of(RefRangeBounds { start: CellRefRangeEnd::xy((col + 1) as i64, 1), ..r })]
    } else if r.end.col.coord == col {
        if r.start.col.coord == col - 1 {
            seq![CellRefRange::of(RefRangeBounds { end: r.start, ..r })]
        } else {
            seq![
                CellRefRange::of(
                    RefRangeBounds { end: CellRefRangeEnd::xy((col - 1) as i64, UNBOUNDED), ..r },
                ),
            ]
        }
    } else {
        seq![
            CellRefRange::columns(r.start.col.coord, (col - 1) as i64),
            if r.end.col.spec_is_unbounded() {
                CellRefRange::between((col + 1) as i64, 1, UNBOUNDED, UNBOUNDED)
            } else {
                CellRefRange::columns((col + 1) as i64, r.end.col.coord)
            },
        ]
    }
}

/// What is left of a range that takes in the row `row` when the row is
/// taken out of it.
pub open spec fn row_pieces(r: RefRangeBounds, row: i64) -> Seq<CellRefRange> {
    if r.start.row.coord == r.end.row.coord {
        Seq::empty()
    } else if r.start.row.coord == row {
        seq![CellRefRange::of(RefRangeBounds { start: CellRefRangeEnd::xy(1, (row + 1) as i64), ..r })]
    } else if r.end.row.coord == row {
        if r.start.row.coord == row - 1 {
            seq![CellRefRange::of(RefRangeBounds { end: r.start, ..r })]
        } else {
            seq![
                CellRefRange::of(
                    RefRangeBounds { end: CellRefRangeEnd::xy(UNBOUNDED, (row - 1) as i64), ..r },
                ),
            ]
        }
    } else {
        seq![
            CellRefRange::rows(r.start.row.coord, (row - 1) as i64),
            CellRefRange::of(
                RefRangeBounds { start: CellRefRangeEnd::xy(1, (row + 1) as i64), end: r.end },
            ),
        ]
    }
}

/// The first `k` ranges with the column `col` taken out of those that take
/// it in whole.
pub open spec fn without_column(ranges: Seq<CellRefRange>, col: i64, k: int) -> Seq<CellRefRange>
    decreases k,
{
    if k <= 0 || k > ranges.len() {
        Seq::empty()
    } else if ranges[k - 1].bounds().spec_has_column_range(col) {
        without_column(ranges, col, k - 1) + column_pieces(ranges[k - 1].bounds(), col)
    } else {
        without_column(ranges, col, k - 1).push(ranges[k - 1])
    }
}

/// The first `k` ranges with the row `row` taken out of those that take it
/// in whole.
pub open spec fn without_row(ranges: Seq<CellRefRange>, row: i64, k: int) -> Seq<CellRefRange>
    decreases k,
{
    if k <= 0 || k > ranges.len() {
        Seq::empty()
    } else if ranges[k - 1].bounds().spec_has_row_range(row) {
        without_row(ranges, row, k - 1) + row_pieces(ranges[k - 1].bounds(), row)
    } else {
        without_row(ranges, row, k - 1).push(ranges[k - 1])
    }
}

/// The cursor of a selection after a column or row was toggled: it stays
/// where it is if it is still selected; else it goes to the first selected
/// one of `next` and `before`, and to `next` if neither is.
pub open spec fn settled_cursor(
    ranges: Seq<CellRefRange>,
    cursor: Pos,
    next: Pos,
    before: Pos,
) -> Pos {
    if any_contains(ranges, cursor) {
        cursor
    } else if any_contains(ranges, next) {
        next
    } else if any_contains(ranges, before) {
        before
    } else {
        next
    }
}

/// A selection that would be left empty selects the cell `fallback`.
pub open spec fn never_empty(p: Picked, fallback: Pos) -> Picked {
    if p.ranges.len() == 0 {
        Picked {
            sheet_id: p.sheet_id,
            cursor: fallback,
            ranges: seq![CellRefRange::cell(fallback.x, fallback.y)],
        }
    } else {
        p
    }
}

/// The selection after the column `col` is toggled: taken out of the ranges
/// if one takes it in whole, added else.
pub open spec fn toggled_column(p: Picked, col: i64, top: i64) -> Picked {
    let toggled = if any_has_column(p.ranges, col) {
        Picked {
            sheet_id: p.sheet_id,
            cursor: p.cursor,
            ranges: without_column(p.ranges, col, p.ranges.len() as int),
        }
    } else {
        Picked {
            sheet_id: p.sheet_id,
            cursor: Pos { x: col, y: top },
            ranges: p.ranges.push(CellRefRange::column(col)),
        }
    };
    never_empty(
        Picked {
            sheet_id: p.sheet_id,
            cursor: settled_cursor(
                toggled.ranges,
                toggled.cursor,
                Pos { x: (col + 1) as i64, y: top },
                Pos { x: (col - 1) as i64, y: top },
            ),
            ranges: toggled.ranges,
        },
        Pos { x: col, y: top },
    )
}

/// The selection after the row `row` is toggled.
pub open spec fn toggled_row(p: Picked, row: i64, left: i64) -> Picked {
    let toggled = if any_has_row(p.ranges, row) {
        Picked {
            sheet_id: p.sheet_id,
            cursor: p.cursor,
            ranges: without_row(p.ranges, row, p.ranges.len() as int),
        }
    } else {
        Picked {
            sheet_id: p.sheet_id,
            cursor: Pos { x: left, y: row },
            ranges: p.ranges.push(CellRefRange::row(row)),
        }
    };
    never_empty(
        Picked {
            sheet_id: p.sheet_id,
            cursor: settled_cursor(
                toggled.ranges,
                toggled.cursor,
                Pos { x: left, y: (row + 1) as i64 },
                Pos { x: left, y: (row - 1) as i64 },
            ),
            ranges: toggled.ranges,
        },
        Pos { x: left, y: row },
    )
}

/// The selection after its last range is extended to the column `col`; a
/// selection without ranges selects the column.
pub open spec fn extended_column(p: Picked, col: i64, top: i64) -> Picked {
    if p.ranges.len() == 0 {
        Picked {
            sheet_id: p.sheet_id,
            cursor: Pos { x: col, y: top },
            ranges: seq![CellRefRange::column(col)],
        }
    } else {
        let last = p.ranges.last().bounds();
        Picked {
            sheet_id: p.sheet_id,
            cursor: if last.spec_is_column_range() {
                p.cursor
            } else {
                Pos { x: p.cursor.x, y: last.start.row.coord }
            },
            ranges: with_last_end(p.ranges, CellRefRangeEnd::xy(col, UNBOUNDED)),
        }
    }
}

/// The selection after its last range is extended to the row `row`; a
/// selection without ranges selects the row.
pub open spec fn extended_row(p: Picked, row: i64, left: i64) -> Picked {
    if p.ranges.len() == 0 {
        Picked {
            sheet_id: p.sheet_id,
            cursor: Pos { x: left, y: row },
            ranges: seq![CellRefRange::row(row)],
        }
    } else {
        let last = p.ranges.last().bounds();
        Picked {
            sheet_id: p.sheet_id,
            cursor: if last.spec_is_row_range() {
                Pos { x: last.start.col.coord, y: p.cursor.y }
            } else {
                p.cursor
            },
            ranges: with_last_end(p.ranges, CellRefRangeEnd::xy(UNBOUNDED, row)),
        }
    }
}

/// The selection after a click on the head of the column `col`.
pub open spec fn picked_column(
    p: Picked,
    col: i64,
    ctrl_key: bool,
    shift_key: bool,
    is_right_click: bool,
    top: i64,
) -> Picked {
    if is_right_click || (!ctrl_key && !shift_key) {
        Picked {
            sheet_id: p.sheet_id,
            cursor: Pos { x: col, y: top },
            ranges: seq![CellRefRange::column(col)],
        }
    } else if ctrl_key && !shift_key {
        toggled_column(p, col, top)
    } else {
        extended_column(p, col, top)
    }
}

/// The selection after a click on the head of the row `row`.
pub open spec fn picked_row(
    p: Picked,
    row: i64,
    ctrl_key: bool,
    shift_key: bool,
    is_right_click: bool,
    left: i64,
) -> Picked {
    if is_right_click || (!ctrl_key && !shift_key) {
        Picked {
            sheet_id: p.sheet_id,
            cursor: Pos { x: left, y: row },
            ranges: seq![CellRefRange::row(row)],
        }
    } else if ctrl_key && !shift_key {
        toggled_row(p, row, left)
    } else {
        extended_row(p, row, left)
    }
}

/// The range that `select_rect` adds: a single cell where the corners are
/// the same.
pub open spec fn rect_range(left: i64, top: i64, right: i64, bottom: i64) -> CellRefRange {
    CellRefRange::between(left, top, right, bottom)
}

/// The selection after its last range is extended to a cell.
pub open spec fn selected_to(p: Picked, column: i64, row: i64, append: bool) -> Picked {
    let ranges = if p.ranges.len() == 0 {
        seq![CellRefRange::cell(p.cursor.x, p.cursor.y)]
    } else {
        p.ranges
    };
    let start = ranges.last().bounds().start;
    let extended = with_last_end(ranges, CellRefRangeEnd::xy(column, row));
    Picked {
        sheet_id: p.sheet_id,
        cursor: Pos {
            x: if start.col.spec_is_unbounded() {
                column
            } else {
                p.cursor.x
            },
            y: if start.row.spec_is_unbounded() {
                row
            } else {
                p.cursor.y
            },
        },
        ranges: if append {
            extended
        } else {
            seq![extended.last()]
        },
    }
}

impl View for A1Selection {
    type V = Picked;

    open spec fn view(&self) -> Picked {
        Picked { sheet_id: self.sheet_id, cursor: self.cursor, ranges: self.ranges@ }
    }
}

impl Clone for A1Selection {
    fn clone(&self) -> (r: A1Selection)
        ensures
            r@ == self@,
            r.sheet_id == self.sheet_id,
    {
        let ranges = self.ranges.clone();
        assert(ranges@ =~= self.ranges@);
        A1Selection { sheet_id: self.sheet_id, cursor: self.cursor, ranges }
    }
}

impl A1Selection {
    /// A selection of the one cell at `pos`, with the cursor on it.
    pub fn from_pos(pos: Pos, sheet_id: SheetId) -> (r: A1Selection)
        ensures
            r@ == (Picked {
                sheet_id,
                cursor: pos,
                ranges: seq![CellRefRange::cell(pos.x, pos.y)],
            }),
            r.sheet_id == sheet_id,
    {
        let mut ranges: Vec<CellRefRange> = Vec::new();
        ranges.push(CellRefRange::new_relative_pos(pos));
        A1Selection { sheet_id, cursor: pos, ranges }
    }

    /// Whether one of the ranges contains the cell.
    pub fn contains_pos(&self, pos: Pos) -> (r: bool)
        ensures
            r == any_contains(self.ranges@, pos),
    {
        let mut i: usize = 0;
        while i < self.ranges.len()
            invariant
                i <= self.ranges.len(),
                forall|j: int|
                    0 <= j < i ==> !(#[trigger] self.ranges@[j]).bounds().spec_contains_pos(pos),
            decreases self.ranges.len() - i,
        {
            if self.ranges[i].contains_pos(pos) {
                return true;
            }
            i = i + 1;
        }
        false
    }

    /// Moves the end of the last range, which there must be.
    fn set_last_end(&mut self, end: CellRefRangeEnd)
        requires
            old(self).ranges@.len() > 0,
        ensures
            final(self).ranges@ == with_last_end(old(self).ranges@, end),
            final(self).cursor == old(self).cursor,
            final(self).sheet_id == old(self).sheet_id,
    {
        let last = self.ranges.pop().unwrap();
        let start = last.range().start;
        self.ranges.push(CellRefRange::Sheet { range: RefRangeBounds { start, end } });
        assert(self.ranges@ =~= with_last_end(old(self).ranges@, end));
    }

    /// Selects the entire sheet. With `append` the last range is extended
    /// to the end of the sheet instead.
    pub fn select_all(&mut self, append: bool)
        ensures
            final(self).cursor == old(self).cursor,
            final(self).sheet_id == old(self).sheet_id,
            final(self).ranges@ == if append {
                if old(self).ranges@.len() > 0 {
                    with_last_end(old(self).ranges@, CellRefRangeEnd::xy(UNBOUNDED, UNBOUNDED))
                } else {
                    old(self).ranges@
                }
            } else {
                seq![CellRefRange::of(RefRangeBounds::spec_all())]
            },
    {
        if append {
            if self.ranges.len() > 0 {
                self.set_last_end(RefRangeBounds::all().end);
            }
        } else {
            self.ranges.clear();
            self.ranges.push(CellRefRange::all());
        }
    }

    /// Removes a column if it is in any column ranges, or adds it if it is
    /// not.
    pub fn add_or_remove_column(&mut self, col: i64, top: i64)
        requires
            i64::MIN < col < i64::MAX,
        ensures
            final(self)@ == toggled_column(old(self)@, col, top),
            final(self).sheet_id == old(self).sheet_id,
    {
        let ghost start = self.ranges@;
        let n: usize = self.ranges.len();
        let mut found: bool = false;
        let mut ranges: Vec<CellRefRange> = Vec::new();
        let mut k: usize = 0;
        while k < n
            invariant
                k <= n,
                n == start.len(),
                self.ranges@ == start,
                i64::MIN < col < i64::MAX,
                ranges@ == without_column(start, col, k as int),
                found == (exists|i: int|
                    0 <= i < k && (#[trigger] start[i]).bounds().spec_has_column_range(col)),
            decreases n - k,
        {
            let range = self.ranges[k];
            if !range.has_column_range(col) {
                ranges.push(range);
            } else {
                found = true;
                let r = range.range();
                if r.start.col() == r.end.col() {
                    // a single column goes as a whole
                } else if r.start.col() == col {
                    ranges.push(
                        CellRefRange::Sheet {
                            range: RefRangeBounds {
                                start: CellRefRangeEnd::new_relative_xy(col + 1, 1),
                                end: r.end,
                            },
                        },
                    );
                } else if r.end.col() == col {
                    if r.start.col() == col - 1 {
                        ranges.push(
                            CellRefRange::Sheet { range: RefRangeBounds { start: r.start, end: r.start } },
                        );
                    } else {
                        ranges.push(
                            CellRefRange::Sheet {
                                range: RefRangeBounds {
                                    start: r.start,
                                    end: CellRefRangeEnd::new_relative_xy(col - 1, UNBOUNDED),
                                },
                            },
                        );
                    }
                } else {
                    let first = CellRefRange::new_relative_column_range(r.start.col(), col - 1);
                    let second = if r.end.col.is_unbounded() {
                        CellRefRange::Sheet {
                            range: RefRangeBounds {
                                start: CellRefRangeEnd::new_relative_xy(col + 1, 1),
                                end: CellRefRangeEnd::unbounded(),
                            },
                        }
                    } else {
                        CellRefRange::new_relative_column_range(col + 1, r.end.col())
                    };
                    ranges.push(first);
                    ranges.push(second);
                }
                assert(ranges@ =~= without_column(start, col, k as int) + column_pieces(
                    start[k as int].bounds(),
                    col,
                ));
            }
            k = k + 1;
        }
        if found {
            self.ranges = ranges;
        } else {
            self.ranges.push(CellRefRange::new_relative_column(col));
            self.cursor.x = col;
            self.cursor.y = top;
        }
        if !self.contains_pos(self.cursor) {
            if self.contains_pos(Pos { x: col + 1, y: top }) {
                self.cursor = Pos { x: col + 1, y: top };
            } else if self.contains_pos(Pos { x: col - 1, y: top }) {
                self.cursor = Pos { x: col - 1, y: top };
            } else {
                self.cursor = Pos { x: col + 1, y: top };
            }
        }
        if self.ranges.len() == 0 {
            self.ranges.push(CellRefRange::new_relative_xy(col, top));
            self.cursor.x = col;
            self.cursor.y = top;
        }
    }

    /// Extends the last column range or creates a new one.
    pub fn extend_column(&mut self, col: i64, top: i64)
        ensures
            final(self)@ == extended_column(old(self)@, col, top),
            final(self).sheet_id == old(self).sheet_id,
    {
        if self.ranges.len() > 0 {
            let last = self.ranges[self.ranges.len() - 1].range();
            if !last.is_column_range() {
                self.cursor.y = last.start.row();
            }
            self.set_last_end(CellRefRangeEnd::new_relative_xy(col, UNBOUNDED));
        } else {
            self.ranges.push(CellRefRange::new_relative_column(col));
            self.cursor.x = col;
            self.cursor.y = top;
        }
        assert(self.ranges@ =~= extended_column(old(self)@, col, top).ranges);
    }

    /// Removes a row if it is in any row ranges, or adds it if it is not.
    pub fn add_or_remove_row(&mut self, row: i64, left: i64)
        requires
            i64::MIN < row < i64::MAX,
        ensures
            final(self)@ == toggled_row(old(self)@, row, left),
            final(self).sheet_id == old(self).sheet_id,
    {
        let ghost start = self.ranges@;
        let n: usize = self.ranges.len();
        let mut found: bool = false;
        let mut ranges: Vec<CellRefRange> = Vec::new();
        let mut k: usize = 0;
        while k < n
            invariant
                k <= n,
                n == start.len(),
                self.ranges@ == start,
                i64::MIN < row < i64::MAX,
                ranges@ == without_row(start, row, k as int),
                found == (exists|i: int|
                    0 <= i < k && (#[trigger] start[i]).bounds().spec_has_row_range(row)),
            decreases n - k,
        {
            let range = self.ranges[k];
            if !range.has_row_range(row) {
                ranges.push(range);
            } else {
                found = true;
                let r = range.range();
                if r.start.row() == r.end.row() {
                    // a single row goes as a whole
                } else if r.start.row() == row {
                    ranges.push(
                        CellRefRange::Sheet {
                            range: RefRangeBounds {
                                start: CellRefRangeEnd::new_relative_xy(1, row + 1),
                                end: r.end,
                            },
                        },
                    );
                } else if r.end.row() == row {
                    if r.start.row() == row - 1 {
                        ranges.push(
                            CellRefRange::Sheet { range: RefRangeBounds { start: r.start, end: r.start } },
                        );
                    } else {
                        ranges.push(
                            CellRefRange::Sheet {
                                range: RefRangeBounds {
                                    start: r.start,
                                    end: CellRefRangeEnd::new_relative_xy(UNBOUNDED, row - 1),
                                },
                            },
                        );
                    }
                } else {
                    let first = CellRefRange::new_relative_row_range(r.start.row(), row - 1);
                    let second = CellRefRange::Sheet {
                        range: RefRangeBounds {
                            start: CellRefRangeEnd {
                                col: CellRefCoord::new_rel(1),
                                row: CellRefCoord::new_rel(row + 1),
                            },
                            end: r.end,
                        },
                    };
                    ranges.push(first);
                    ranges.push(second);
                }
                assert(ranges@ =~= without_row(start, row, k as int) + row_pieces(
                    start[k as int].bounds(),
                    row,
                ));
            }
            k = k + 1;
        }
        if found {
            self.ranges = ranges;
        } else {
            self.ranges.push(CellRefRange::new_relative_row(row));
            self.cursor.x = left;
            self.cursor.y = row;
        }
        if !self.contains_pos(self.cursor) {
            if self.contains_pos(Pos { x: left, y: row + 1 }) {
                self.cursor = Pos { x: left, y: row + 1 };
            } else if self.contains_pos(Pos { x: left, y: row - 1 }) {
                self.cursor = Pos { x: left, y: row - 1 };
            } else {
                self.cursor = Pos { x: left, y: row + 1 };
            }
        }
        if self.ranges.len() == 0 {
            self.ranges.push(CellRefRange::new_relative_xy(left, row));
            self.cursor.x = left;
            self.cursor.y = row;
        }
    }

    /// Selects a single column based on keyboard modifiers: alone, toggled
    /// with the control key, or as the end of the last range with the shift
    /// key. `top` is the row to put the cursor in.
    pub fn select_column(
        &mut self,
        col: i64,
        ctrl_key: bool,
        shift_key: bool,
        is_right_click: bool,
        top: i64,
    )
        requires
            ctrl_key && !shift_key && !is_right_click ==> i64::MIN < col < i64::MAX,
        ensures
            final(self)@ == picked_column(old(self)@, col, ctrl_key, shift_key, is_right_click, top),
            final(self).sheet_id == old(self).sheet_id,
    {
        if is_right_click || (!ctrl_key && !shift_key) {
            self.ranges.clear();
            self.ranges.push(CellRefRange::new_relative_column(col));
            self.cursor.x = col;
            self.cursor.y = top;
        } else if ctrl_key && !shift_key {
            self.add_or_remove_column(col, top);
        } else if shift_key {
            self.extend_column(col, top);
        }
    }

    /// Extends the last row range or creates a new one.
    pub fn extend_row(&mut self, row: i64, left: i64)
        ensures
            final(self)@ == extended_row(old(self)@, row, left),
            final(self).sheet_id == old(self).sheet_id,
    {
        if self.ranges.len() > 0 {
            let last = self.ranges[self.ranges.len() - 1].range();
            if last.is_row_range() {
                self.cursor.x = last.start.col();
            }
            self.set_last_end(
                CellRefRangeEnd { col: CellRefCoord::unbounded(), row: CellRefCoord::new_rel(row) },
            );
        } else {
            self.ranges.push(CellRefRange::new_relative_row(row));
            self.cursor.x = left;
            self.cursor.y = row;
        }
        assert(self.ranges@ =~= extended_row(old(self)@, row, left).ranges);
    }

    /// Selects a single row based on keyboard modifiers: alone, toggled with
    /// the control key, or as the end of the last range with the shift key.
    /// `left` is the column to put the cursor in.
    pub fn select_row(
        &mut self,
        row: i64,
        ctrl_key: bool,
        shift_key: bool,
        is_right_click: bool,
        left: i64,
    )
        requires
            ctrl_key && !shift_key && !is_right_click ==> i64::MIN < row < i64::MAX,
        ensures
            final(self)@ == picked_row(old(self)@, row, ctrl_key, shift_key, is_right_click, left),
            final(self).sheet_id == old(self).sheet_id,
    {
        if is_right_click || (!ctrl_key && !shift_key) {
            self.ranges.clear();
            self.ranges.push(CellRefRange::new_relative_row(row));
            self.cursor.x = left;
            self.cursor.y = row;
        } else if ctrl_key && !shift_key {
            self.add_or_remove_row(row, left);
        } else if shift_key {
            self.extend_row(row, left);
        }
    }

    /// Selects a rectangular range, alone or, with `append`, in addition to
    /// the ranges selected. The cursor goes to its first corner.
    pub fn select_rect(&mut self, left: i64, top: i64, right: i64, bottom: i64, append: bool)
        ensures
            final(self).sheet_id == old(self).sheet_id,
            final(self).cursor == (Pos { x: left, y: top }),
            final(self).ranges@ == (if append {
                old(self).ranges@
            } else {
                Seq::empty()
            }).push(rect_range(left, top, right, bottom)),
    {
        if !append {
            self.ranges.clear();
        }
        if left == right && top == bottom {
            self.ranges.push(CellRefRange::new_relative_xy(left, top));
        } else {
            self.ranges.push(
                CellRefRange::Sheet {
                    range: RefRangeBounds {
                        start: CellRefRangeEnd::new_relative_xy(left, top),
                        end: CellRefRangeEnd::new_relative_xy(right, bottom),
                    },
                },
            );
        }
        self.cursor.x = left;
        self.cursor.y = top;
    }

    /// Moves the cursor to the given position and selects that cell, alone
    /// or, with `append`, in addition to the ranges selected.
    pub fn move_to(&mut self, x: i64, y: i64, append: bool)
        ensures
            final(self).sheet_id == old(self).sheet_id,
            final(self).cursor == (Pos { x, y }),
            final(self).ranges@ == (if append {
                old(self).ranges@
            } else {
                Seq::empty()
            }).push(CellRefRange::cell(x, y)),
    {
        self.cursor.x = x;
        self.cursor.y = y;
        if !append {
            self.ranges.clear();
        }
        self.ranges.push(CellRefRange::new_relative_pos(Pos::new(x, y)));
    }

    /// Extends the last range to the given cell; a selection without ranges
    /// starts from the cursor. Without `append` only that range stays.
    pub fn select_to(&mut self, column: i64, row: i64, append: bool)
        ensures
            final(self)@ == selected_to(old(self)@, column, row, append),
            final(self).sheet_id == old(self).sheet_id,
    {
        if self.ranges.len() == 0 {
            self.ranges.push(CellRefRange::new_relative_pos(self.cursor));
        }
        let start = self.ranges[self.ranges.len() - 1].range().start;
        self.set_last_end(CellRefRangeEnd::new_relative_xy(column, row));
        if start.row.is_unbounded() {
            self.cursor.y = row;
        }
        if start.col.is_unbounded() {
            self.cursor.x = column;
        }
        if !append {
            let last = self.ranges[self.ranges.len() - 1];
            self.ranges.clear();
            self.ranges.push(last);
        }
        assert(self.ranges@ =~= selected_to(old(self)@, column, row, append).ranges);
    }

    /// Changes the selection to the whole columns of its last range.
    pub fn set_columns_selected(&mut self)
        ensures
            final(self).sheet_id == old(self).sheet_id,
            final(self).cursor == old(self).cursor,
            final(self).ranges@ == if old(self).ranges@.len() == 0 {
                old(self).ranges@
            } else {
                seq![
                    CellRefRange::columns(
                        old(self).ranges@.last().bounds().start.col.coord,
                        old(self).ranges@.last().bounds().end.col.coord,
                    ),
                ]
            },
    {
        if self.ranges.len() == 0 {
            return ;
        }
        let last = self.ranges[self.ranges.len() - 1].range();
        self.ranges.clear();
        self.ranges.push(
            CellRefRange::Sheet {
                range: RefRangeBounds {
                    start: CellRefRangeEnd::new_relative_xy(last.start.col(), 1),
                    end: CellRefRangeEnd::new_relative_xy(last.end.col(), UNBOUNDED),
                },
            },
        );
    }

    /// Changes the selection to the whole rows of its last range.
    pub fn set_rows_selected(&mut self)
        ensures
            final(self).sheet_id == old(self).sheet_id,
            final(self).cursor == old(self).cursor,
            final(self).ranges@ == if old(self).ranges@.len() == 0 {
                old(self).ranges@
            } else {
                seq![
                    CellRefRange::rows(
                        old(self).ranges@.last().bounds().start.row.coord,
                        old(self).ranges@.last().bounds().end.row.coord,
                    ),
                ]
            },
    {
        if self.ranges.len() == 0 {
            return ;
        }
        let last = self.ranges[self.ranges.len() - 1].range();
        self.ranges.clear();
        self.ranges.push(
            CellRefRange::Sheet {
                range: RefRangeBounds {
                    start: CellRefRangeEnd::new_relative_xy(1, last.start.row()),
                    end: CellRefRangeEnd::new_relative_xy(UNBOUNDED, last.end.row()),
                },
            },
        );
    }
}

} // verus!
