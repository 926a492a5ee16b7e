//! The extent of the content of a sheet, and the search along a row or a
//! column for the next cell with or without content.

use crate::controller::GridController;
use crate::grid::{has_sheet, sheet_of};
use crate::pos::{Pos, Rect, SheetId};
use crate::sheet::{output_rect, run_output_rect, spec_display_value, Sheet, SheetView};
use crate::store::value_at;
use vstd::prelude::*;

verus! {

/// The least and the greatest of a range of columns or rows.
#[derive(Clone, Copy, Debug, PartialEq, Eq, Hash, Structural)]
pub struct MinMax {
    pub min: i32,
    pub max: i32,
}

/// Whether the cell holds or shows something: a stored value, or a cell of
/// the output of a run.
pub open spec fn occupied(sheet: SheetView, pos: Pos) -> bool {
    ||| exists|i: int| 0 <= i < sheet.cells.len() && (#[trigger] sheet.cells[i]).0 == pos
    ||| exists|j: int|
        0 <= j < sheet.code_runs.len() && output_rect(
            (#[trigger] sheet.code_runs[j]).0,
            sheet.code_runs[j].1,
        ).spec_contains(pos)
}

/// The `t`-th cell of a line: of the row `line`, or of the column `line`.
pub open spec fn on_line(line: i64, t: i64, along_row: bool) -> Pos {
    if along_row {
        Pos { x: t, y: line }
    } else {
        Pos { x: line, y: t }
    }
}

/// `bounds` is the extent of what a line holds: nothing if no cell of it is
/// occupied, else the first and the last occupied cell.
pub open spec fn is_extent(
    sheet: SheetView,
    line: i64,
    along_row: bool,
    bounds: Option<(i64, i64)>,
) -> bool {
    match bounds {
        None => forall|t: i64| !occupied(sheet, #[trigger] on_line(line, t, along_row)),
        Some((lo, hi)) => {
            &&& occupied(sheet, on_line(line, lo, along_row))
            &&& occupied(sheet, on_line(line, hi, along_row))
            &&& forall|t: i64|
                occupied(sheet, #[trigger] on_line(line, t, along_row)) ==> lo <= t <= hi
        },
    }
}

/// The extent of what a line holds.
pub open spec fn extent(sheet: SheetView, line: i64, along_row: bool) -> Option<(i64, i64)> {
    choose|bounds: Option<(i64, i64)>| is_extent(sheet, line, along_row, bounds)
}

/// A line has one extent only.
pub proof fn lemma_extent(sheet: SheetView, line: i64, along_row: bool, bounds: Option<(i64, i64)>)
    requires
        is_extent(sheet, line, along_row, bounds),
    ensures
        extent(sheet, line, along_row) == bounds,
{
    let other = extent(sheet, line, along_row);
    assert(is_extent(sheet, line, along_row, other));
    match (bounds, other) {
        (Some((lo, hi)), Some((a, b))) => {
            assert(occupied(sheet, on_line(line, lo, along_row)));
            assert(occupied(sheet, on_line(line, hi, along_row)));
            assert(occupied(sheet, on_line(line, a, along_row)));
            assert(occupied(sheet, on_line(line, b, along_row)));
        },
        (Some((lo, hi)), None) => {
            assert(occupied(sheet, on_line(line, lo, along_row)));
        },
        (None, Some((a, b))) => {
            assert(occupied(sheet, on_line(line, a, along_row)));
        },
        (None, None) => {},
    }
}

/// Whether the cell shows something.
pub open spec fn has_content(sheet: SheetView, pos: Pos) -> bool {
    spec_display_value(sheet, pos) is Some
}

/// The cell that a search along a line ends at: the first cell from `t` on,
/// in the direction of the search, that shows something (or, without
/// `with_content`, nothing) while the search is within the bounds, and the
/// first cell outside the bounds else.
pub open spec fn search_line(
    sheet: SheetView,
    line: i64,
    along_row: bool,
    t: int,
    reverse: bool,
    with_content: bool,
    lo: i64,
    hi: i64,
) -> int
    decreases
            if reverse {
                t - lo + 1
            } else {
                hi - t + 1
            },
{
    if t < lo || t > hi {
        t
    } else if has_content(sheet, on_line(line, t as i64, along_row)) == with_content {
        t
    } else if reverse {
        search_line(sheet, line, along_row, t - 1, reverse, with_content, lo, hi)
    } else {
        search_line(sheet, line, along_row, t + 1, reverse, with_content, lo, hi)
    }
}

/// Where the search for the next cell ends: at the start where the line
/// holds nothing, else where `search_line` ends within the extent of the
/// line; one step past the end of the grid counts as the end of the grid.
pub open spec fn spec_find_next(
    sheet: SheetView,
    start: i64,
    line: i64,
    along_row: bool,
    reverse: bool,
    with_content: bool,
) -> i64 {
    match extent(sheet, line, along_row) {
        None => start,
        Some((lo, hi)) => {
            let t = search_line(sheet, line, along_row, start as int, reverse, with_content, lo, hi);
            if t > i64::MAX {
                i64::MAX
            } else if t < i64::MIN {
                i64::MIN
            } else {
                t as i64
            }
        },
    }
}

fn widen(bounds: Option<(i64, i64)>, from: i64, to: i64) -> (r: Option<(i64, i64)>)
    requires
        from <= to,
        bounds matches Some((lo, hi)) ==> lo <= hi,
    ensures
        r matches Some((lo, hi)) && lo <= hi && lo <= from && to <= hi && (lo == from || (
        bounds matches Some((a, _)) && a == lo)) && (hi == to || (bounds matches Some((_, b)) && b
            == hi)),
        bounds matches Some((a, b)) ==> r.unwrap().0 <= a && b <= r.unwrap().1,
{
    match bounds {
        Some((lo, hi)) => Some((if from < lo { from } else { lo }, if to > hi { to } else { hi })),
        None => Some((from, to)),
    }
}

impl Sheet {
    /// The extent of what a line holds: of the row `line`, or of the column
    /// `line`.
    pub fn line_bounds(&self, line: i64, along_row: bool) -> (r: Option<(i64, i64)>)
        ensures
            is_extent(self@, line, along_row, r),
            r == extent(self@, line, along_row),
    {
        let mut r: Option<(i64, i64)> = None;
        let mut i: usize = 0;
        while i < self.cell_count()
            invariant
                i <= self@.cells.len(),
                r matches Some((lo, hi)) ==> lo <= hi && occupied(
                    self@,
                    on_line(line, lo, along_row),
                ) && occupied(self@, on_line(line, hi, along_row)),
                forall|k: int, t: i64|
                    0 <= k < i && (#[trigger] self@.cells[k]).0 == #[trigger] on_line(
                        line,
                        t,
                        along_row,
                    ) ==> r is Some && r.unwrap().0 <= t <= r.unwrap().1,
            decreases self@.cells.len() - i,
        {
            let pos = self.cell_pos_at(i);
            let (own, across) = if along_row {
                (pos.y, pos.x)
            } else {
                (pos.x, pos.y)
            };
            if own == line {
                assert(self@.cells[i as int].0 == on_line(line, across, along_row));
                r = widen(r, across, across);
            }
            i = i + 1;
        }
        let mut j: usize = 0;
        while j < self.code_run_count()
            invariant
                j <= self@.code_runs.len(),
                r matches Some((lo, hi)) ==> lo <= hi && occupied(
                    self@,
                    on_line(line, lo, along_row),
                ) && occupied(self@, on_line(line, hi, along_row)),
                forall|k: int, t: i64|
                    0 <= k < self@.cells.len() && (#[trigger] self@.cells[k]).0
                        == #[trigger] on_line(line, t, along_row) ==> r is Some && r.unwrap().0 <= t
                        <= r.unwrap().1,
                forall|k: int, t: i64|
                    0 <= k < j && output_rect(
                        (#[trigger] self@.code_runs[k]).0,
                        self@.code_runs[k].1,
                    ).spec_contains(#[trigger] on_line(line, t, along_row)) ==> r is Some
                        && r.unwrap().0 <= t <= r.unwrap().1,
            decreases self@.code_runs.len() - j,
        {
            let rect = run_output_rect(self.code_run_pos(j), self.code_run_at_index(j));
            let (own_lo, own_hi, from, to) = if along_row {
                (rect.min.y, rect.max.y, rect.min.x, rect.max.x)
            } else {
                (rect.min.x, rect.max.x, rect.min.y, rect.max.y)
            };
            if own_lo <= line && line <= own_hi && from <= to {
                assert(rect.spec_contains(on_line(line, from, along_row)));
                assert(rect.spec_contains(on_line(line, to, along_row)));
                r = widen(r, from, to);
            }
            j = j + 1;
        }
        proof {
            assert(is_extent(self@, line, along_row, r)) by {
                assert forall|t: i64|
                    occupied(self@, #[trigger] on_line(line, t, along_row)) implies r
                    is Some && r.unwrap().0 <= t <= r.unwrap().1 by {
                    let pos = on_line(line, t, along_row);
                    if exists|i: int|
                        0 <= i < self@.cells.len() && (#[trigger] self@.cells[i]).0 == pos {
                        let i = choose|i: int|
                            0 <= i < self@.cells.len() && (#[trigger] self@.cells[i]).0 == pos;
                        assert(self@.cells[i].0 == on_line(line, t, along_row));
                    } else {
                        let k = choose|k: int|
                            0 <= k < self@.code_runs.len() && output_rect(
                                (#[trigger] self@.code_runs[k]).0,
                                self@.code_runs[k].1,
                            ).spec_contains(pos);
                        assert(output_rect(self@.code_runs[k].0, self@.code_runs[k].1).spec_contains(
                            on_line(line, t, along_row),
                        ));
                    }
                }
            }
            lemma_extent(self@, line, along_row, r);
        }
        r
    }

    /// Whether the cell shows something.
    pub fn shows_content(&self, pos: Pos) -> (r: bool)
        ensures
            r == has_content(self@, pos),
    {
        self.display_value(pos).is_some()
    }

    /// Searches along a line, from `start` on, for the next cell that shows
    /// something, or with `with_content` unset for the next that shows
    /// nothing; backwards with `reverse`.
    pub fn find_next(
        &self,
        start: i64,
        line: i64,
        along_row: bool,
        reverse: bool,
        with_content: bool,
    ) -> (r: i64)
        ensures
            r == spec_find_next(self@, start, line, along_row, reverse, with_content),
    {
        let bounds = self.line_bounds(line, along_row);
        let (lo, hi) = match bounds {
            Some(b) => b,
            None => {
                return start;
            },
        };
        let mut t: i64 = start;
        loop
            invariant
                search_line(self@, line, along_row, start as int, reverse, with_content, lo, hi)
                    == search_line(self@, line, along_row, t as int, reverse, with_content, lo, hi),
                bounds == Some((lo, hi)),
                is_extent(self@, line, along_row, bounds),
            decreases
                    if reverse {
                        t - lo + 1
                    } else {
                        hi - t + 1
                    },
        {
            if t < lo || t > hi {
                return t;
            }
            let pos = if along_row {
                Pos { x: t, y: line }
            } else {
                Pos { x: line, y: t }
            };
            if self.shows_content(pos) == with_content {
                return t;
            }
            if reverse {
                if t == i64::MIN {
                    assert(search_line(
                        self@,
                        line,
                        along_row,
                        t - 1,
                        reverse,
                        with_content,
                        lo,
                        hi,
                    ) == t - 1);
                    return t;
                }
                t = t - 1;
            } else {
                if t == i64::MAX {
                    assert(search_line(
                        self@,
                        line,
                        along_row,
                        t + 1,
                        reverse,
                        with_content,
                        lo,
                        hi,
                    ) == t + 1);
                    return t;
                }
                t = t + 1;
            }
        }
    }

    /// Finds the nearest column with or without content in a row.
    pub fn find_next_column(&self, column_start: i64, row: i64, reverse: bool, with_content: bool) -> (r:
        i64)
        ensures
            r == spec_find_next(self@, column_start, row, true, reverse, with_content),
    {
        self.find_next(column_start, row, true, reverse, with_content)
    }

    /// Finds the nearest row with or without content in a column.
    pub fn find_next_row(&self, row_start: i64, column: i64, reverse: bool, with_content: bool) -> (r:
        i64)
        ensures
            r == spec_find_next(self@, row_start, column, false, reverse, with_content),
    {
        self.find_next(row_start, column, false, reverse, with_content)
    }
}

impl GridController {
    /// Finds the nearest column with or without content in a row of a sheet;
    /// 0 where the grid has no such sheet. The column is given in 32 bits.
    pub fn js_find_next_column(
        &self,
        sheet_id: SheetId,
        column_start: i32,
        row: i32,
        reverse: bool,
        with_content: bool,
    ) -> (r: i32)
        ensures
            !has_sheet(self.grid@, sheet_id) ==> r == 0,
            has_sheet(self.grid@, sheet_id) ==> r == spec_find_next(
                sheet_of(self.grid@, sheet_id),
                column_start as i64,
                row as i64,
                true,
                reverse,
                with_content,
            ) as i32,
    {
        match self.grid.try_sheet(sheet_id) {
            Some(sheet) => {
                let found = sheet.find_next_column(
                    column_start as i64,
                    row as i64,
                    reverse,
                    with_content,
                );
                #[verifier::truncate]
                (found as i32)
            },
            None => 0,
        }
    }

    /// Finds the nearest row with or without content in a column of a
    /// sheet; 0 where the grid has no such sheet. The row is given in 32
    /// bits.
    pub fn js_find_next_row(
        &self,
        sheet_id: SheetId,
        row_start: i32,
        column: i32,
        reverse: bool,
        with_content: bool,
    ) -> (r: i32)
        ensures
            !has_sheet(self.grid@, sheet_id) ==> r == 0,
            has_sheet(self.grid@, sheet_id) ==> r == spec_find_next(
                sheet_of(self.grid@, sheet_id),
                row_start as i64,
                column as i64,
                false,
                reverse,
                with_content,
            ) as i32,
    {
        match self.grid.try_sheet(sheet_id) {
            Some(sheet) => {
                let found = sheet.find_next_row(
                    row_start as i64,
                    column as i64,
                    reverse,
                    with_content,
                );
                #[verifier::truncate]
                (found as i32)
            },
            None => 0,
        }
    }
}

/// Whether one of the rectangles contains the cell.
pub open spec fn in_pieces(pieces: Seq<Rect>, pos: Pos) -> bool {
    exists|i: int| 0 <= i < pieces.len() && (#[trigger] pieces[i]).spec_contains(pos)
}

/// The bounds are the smallest rectangle around the rectangles given, none
/// of which is empty.
pub open spec fn goes_around(bounds: Option<Rect>, pieces: Seq<Rect>) -> bool {
    &&& forall|i: int|
        0 <= i < pieces.len() ==> (#[trigger] pieces[i]).min.x <= pieces[i].max.x
            && pieces[i].min.y <= pieces[i].max.y
    &&& match bounds {
        None => pieces.len() == 0,
        Some(b) => {
            &&& forall|i: int|
                0 <= i < pieces.len() ==> b.min.x <= (#[trigger] pieces[i]).min.x
                    && pieces[i].max.x <= b.max.x && b.min.y <= pieces[i].min.y
                    && pieces[i].max.y <= b.max.y
            &&& exists|i: int| 0 <= i < pieces.len() && (#[trigger] pieces[i]).min.x == b.min.x
            &&& exists|i: int| 0 <= i < pieces.len() && (#[trigger] pieces[i]).max.x == b.max.x
            &&& exists|i: int| 0 <= i < pieces.len() && (#[trigger] pieces[i]).min.y == b.min.y
            &&& exists|i: int| 0 <= i < pieces.len() && (#[trigger] pieces[i]).max.y == b.max.y
        },
    }
}

/// Makes bounds go around one more rectangle, which is not empty.
pub(crate) fn around(
    bounds: Option<Rect>,
    r: Rect,
    Ghost(pieces): Ghost<Seq<Rect>>,
) -> (b: Option<Rect>)
    requires
        r.min.x <= r.max.x,
        r.min.y <= r.max.y,
        goes_around(bounds, pieces),
    ensures
        goes_around(b, pieces.push(r)),
{
    let ghost more = pieces.push(r);
    let b = match bounds {
        Some(a) => Some(
            Rect {
                min: Pos {
                    x: if a.min.x < r.min.x { a.min.x } else { r.min.x },
                    y: if a.min.y < r.min.y { a.min.y } else { r.min.y },
                },
                max: Pos {
                    x: if a.max.x > r.max.x { a.max.x } else { r.max.x },
                    y: if a.max.y > r.max.y { a.max.y } else { r.max.y },
                },
            },
        ),
        None => Some(r),
    };
    proof {
        let c = b.unwrap();
        let n = pieces.len() as int;
        assert(more[n] == r);
        assert forall|i: int|
            0 <= i < more.len() implies (#[trigger] more[i]).min.x <= more[i].max.x
            && more[i].min.y <= more[i].max.y && c.min.x <= more[i].min.x && more[i].max.x
            <= c.max.x && c.min.y <= more[i].min.y && more[i].max.y <= c.max.y by {
            if i < n {
                assert(more[i] == pieces[i]);
            }
        }
        match bounds {
            Some(a) => {
                let i1 = choose|i: int|
                    0 <= i < pieces.len() && (#[trigger] pieces[i]).min.x == a.min.x;
                let i2 = choose|i: int|
                    0 <= i < pieces.len() && (#[trigger] pieces[i]).max.x == a.max.x;
                let i3 = choose|i: int|
                    0 <= i < pieces.len() && (#[trigger] pieces[i]).min.y == a.min.y;
                let i4 = choose|i: int|
                    0 <= i < pieces.len() && (#[trigger] pieces[i]).max.y == a.max.y;
                assert(more[i1] == pieces[i1] && more[i2] == pieces[i2] && more[i3] == pieces[i3]
                    && more[i4] == pieces[i4]);
                let j1 = if c.min.x == r.min.x { n } else { i1 };
                let j2 = if c.max.x == r.max.x { n } else { i2 };
                let j3 = if c.min.y == r.min.y { n } else { i3 };
                let j4 = if c.max.y == r.max.y { n } else { i4 };
                assert(more[j1].min.x == c.min.x);
                assert(more[j2].max.x == c.max.x);
                assert(more[j3].min.y == c.min.y);
                assert(more[j4].max.y == c.max.y);
            },
            None => {
                assert(more[n].min.x == c.min.x && more[n].max.x == c.max.x);
                assert(more[n].min.y == c.min.y && more[n].max.y == c.max.y);
            },
        }
    }
    b
}

/// A cell is in one of the rectangles and one more if it is in one of them
/// or in that one.
pub proof fn lemma_in_pieces_push(pieces: Seq<Rect>, r: Rect, pos: Pos)
    ensures
        in_pieces(pieces.push(r), pos) == (in_pieces(pieces, pos) || r.spec_contains(pos)),
{
    let more = pieces.push(r);
    if in_pieces(pieces, pos) {
        let i = choose|i: int| 0 <= i < pieces.len() && (#[trigger] pieces[i]).spec_contains(pos);
        assert(more[i].spec_contains(pos));
    }
    if r.spec_contains(pos) {
        assert(more[pieces.len() as int].spec_contains(pos));
    }
    if in_pieces(more, pos) {
        let i = choose|i: int| 0 <= i < more.len() && (#[trigger] more[i]).spec_contains(pos);
        if i < pieces.len() {
            assert(pieces[i].spec_contains(pos));
        }
    }
}

/// Whether a cell counts for the bounds of a sheet: it holds or shows
/// something, or, unless formatting is ignored, it has a format of its own.
pub open spec fn counted(sheet: SheetView, ignore_formatting: bool, pos: Pos) -> bool {
    occupied(sheet, pos) || (!ignore_formatting && exists|i: int|
        0 <= i < sheet.formats.cells.len() && (#[trigger] sheet.formats.cells[i]).0 == pos)
}

/// `bounds` is the smallest rectangle around the cells within `within` that
/// count; none if no cell there counts.
pub open spec fn is_content_bounds(
    sheet: SheetView,
    within: Rect,
    ignore_formatting: bool,
    bounds: Option<Rect>,
) -> bool {
    match bounds {
        None => forall|pos: Pos|
            !(within.spec_contains(pos) && #[trigger] counted(sheet, ignore_formatting, pos)),
        Some(b) => {
            &&& b.min.x <= b.max.x
            &&& b.min.y <= b.max.y
            &&& forall|pos: Pos|
                within.spec_contains(pos) && #[trigger] counted(sheet, ignore_formatting, pos)
                    ==> b.spec_contains(pos)
            &&& exists|pos: Pos|
                within.spec_contains(pos) && #[trigger] counted(sheet, ignore_formatting, pos)
                    && pos.x == b.min.x
            &&& exists|pos: Pos|
                within.spec_contains(pos) && #[trigger] counted(sheet, ignore_formatting, pos)
                    && pos.x == b.max.x
            &&& exists|pos: Pos|
                within.spec_contains(pos) && #[trigger] counted(sheet, ignore_formatting, pos)
                    && pos.y == b.min.y
            &&& exists|pos: Pos|
                within.spec_contains(pos) && #[trigger] counted(sheet, ignore_formatting, pos)
                    && pos.y == b.max.y
        },
    }
}

/// Bounds that go around rectangles which together hold just the cells that
/// count are the bounds of the content.
pub proof fn lemma_content_bounds(
    sheet: SheetView,
    within: Rect,
    ignore_formatting: bool,
    bounds: Option<Rect>,
    pieces: Seq<Rect>,
)
    requires
        goes_around(bounds, pieces),
        forall|pos: Pos|
            in_pieces(pieces, pos) == (within.spec_contains(pos) && counted(
                sheet,
                ignore_formatting,
                pos,
            )),
    ensures
        is_content_bounds(sheet, within, ignore_formatting, bounds),
{
    match bounds {
        None => {
            assert forall|pos: Pos|
                !(within.spec_contains(pos) && #[trigger] counted(sheet, ignore_formatting, pos)) by {
                assert(!in_pieces(pieces, pos));
            }
        },
        Some(b) => {
            assert forall|pos: Pos|
                within.spec_contains(pos) && #[trigger] counted(
                    sheet,
                    ignore_formatting,
                    pos,
                ) implies b.spec_contains(pos) by {
                assert(in_pieces(pieces, pos));
                let i = choose|i: int|
                    0 <= i < pieces.len() && (#[trigger] pieces[i]).spec_contains(pos);
                assert(b.min.x <= pieces[i].min.x);
            }
            let i1 = choose|i: int|
                0 <= i < pieces.len() && (#[trigger] pieces[i]).min.x == b.min.x;
            let i2 = choose|i: int|
                0 <= i < pieces.len() && (#[trigger] pieces[i]).max.x == b.max.x;
            let i3 = choose|i: int|
                0 <= i < pieces.len() && (#[trigger] pieces[i]).min.y == b.min.y;
            let i4 = choose|i: int|
                0 <= i < pieces.len() && (#[trigger] pieces[i]).max.y == b.max.y;
            assert(pieces[i1].spec_contains(pieces[i1].min));
            assert(pieces[i2].spec_contains(pieces[i2].max));
            assert(pieces[i3].spec_contains(pieces[i3].min));
            assert(pieces[i4].spec_contains(pieces[i4].max));
            assert(in_pieces(pieces, pieces[i1].min));
            assert(in_pieces(pieces, pieces[i2].max));
            assert(in_pieces(pieces, pieces[i3].min));
            assert(in_pieces(pieces, pieces[i4].max));
            assert(within.spec_contains(pieces[i1].min) && counted(
                sheet,
                ignore_formatting,
                pieces[i1].min,
            ) && pieces[i1].min.x == b.min.x);
            assert(within.spec_contains(pieces[i2].max) && counted(
                sheet,
                ignore_formatting,
                pieces[i2].max,
            ) && pieces[i2].max.x == b.max.x);
            assert(within.spec_contains(pieces[i3].min) && counted(
                sheet,
                ignore_formatting,
                pieces[i3].min,
            ) && pieces[i3].min.y == b.min.y);
            assert(within.spec_contains(pieces[i4].max) && counted(
                sheet,
                ignore_formatting,
                pieces[i4].max,
            ) && pieces[i4].max.y == b.max.y);
        },
    }
}

/// The bounds of the content of a sheet within a rectangle.
pub open spec fn spec_content_bounds(sheet: SheetView, within: Rect, ignore_formatting: bool) -> Option<
    Rect,
> {
    choose|bounds: Option<Rect>| is_content_bounds(sheet, within, ignore_formatting, bounds)
}

/// Content has one bounds only.
pub proof fn lemma_content_bounds_unique(
    sheet: SheetView,
    within: Rect,
    ignore_formatting: bool,
    bounds: Option<Rect>,
)
    requires
        is_content_bounds(sheet, within, ignore_formatting, bounds),
    ensures
        spec_content_bounds(sheet, within, ignore_formatting) == bounds,
{
    let other = spec_content_bounds(sheet, within, ignore_formatting);
    assert(is_content_bounds(sheet, within, ignore_formatting, other));
    match bounds {
        Some(b) => {
            let west = choose|pos: Pos|
                within.spec_contains(pos) && #[trigger] counted(sheet, ignore_formatting, pos)
                    && pos.x == b.min.x;
            let east = choose|pos: Pos|
                within.spec_contains(pos) && #[trigger] counted(sheet, ignore_formatting, pos)
                    && pos.x == b.max.x;
            let north = choose|pos: Pos|
                within.spec_contains(pos) && #[trigger] counted(sheet, ignore_formatting, pos)
                    && pos.y == b.min.y;
            let south = choose|pos: Pos|
                within.spec_contains(pos) && #[trigger] counted(sheet, ignore_formatting, pos)
                    && pos.y == b.max.y;
            match other {
                Some(c) => {
                    let west2 = choose|pos: Pos|
                        within.spec_contains(pos) && #[trigger] counted(sheet, ignore_formatting, pos)
                            && pos.x == c.min.x;
                    let east2 = choose|pos: Pos|
                        within.spec_contains(pos) && #[trigger] counted(sheet, ignore_formatting, pos)
                            && pos.x == c.max.x;
                    let north2 = choose|pos: Pos|
                        within.spec_contains(pos) && #[trigger] counted(sheet, ignore_formatting, pos)
                            && pos.y == c.min.y;
                    let south2 = choose|pos: Pos|
                        within.spec_contains(pos) && #[trigger] counted(sheet, ignore_formatting, pos)
                            && pos.y == c.max.y;
                    assert(c.spec_contains(west) && c.spec_contains(east) && c.spec_contains(north)
                        && c.spec_contains(south));
                    assert(b.spec_contains(west2) && b.spec_contains(east2) && b.spec_contains(north2)
                        && b.spec_contains(south2));
                },
                None => {
                    assert(!(within.spec_contains(west) && counted(sheet, ignore_formatting, west)));
                },
            }
        },
        None => {
            match other {
                Some(c) => {
                    let west2 = choose|pos: Pos|
                        within.spec_contains(pos) && #[trigger] counted(sheet, ignore_formatting, pos)
                            && pos.x == c.min.x;
                    assert(!(within.spec_contains(west2) && counted(sheet, ignore_formatting, west2)));
                },
                None => {},
            }
        },
    }
}

/// The first and the last row of bounds.
pub open spec fn rows_of(bounds: Option<Rect>) -> Option<(i64, i64)> {
    match bounds {
        Some(rect) => Some((rect.min.y, rect.max.y)),
        None => None,
    }
}

/// The first and the last column of bounds.
pub open spec fn columns_of(bounds: Option<Rect>) -> Option<(i64, i64)> {
    match bounds {
        Some(rect) => Some((rect.min.x, rect.max.x)),
        None => None,
    }
}

/// Two numbers in 32 bits, the lower bits of each.
pub open spec fn min_max(bounds: Option<(i64, i64)>) -> Option<MinMax> {
    match bounds {
        Some((lo, hi)) => Some(MinMax { min: lo as i32, max: hi as i32 }),
        None => None,
    }
}

/// The whole grid.
pub open spec fn everywhere() -> Rect {
    Rect { min: Pos { x: i64::MIN, y: i64::MIN }, max: Pos { x: i64::MAX, y: i64::MAX } }
}

/// The columns from one to another, over all rows.
pub open spec fn column_band(from: i64, to: i64) -> Rect {
    Rect { min: Pos { x: from, y: i64::MIN }, max: Pos { x: to, y: i64::MAX } }
}

/// The rows from one to another, over all columns.
pub open spec fn row_band(from: i64, to: i64) -> Rect {
    Rect { min: Pos { x: i64::MIN, y: from }, max: Pos { x: i64::MAX, y: to } }
}

/// The cells that two rectangles share.
fn shared(a: Rect, b: Rect) -> (r: Rect)
    ensures
        forall|pos: Pos| r.spec_contains(pos) == (a.spec_contains(pos) && b.spec_contains(pos)),
{
    Rect {
        min: Pos {
            x: if a.min.x > b.min.x { a.min.x } else { b.min.x },
            y: if a.min.y > b.min.y { a.min.y } else { b.min.y },
        },
        max: Pos {
            x: if a.max.x < b.max.x { a.max.x } else { b.max.x },
            y: if a.max.y < b.max.y { a.max.y } else { b.max.y },
        },
    }
}

impl Sheet {
    /// The smallest rectangle around the cells within `within` that hold or
    /// show something, or, unless formatting is ignored, have a format of
    /// their own. `None` where there is no such cell.
    pub fn content_bounds(&self, within: Rect, ignore_formatting: bool) -> (r: Option<Rect>)
        ensures
            is_content_bounds(self@, within, ignore_formatting, r),
            r == spec_content_bounds(self@, within, ignore_formatting),
    {
        let mut b: Option<Rect> = None;
        let ghost mut pieces: Seq<Rect> = Seq::empty();
        let mut k: usize = 0;
        while k < self.cell_count()
            invariant
                k <= self@.cells.len(),
                goes_around(b, pieces),
                forall|pos: Pos|
                    in_pieces(pieces, pos) == (within.spec_contains(pos) && exists|j: int|
                        0 <= j < k && (#[trigger] self@.cells[j]).0 == pos),
            decreases self@.cells.len() - k,
        {
            let at = self.cell_pos_at(k);
            let ghost before = pieces;
            let picked = within.contains(at);
            if picked {
                b = around(b, Rect::single_pos(at), Ghost(pieces));
                proof {
                    pieces = pieces.push(Rect { min: at, max: at });
                }
            }
            proof {
                assert forall|pos: Pos|
                    in_pieces(pieces, pos) == (within.spec_contains(pos) && exists|j: int|
                        0 <= j < k + 1 && (#[trigger] self@.cells[j]).0 == pos) by {
                    if picked {
                        lemma_in_pieces_push(before, Rect { min: at, max: at }, pos);
                    }
                    if exists|j: int| 0 <= j < k + 1 && (#[trigger] self@.cells[j]).0 == pos {
                        let j = choose|j: int|
                            0 <= j < k + 1 && (#[trigger] self@.cells[j]).0 == pos;
                        if j < k {
                            assert(self@.cells[j].0 == pos);
                        }
                    }
                    if pos == at {
                        assert(self@.cells[k as int].0 == pos);
                    }
                }
            }
            k = k + 1;
        }
        let mut j: usize = 0;
        while j < self.code_run_count()
            invariant
                j <= self@.code_runs.len(),
                goes_around(b, pieces),
                forall|pos: Pos|
                    in_pieces(pieces, pos) == (within.spec_contains(pos) && ((exists|i: int|
                        0 <= i < self@.cells.len() && (#[trigger] self@.cells[i]).0 == pos)
                        || (exists|i: int|
                        0 <= i < j && output_rect(
                            (#[trigger] self@.code_runs[i]).0,
                            self@.code_runs[i].1,
                        ).spec_contains(pos)))),
            decreases self@.code_runs.len() - j,
        {
            let rect = run_output_rect(self.code_run_pos(j), self.code_run_at_index(j));
            let piece = shared(rect, within);
            let ghost before = pieces;
            let picked = piece.min.x <= piece.max.x && piece.min.y <= piece.max.y;
            if picked {
                b = around(b, piece, Ghost(pieces));
                proof {
                    pieces = pieces.push(piece);
                }
            }
            proof {
                assert forall|pos: Pos|
                    in_pieces(pieces, pos) == (within.spec_contains(pos) && ((exists|i: int|
                        0 <= i < self@.cells.len() && (#[trigger] self@.cells[i]).0 == pos)
                        || (exists|i: int|
                        0 <= i < j + 1 && output_rect(
                            (#[trigger] self@.code_runs[i]).0,
                            self@.code_runs[i].1,
                        ).spec_contains(pos)))) by {
                    if picked {
                        lemma_in_pieces_push(before, piece, pos);
                    }
                    if exists|i: int|
                        0 <= i < j + 1 && output_rect(
                            (#[trigger] self@.code_runs[i]).0,
                            self@.code_runs[i].1,
                        ).spec_contains(pos) {
                        let i = choose|i: int|
                            0 <= i < j + 1 && output_rect(
                                (#[trigger] self@.code_runs[i]).0,
                                self@.code_runs[i].1,
                            ).spec_contains(pos);
                        if i < j {
                            assert(output_rect(self@.code_runs[i].0, self@.code_runs[i].1).spec_contains(
                                pos,
                            ));
                        }
                    }
                    if rect.spec_contains(pos) {
                        assert(output_rect(
                            self@.code_runs[j as int].0,
                            self@.code_runs[j as int].1,
                        ).spec_contains(pos));
                    }
                }
            }
            j = j + 1;
        }
        let formatting = self.formatting();
        let mut f: usize = 0;
        let count: usize = if ignore_formatting {
            0
        } else {
            formatting.cell_count()
        };
        while f < count
            invariant
                f <= count,
                formatting@ == self@.formats,
                count == if ignore_formatting {
                    0
                } else {
                    self@.formats.cells.len()
                },
                goes_around(b, pieces),
                forall|pos: Pos|
                    in_pieces(pieces, pos) == (within.spec_contains(pos) && (occupied(self@, pos) || (
                    exists|i: int| 0 <= i < f && (#[trigger] self@.formats.cells[i]).0 == pos))),
            decreases count - f,
        {
            let at = formatting.cell_pos_at(f);
            let ghost before = pieces;
            let picked = within.contains(at);
            if picked {
                b = around(b, Rect::single_pos(at), Ghost(pieces));
                proof {
                    pieces = pieces.push(Rect { min: at, max: at });
                }
            }
            proof {
                assert forall|pos: Pos|
                    in_pieces(pieces, pos) == (within.spec_contains(pos) && (occupied(self@, pos) || (
                    exists|i: int|
                        0 <= i < f + 1 && (#[trigger] self@.formats.cells[i]).0 == pos))) by {
                    if picked {
                        lemma_in_pieces_push(before, Rect { min: at, max: at }, pos);
                    }
                    if exists|i: int|
                        0 <= i < f + 1 && (#[trigger] self@.formats.cells[i]).0 == pos {
                        let i = choose|i: int|
                            0 <= i < f + 1 && (#[trigger] self@.formats.cells[i]).0 == pos;
                        if i < f {
                            assert(self@.formats.cells[i].0 == pos);
                        }
                    }
                    if pos == at {
                        assert(self@.formats.cells[f as int].0 == pos);
                    }
                }
            }
            f = f + 1;
        }
        proof {
            assert forall|pos: Pos|
                in_pieces(pieces, pos) == (within.spec_contains(pos) && counted(
                    self@,
                    ignore_formatting,
                    pos,
                )) by {
                if !ignore_formatting {
                    let formatted = exists|i: int|
                        0 <= i < self@.formats.cells.len() && (#[trigger] self@.formats.cells[i]).0
                            == pos;
                    assert(counted(self@, ignore_formatting, pos) == (occupied(self@, pos)
                        || formatted));
                }
            }
            lemma_content_bounds(self@, within, ignore_formatting, b, pieces);
            lemma_content_bounds_unique(self@, within, ignore_formatting, b);
        }
        b
    }

    /// The bounds of the content of the sheet.
    pub fn bounds(&self, ignore_formatting: bool) -> (r: Option<Rect>)
        ensures
            is_content_bounds(self@, everywhere(), ignore_formatting, r),
            r == spec_content_bounds(self@, everywhere(), ignore_formatting),
    {
        self.content_bounds(
            Rect { min: Pos { x: i64::MIN, y: i64::MIN }, max: Pos { x: i64::MAX, y: i64::MAX } },
            ignore_formatting,
        )
    }

    /// The first and the last row with content in the columns from one to
    /// another.
    pub fn columns_bounds(&self, column_start: i64, column_end: i64, ignore_formatting: bool) -> (r:
        Option<(i64, i64)>)
        ensures
            r == rows_of(
                spec_content_bounds(self@, column_band(column_start, column_end), ignore_formatting),
            ),
    {
        let b = self.content_bounds(
            Rect {
                min: Pos { x: column_start, y: i64::MIN },
                max: Pos { x: column_end, y: i64::MAX },
            },
            ignore_formatting,
        );
        match b {
            Some(rect) => Some((rect.min.y, rect.max.y)),
            None => None,
        }
    }

    /// The first and the last column with content in the rows from one to
    /// another.
    pub fn rows_bounds(&self, row_start: i64, row_end: i64, ignore_formatting: bool) -> (r: Option<
        (i64, i64),
    >)
        ensures
            r == columns_of(
                spec_content_bounds(self@, row_band(row_start, row_end), ignore_formatting),
            ),
    {
        let b = self.content_bounds(
            Rect { min: Pos { x: i64::MIN, y: row_start }, max: Pos { x: i64::MAX, y: row_end } },
            ignore_formatting,
        );
        match b {
            Some(rect) => Some((rect.min.x, rect.max.x)),
            None => None,
        }
    }
}

impl GridController {
    /// The bounds of the content of a sheet. `Err` where the grid has no
    /// such sheet; `Ok(None)` where the sheet has no content.
    pub fn get_grid_bounds(&self, sheet_id: SheetId, ignore_formatting: bool) -> (r: Result<
        Option<Rect>,
        (),
    >)
        ensures
            r is Ok == has_sheet(self.grid@, sheet_id),
            r matches Ok(b) ==> b == spec_content_bounds(
                sheet_of(self.grid@, sheet_id),
                everywhere(),
                ignore_formatting,
            ),
    {
        match self.grid.try_sheet(sheet_id) {
            Some(sheet) => Ok(sheet.bounds(ignore_formatting)),
            None => Err(()),
        }
    }

    /// The first and the last row with content in the columns from one to
    /// another of a sheet, in 32 bits. `None` where the grid has no such
    /// sheet, and where the columns have no content.
    pub fn get_columns_bounds(
        &self,
        sheet_id: SheetId,
        column_start: i32,
        column_end: i32,
        ignore_formatting: bool,
    ) -> (r: Option<MinMax>)
        ensures
            !has_sheet(self.grid@, sheet_id) ==> r is None,
            has_sheet(self.grid@, sheet_id) ==> r == min_max(
                rows_of(
                    spec_content_bounds(
                        sheet_of(self.grid@, sheet_id),
                        column_band(column_start as i64, column_end as i64),
                        ignore_formatting,
                    ),
                ),
            ),
    {
        match self.grid.try_sheet(sheet_id) {
            Some(sheet) => match sheet.columns_bounds(
                column_start as i64,
                column_end as i64,
                ignore_formatting,
            ) {
                Some(bounds) => Some(
                    MinMax {
                        min: #[verifier::truncate]
                        (bounds.0 as i32),
                        max: #[verifier::truncate]
                        (bounds.1 as i32),
                    },
                ),
                None => None,
            },
            None => None,
        }
    }

    /// The first and the last column with content in the rows from one to
    /// another of a sheet, in 32 bits. `None` where the grid has no such
    /// sheet, and where the rows have no content.
    pub fn get_rows_bounds(
        &self,
        sheet_id: SheetId,
        row_start: i32,
        row_end: i32,
        ignore_formatting: bool,
    ) -> (r: Option<MinMax>)
        ensures
            !has_sheet(self.grid@, sheet_id) ==> r is None,
            has_sheet(self.grid@, sheet_id) ==> r == min_max(
                columns_of(
                    spec_content_bounds(
                        sheet_of(self.grid@, sheet_id),
                        row_band(row_start as i64, row_end as i64),
                        ignore_formatting,
                    ),
                ),
            ),
    {
        match self.grid.try_sheet(sheet_id) {
            Some(sheet) => match sheet.rows_bounds(row_start as i64, row_end as i64, ignore_formatting) {
                Some(bounds) => Some(
                    MinMax {
                        min: #[verifier::truncate]
                        (bounds.0 as i32),
                        max: #[verifier::truncate]
                        (bounds.1 as i32),
                    },
                ),
                None => None,
            },
            None => None,
        }
    }
}

} // verus!
