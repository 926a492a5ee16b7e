//! The export of selected values as comma-separated text.

use crate::bounds::{around, goes_around, in_pieces, lemma_in_pieces_push};
use crate::controller::GridController;
use crate::grid::{has_sheet, sheet_of};
use crate::pos::{Pos, Rect};
use crate::selection::{listed, Selection, SelectionView};
use crate::sheet::{spec_display_value, Sheet, SheetView};
use crate::values::{spec_to_edit, CellValue, CellValueView};
use vstd::prelude::*;

verus! {

/// A `csv::Writer` that writes into a buffer in memory.
#[verifier::external_body]
pub struct CsvWriter {
    inner: csv::Writer<Vec<u8>>,
}

/// The records that a writer has been given so far, each a list of fields.
pub uninterp spec fn csv_records(writer: CsvWriter) -> Seq<Seq<Seq<char>>>;

/// The text that the records make when they are written out.
pub uninterp spec fn csv_text(records: Seq<Seq<Seq<char>>>) -> Seq<char>;

/// Calls `csv::Writer::from_writer` on an empty buffer: a writer with the
/// default settings, which has been given no record.
#[verifier::external_body]
fn csv_writer() -> (w: CsvWriter)
    ensures
        csv_records(w) == Seq::<Seq<Seq<char>>>::empty(),
{
    CsvWriter { inner: csv::Writer::from_writer(vec![]) }
}

/// Calls `csv::Writer::write_record` on a writer with the default settings,
/// which takes the first record whatever it holds, and each later one if it
/// has as many fields as the first. A writer that took the record comes back
/// with one more record; one that refused it is given up.
#[verifier::external_body]
fn csv_write_record(w: CsvWriter, record: &Vec<String>) -> (r: Option<CsvWriter>)
    ensures
        r is Some == (csv_records(w).len() == 0 || record@.len() == csv_records(w)[0].len()),
        r matches Some(after) ==> csv_records(after) == csv_records(w).push(record.deep_view()),
{
    let mut w = w;
    match w.inner.write_record(record) {
        Ok(()) => Some(w),
        Err(_) => None,
    }
}

/// Calls `csv::Writer::into_inner` and reads the buffer as text with
/// `String::from_utf8`. Writing into memory does not fail, and what is
/// written from strings is text, so there is always a text; it depends on
/// the records alone.
#[verifier::external_body]
fn csv_finish(w: CsvWriter) -> (r: Option<String>)
    ensures
        r is Some,
        r matches Some(text) ==> text@ == csv_text(csv_records(w)),
{
    match w.inner.into_inner() {
        Ok(bytes) => String::from_utf8(bytes).ok(),
        Err(_) => None,
    }
}

/// Why nothing was exported.
#[derive(Clone, Copy, Debug, PartialEq, Eq, Structural)]
pub enum ExportError {
    /// The grid has no sheet of the selection.
    SheetNotFound,
    /// Nothing that is selected holds or shows a value.
    NoValues,
    /// The records could not be written: they do not all have as many
    /// fields as the first.
    Write,
}

impl ExportError {
    /// The message of the error.
    pub fn message(&self) -> (r: &'static str)
        ensures
            r@ == (match self {
                ExportError::SheetNotFound => "Sheet not found"@,
                ExportError::NoValues => "No values"@,
                ExportError::Write => "Records could not be written"@,
            }),
    {
        match self {
            ExportError::SheetNotFound => "Sheet not found",
            ExportError::NoValues => "No values",
            ExportError::Write => "Records could not be written",
        }
    }
}

/// Whether a cell is exported: with rectangles every cell of the bounds is,
/// else the cells that are selected.
pub open spec fn exported(selection: SelectionView, pos: Pos) -> bool {
    selection.rects is Some || selection.contains(pos)
}

/// The text of a cell in the export: what the cell shows, as it is edited.
pub open spec fn field_text(sheet: SheetView, pos: Pos) -> Seq<char> {
    match spec_display_value(sheet, pos) {
        Some(v) => spec_to_edit(v),
        None => Seq::empty(),
    }
}

/// The fields of the first `k` columns of a row of the bounds.
pub open spec fn line(sheet: SheetView, selection: SelectionView, bounds: Rect, y: i64, k: int) -> Seq<
    Seq<char>,
>
    decreases k,
{
    if k <= 0 || bounds.min.x + k - 1 > bounds.max.x {
        Seq::empty()
    } else {
        let pos = Pos { x: (bounds.min.x + k - 1) as i64, y };
        if exported(selection, pos) {
            line(sheet, selection, bounds, y, k - 1).push(field_text(sheet, pos))
        } else {
            line(sheet, selection, bounds, y, k - 1)
        }
    }
}

/// The records of the first `k` rows of the bounds: one for each row that
/// has a field.
pub open spec fn lines(sheet: SheetView, selection: SelectionView, bounds: Rect, k: int) -> Seq<
    Seq<Seq<char>>,
>
    decreases k,
{
    if k <= 0 || bounds.min.y + k - 1 > bounds.max.y {
        Seq::empty()
    } else {
        let y = (bounds.min.y + k - 1) as i64;
        let fields = line(sheet, selection, bounds, y, bounds.max.x - bounds.min.x + 1);
        if fields.len() > 0 {
            lines(sheet, selection, bounds, k - 1).push(fields)
        } else {
            lines(sheet, selection, bounds, k - 1)
        }
    }
}

/// The bounds of an export: the smallest rectangle around the rectangles of
/// the selection, where it has any; else around the cells that hold or show
/// something, of the whole sheet or of the columns and rows selected.
pub open spec fn is_export_bounds(
    sheet: SheetView,
    selection: SelectionView,
    bounds: Option<Rect>,
) -> bool {
    match bounds {
        None => forall|pos: Pos| !bounded(sheet, selection, pos),
        Some(b) => {
            &&& forall|pos: Pos| bounded(sheet, selection, pos) ==> b.spec_contains(pos)
            &&& exists|pos: Pos| bounded(sheet, selection, pos) && pos.x == b.min.x
            &&& exists|pos: Pos| bounded(sheet, selection, pos) && pos.x == b.max.x
            &&& exists|pos: Pos| bounded(sheet, selection, pos) && pos.y == b.min.y
            &&& exists|pos: Pos| bounded(sheet, selection, pos) && pos.y == b.max.y
        },
    }
}

/// The cells that the bounds of an export go around.
pub open spec fn bounded(sheet: SheetView, selection: SelectionView, pos: Pos) -> bool {
    match selection.rects {
        Some(rects) => exists|i: int|
            0 <= i < rects.len() && (#[trigger] rects[i]).spec_contains(pos),
        None => selection.contains(pos) && crate::bounds::occupied(sheet, pos),
    }
}

/// Bounds that go around rectangles which together hold just the cells to
/// be bounded are the bounds of the export.
pub proof fn lemma_bounds(
    sheet: SheetView,
    selection: SelectionView,
    bounds: Option<Rect>,
    pieces: Seq<Rect>,
)
    requires
        goes_around(bounds, pieces),
        forall|pos: Pos| in_pieces(pieces, pos) == bounded(sheet, selection, pos),
    ensures
        is_export_bounds(sheet, selection, bounds),
{
    match bounds {
        None => {
            assert forall|pos: Pos| !bounded(sheet, selection, pos) by {
                assert(!in_pieces(pieces, pos));
            }
        },
        Some(b) => {
            assert forall|pos: Pos| bounded(sheet, selection, pos) implies b.spec_contains(pos) by {
                assert(in_pieces(pieces, pos));
                let i = choose|i: int|
                    0 <= i < pieces.len() && (#[trigger] pieces[i]).spec_contains(pos);
                assert(b.min.x <= pieces[i].min.x);
            }
            let i1 = choose|i: int|
                0 <= i < pieces.len() && (#[trigger] pieces[i]).min.x == b.min.x;
            let i2 = choose|i: int|
                0 <= i < pieces.len() && (#[trigger] pieces[i]).max.x == b.max.x;
            let i3 = choose|i: int|
                0 <= i < pieces.len() && (#[trigger] pieces[i]).min.y == b.min.y;
            let i4 = choose|i: int|
                0 <= i < pieces.len() && (#[trigger] pieces[i]).max.y == b.max.y;
            assert(pieces[i1].spec_contains(pieces[i1].min));
            assert(pieces[i2].spec_contains(pieces[i2].max));
            assert(pieces[i3].spec_contains(pieces[i3].min));
            assert(pieces[i4].spec_contains(pieces[i4].max));
            assert(in_pieces(pieces, pieces[i1].min));
            assert(in_pieces(pieces, pieces[i2].max));
            assert(in_pieces(pieces, pieces[i3].min));
            assert(in_pieces(pieces, pieces[i4].max));
            assert(bounded(sheet, selection, pieces[i1].min) && pieces[i1].min.x == b.min.x);
            assert(bounded(sheet, selection, pieces[i2].max) && pieces[i2].max.x == b.max.x);
            assert(bounded(sheet, selection, pieces[i3].min) && pieces[i3].min.y == b.min.y);
            assert(bounded(sheet, selection, pieces[i4].max) && pieces[i4].max.y == b.max.y);
        },
    }
}

/// The part of a rectangle that is selected, cell by cell, is held by the
/// rectangles given together with the first `ci` columns and the first `ri`
/// rows of the selection, cut out of the rectangle.
pub open spec fn selected_part(
    selection: SelectionView,
    rect: Rect,
    pos: Pos,
    ci: int,
    ri: int,
) -> bool {
    rect.spec_contains(pos) && (selection.all || (exists|c: int|
        0 <= c < ci && #[trigger] listed(selection.columns)[c] == pos.x) || (exists|r: int|
        0 <= r < ri && #[trigger] listed(selection.rows)[r] == pos.y))
}

impl Sheet {
    /// Makes bounds go around the part of a rectangle that is selected.
    fn bound_selected(
        &self,
        selection: &Selection,
        rect: Rect,
        bounds: Option<Rect>,
        Ghost(pieces): Ghost<Seq<Rect>>,
    ) -> (r: (Option<Rect>, Ghost<Seq<Rect>>))
        requires
            selection.rects is None,
            rect.min.x <= rect.max.x,
            rect.min.y <= rect.max.y,
            goes_around(bounds, pieces),
        ensures
            goes_around(r.0, r.1@),
            forall|pos: Pos|
                in_pieces(r.1@, pos) == (in_pieces(pieces, pos) || (rect.spec_contains(pos)
                    && selection@.contains(pos))),
    {
        let mut b = bounds;
        let ghost mut all_pieces = pieces;
        if selection.all {
            b = around(b, rect, Ghost(all_pieces));
            proof {
                all_pieces = all_pieces.push(rect);
                assert forall|pos: Pos|
                    in_pieces(all_pieces, pos) == (in_pieces(pieces, pos) || (rect.spec_contains(pos)
                        && selection@.contains(pos))) by {
                    lemma_in_pieces_push(pieces, rect, pos);
                }
            }
            return (b, Ghost(all_pieces));
        }
        let ghost sel = selection@;
        match &selection.columns {
            Some(columns) => {
                let mut ci: usize = 0;
                while ci < columns.len()
                    invariant
                        ci <= columns.len(),
                        listed(sel.columns) == columns@,
                        sel == selection@,
                        !sel.all,
                        rect.min.x <= rect.max.x,
                        rect.min.y <= rect.max.y,
                        goes_around(b, all_pieces),
                        forall|pos: Pos|
                            in_pieces(all_pieces, pos) == (in_pieces(pieces, pos) || selected_part(
                                sel,
                                rect,
                                pos,
                                ci as int,
                                0,
                            )),
                    decreases columns.len() - ci,
                {
                    let c = columns[ci];
                    let ghost before = all_pieces;
                    if rect.min.x <= c && c <= rect.max.x {
                        let piece = Rect {
                            min: Pos { x: c, y: rect.min.y },
                            max: Pos { x: c, y: rect.max.y },
                        };
                        b = around(b, piece, Ghost(all_pieces));
                        proof {
                            all_pieces = all_pieces.push(piece);
                        }
                    }
                    proof {
                        assert forall|pos: Pos|
                            in_pieces(all_pieces, pos) == (in_pieces(pieces, pos) || selected_part(
                                sel,
                                rect,
                                pos,
                                ci + 1,
                                0,
                            )) by {
                            if rect.min.x <= c && c <= rect.max.x {
                                lemma_in_pieces_push(
                                    before,
                                    Rect {
                                        min: Pos { x: c, y: rect.min.y },
                                        max: Pos { x: c, y: rect.max.y },
                                    },
                                    pos,
                                );
                            }
                            if selected_part(sel, rect, pos, ci + 1, 0) && !selected_part(
                                sel,
                                rect,
                                pos,
                                ci as int,
                                0,
                            ) {
                                let k = choose|k: int|
                                    0 <= k < ci + 1 && #[trigger] listed(sel.columns)[k] == pos.x;
                                assert(k == ci);
                            }
                            if rect.spec_contains(pos) && pos.x == c {
                                assert(listed(sel.columns)[ci as int] == pos.x);
                            }
                        }
                    }
                    ci = ci + 1;
                }
            },
            None => {},
        }
        let ghost with_columns = all_pieces;
        let ghost cn = listed(sel.columns).len() as int;
        match &selection.rows {
            Some(rows) => {
                let mut ri: usize = 0;
                while ri < rows.len()
                    invariant
                        ri <= rows.len(),
                        listed(sel.rows) == rows@,
                        sel == selection@,
                        !sel.all,
                        cn == listed(sel.columns).len(),
                        rect.min.x <= rect.max.x,
                        rect.min.y <= rect.max.y,
                        goes_around(b, all_pieces),
                        forall|pos: Pos|
                            in_pieces(all_pieces, pos) == (in_pieces(pieces, pos) || selected_part(
                                sel,
                                rect,
                                pos,
                                cn,
                                ri as int,
                            )),
                    decreases rows.len() - ri,
                {
                    let r = rows[ri];
                    let ghost before = all_pieces;
                    if rect.min.y <= r && r <= rect.max.y {
                        let piece = Rect {
                            min: Pos { x: rect.min.x, y: r },
                            max: Pos { x: rect.max.x, y: r },
                        };
                        b = around(b, piece, Ghost(all_pieces));
                        proof {
                            all_pieces = all_pieces.push(piece);
                        }
                    }
                    proof {
                        assert forall|pos: Pos|
                            in_pieces(all_pieces, pos) == (in_pieces(pieces, pos) || selected_part(
                                sel,
                                rect,
                                pos,
                                cn,
                                ri + 1,
                            )) by {
                            if rect.min.y <= r && r <= rect.max.y {
                                lemma_in_pieces_push(
                                    before,
                                    Rect {
                                        min: Pos { x: rect.min.x, y: r },
                                        max: Pos { x: rect.max.x, y: r },
                                    },
                                    pos,
                                );
                            }
                            if selected_part(sel, rect, pos, cn, ri + 1) && !selected_part(
                                sel,
                                rect,
                                pos,
                                cn,
                                ri as int,
                            ) {
                                let k = choose|k: int|
                                    0 <= k < ri + 1 && #[trigger] listed(sel.rows)[k] == pos.y;
                                assert(k == ri);
                            }
                            if rect.spec_contains(pos) && pos.y == r {
                                assert(listed(sel.rows)[ri as int] == pos.y);
                            }
                        }
                    }
                    ri = ri + 1;
                }
            },
            None => {},
        }
        proof {
            let rn = listed(sel.rows).len() as int;
            assert forall|pos: Pos|
                in_pieces(all_pieces, pos) == (in_pieces(pieces, pos) || (rect.spec_contains(pos)
                    && sel.contains(pos))) by {
                assert(selected_part(sel, rect, pos, cn, rn) == (rect.spec_contains(pos)
                    && sel.contains(pos))) by {
                    if listed(sel.columns).contains(pos.x) {
                        let c = choose|c: int|
                            0 <= c < listed(sel.columns).len() && listed(sel.columns)[c] == pos.x;
                        assert(listed(sel.columns)[c] == pos.x);
                    }
                    if listed(sel.rows).contains(pos.y) {
                        let r = choose|r: int|
                            0 <= r < listed(sel.rows).len() && listed(sel.rows)[r] == pos.y;
                        assert(listed(sel.rows)[r] == pos.y);
                    }
                }
            }
        }
        (b, Ghost(all_pieces))
    }

    /// The bounds of an export of the selection: the smallest rectangle
    /// around its rectangles, where it has any; else around the cells that
    /// hold or show something, of the whole sheet or of the columns and rows
    /// selected. `None` where there is nothing to go around.
    pub fn selection_bounds(&self, selection: &Selection) -> (r: Option<Rect>)
        ensures
            is_export_bounds(self@, selection@, r),
    {
        let mut b: Option<Rect> = None;
        let ghost mut pieces: Seq<Rect> = Seq::empty();
        match &selection.rects {
            Some(rects) => {
                let mut i: usize = 0;
                while i < rects.len()
                    invariant
                        i <= rects.len(),
                        selection@.rects == Some(rects@),
                        goes_around(b, pieces),
                        forall|pos: Pos|
                            in_pieces(pieces, pos) == (exists|j: int|
                                0 <= j < i && (#[trigger] rects@[j]).spec_contains(pos)),
                    decreases rects.len() - i,
                {
                    let rect = rects[i];
                    let ghost before = pieces;
                    if rect.min.x <= rect.max.x && rect.min.y <= rect.max.y {
                        b = around(b, rect, Ghost(pieces));
                        proof {
                            pieces = pieces.push(rect);
                        }
                    }
                    proof {
                        assert forall|pos: Pos|
                            in_pieces(pieces, pos) == (exists|j: int|
                                0 <= j < i + 1 && (#[trigger] rects@[j]).spec_contains(pos)) by {
                            if rect.min.x <= rect.max.x && rect.min.y <= rect.max.y {
                                lemma_in_pieces_push(before, rect, pos);
                            }
                            if exists|j: int|
                                0 <= j < i + 1 && (#[trigger] rects@[j]).spec_contains(pos) {
                                let j = choose|j: int|
                                    0 <= j < i + 1 && (#[trigger] rects@[j]).spec_contains(pos);
                                if j < i {
                                    assert(rects@[j].spec_contains(pos));
                                }
                            }
                            if rect.spec_contains(pos) {
                                assert(rects@[i as int].spec_contains(pos));
                            }
                        }
                    }
                    i = i + 1;
                }
                proof {
                    assert forall|pos: Pos|
                        in_pieces(pieces, pos) == bounded(self@, selection@, pos) by {
                        let inside = exists|j: int|
                            0 <= j < rects@.len() && (#[trigger] rects@[j]).spec_contains(pos);
                        assert(in_pieces(pieces, pos) == inside);
                        assert(selection@.rects == Some(rects@));
                        if inside {
                            let j = choose|j: int|
                                0 <= j < rects@.len() && (#[trigger] rects@[j]).spec_contains(pos);
                            assert(selection@.rects.unwrap()[j].spec_contains(pos));
                        }
                        if bounded(self@, selection@, pos) {
                            let j = choose|j: int|
                                0 <= j < selection@.rects.unwrap().len() && (
                                #[trigger] selection@.rects.unwrap()[j]).spec_contains(pos);
                            assert(rects@[j].spec_contains(pos));
                        }
                    }
                    lemma_bounds(self@, selection@, b, pieces);
                }
            },
            None => {
                let mut k: usize = 0;
                while k < self.cell_count()
                    invariant
                        k <= self@.cells.len(),
                        selection@.rects is None,
                        goes_around(b, pieces),
                        forall|pos: Pos|
                            in_pieces(pieces, pos) == (selection@.contains(pos) && exists|j: int|
                                0 <= j < k && (#[trigger] self@.cells[j]).0 == pos),
                    decreases self@.cells.len() - k,
                {
                    let at = self.cell_pos_at(k);
                    let ghost before = pieces;
                    let picked = selection.pos_in_selection(at);
                    if picked {
                        b = around(b, Rect::single_pos(at), Ghost(pieces));
                        proof {
                            pieces = pieces.push(Rect { min: at, max: at });
                        }
                    }
                    proof {
                        assert forall|pos: Pos|
                            in_pieces(pieces, pos) == (selection@.contains(pos) && exists|j: int|
                                0 <= j < k + 1 && (#[trigger] self@.cells[j]).0 == pos) by {
                            if picked {
                                lemma_in_pieces_push(before, Rect { min: at, max: at }, pos);
                            }
                            if exists|j: int|
                                0 <= j < k + 1 && (#[trigger] self@.cells[j]).0 == pos {
                                let j = choose|j: int|
                                    0 <= j < k + 1 && (#[trigger] self@.cells[j]).0 == pos;
                                if j < k {
                                    assert(self@.cells[j].0 == pos);
                                }
                            }
                            if pos == at {
                                assert(self@.cells[k as int].0 == pos);
                            }
                        }
                    }
                    k = k + 1;
                }
                let mut j: usize = 0;
                while j < self.code_run_count()
                    invariant
                        j <= self@.code_runs.len(),
                        selection@.rects is None,
                        goes_around(b, pieces),
                        forall|pos: Pos|
                            in_pieces(pieces, pos) == (selection@.contains(pos) && ((exists|i: int|
                                0 <= i < self@.cells.len() && (#[trigger] self@.cells[i]).0 == pos)
                                || (exists|i: int|
                                0 <= i < j && crate::sheet::output_rect(
                                    (#[trigger] self@.code_runs[i]).0,
                                    self@.code_runs[i].1,
                                ).spec_contains(pos)))),
                    decreases self@.code_runs.len() - j,
                {
                    let rect = crate::sheet::run_output_rect(
                        self.code_run_pos(j),
                        self.code_run_at_index(j),
                    );
                    let ghost before = pieces;
                    if rect.min.x <= rect.max.x && rect.min.y <= rect.max.y {
                        let (nb, np) = self.bound_selected(selection, rect, b, Ghost(pieces));
                        b = nb;
                        proof {
                            pieces = np@;
                        }
                    }
                    proof {
                        assert forall|pos: Pos|
                            in_pieces(pieces, pos) == (selection@.contains(pos) && ((exists|i: int|
                                0 <= i < self@.cells.len() && (#[trigger] self@.cells[i]).0 == pos)
                                || (exists|i: int|
                                0 <= i < j + 1 && crate::sheet::output_rect(
                                    (#[trigger] self@.code_runs[i]).0,
                                    self@.code_runs[i].1,
                                ).spec_contains(pos)))) by {
                            if exists|i: int|
                                0 <= i < j + 1 && crate::sheet::output_rect(
                                    (#[trigger] self@.code_runs[i]).0,
                                    self@.code_runs[i].1,
                                ).spec_contains(pos) {
                                let i = choose|i: int|
                                    0 <= i < j + 1 && crate::sheet::output_rect(
                                        (#[trigger] self@.code_runs[i]).0,
                                        self@.code_runs[i].1,
                                    ).spec_contains(pos);
                                if i < j {
                                    assert(crate::sheet::output_rect(
                                        self@.code_runs[i].0,
                                        self@.code_runs[i].1,
                                    ).spec_contains(pos));
                                }
                            }
                            if rect.spec_contains(pos) {
                                assert(crate::sheet::output_rect(
                                    self@.code_runs[j as int].0,
                                    self@.code_runs[j as int].1,
                                ).spec_contains(pos));
                            }
                        }
                    }
                    j = j + 1;
                }
                proof {
                    assert forall|pos: Pos|
                        in_pieces(pieces, pos) == bounded(self@, selection@, pos) by {
                        let stored = exists|i: int|
                            0 <= i < self@.cells.len() && (#[trigger] self@.cells[i]).0 == pos;
                        let shown = exists|i: int|
                            0 <= i < self@.code_runs.len() && crate::sheet::output_rect(
                                (#[trigger] self@.code_runs[i]).0,
                                self@.code_runs[i].1,
                            ).spec_contains(pos);
                        assert(crate::bounds::occupied(self@, pos) == (stored || shown));
                        assert(in_pieces(pieces, pos) == (selection@.contains(pos) && (stored
                            || shown)));
                    }
                    lemma_bounds(self@, selection@, b, pieces);
                }
            },
        }
        b
    }
}

/// The bounds of an export of the selection.
pub open spec fn export_bounds(sheet: SheetView, selection: SelectionView) -> Option<Rect> {
    choose|bounds: Option<Rect>| is_export_bounds(sheet, selection, bounds)
}

/// An export has one bounds only.
pub proof fn lemma_export_bounds(sheet: SheetView, selection: SelectionView, bounds: Option<Rect>)
    requires
        is_export_bounds(sheet, selection, bounds),
    ensures
        export_bounds(sheet, selection) == bounds,
        bounds matches Some(b) ==> b.min.x <= b.max.x && b.min.y <= b.max.y,
{
    let other = export_bounds(sheet, selection);
    assert(is_export_bounds(sheet, selection, other));
    match bounds {
        Some(b) => {
            let west = choose|pos: Pos| bounded(sheet, selection, pos) && pos.x == b.min.x;
            let east = choose|pos: Pos| bounded(sheet, selection, pos) && pos.x == b.max.x;
            let north = choose|pos: Pos| bounded(sheet, selection, pos) && pos.y == b.min.y;
            let south = choose|pos: Pos| bounded(sheet, selection, pos) && pos.y == b.max.y;
            assert(b.spec_contains(west) && b.spec_contains(east) && b.spec_contains(north)
                && b.spec_contains(south));
            match other {
                Some(c) => {
                    let west2 = choose|pos: Pos| bounded(sheet, selection, pos) && pos.x == c.min.x;
                    let east2 = choose|pos: Pos| bounded(sheet, selection, pos) && pos.x == c.max.x;
                    let north2 = choose|pos: Pos|
                        bounded(sheet, selection, pos) && pos.y == c.min.y;
                    let south2 = choose|pos: Pos|
                        bounded(sheet, selection, pos) && pos.y == c.max.y;
                    assert(c.spec_contains(west) && c.spec_contains(east) && c.spec_contains(north)
                        && c.spec_contains(south));
                    assert(b.spec_contains(west2) && b.spec_contains(east2) && b.spec_contains(north2)
                        && b.spec_contains(south2));
                },
                None => {
                    assert(!bounded(sheet, selection, west));
                },
            }
        },
        None => {
            match other {
                Some(c) => {
                    let west2 = choose|pos: Pos| bounded(sheet, selection, pos) && pos.x == c.min.x;
                    assert(!bounded(sheet, selection, west2));
                },
                None => {},
            }
        },
    }
}

/// Every record has as many fields as the first.
pub open spec fn uniform(records: Seq<Seq<Seq<char>>>) -> bool {
    forall|i: int| 0 <= i < records.len() ==> (#[trigger] records[i]).len() == records[0].len()
}

/// The records of the first `k` rows of the bounds begin the records of the
/// first `n` rows.
pub proof fn lemma_lines_prefix(
    sheet: SheetView,
    selection: SelectionView,
    bounds: Rect,
    k: int,
    n: int,
)
    requires
        0 <= k <= n <= bounds.max.y - bounds.min.y + 1,
    ensures
        lines(sheet, selection, bounds, k).len() <= lines(sheet, selection, bounds, n).len(),
        forall|i: int|
            0 <= i < lines(sheet, selection, bounds, k).len() ==> lines(sheet, selection, bounds, k)[i]
                == lines(sheet, selection, bounds, n)[i],
    decreases n - k,
{
    if k < n {
        lemma_lines_prefix(sheet, selection, bounds, k, n - 1);
    }
}

/// The text of an export: the records of the rows of the bounds, written
/// out.
pub open spec fn export_text(
    sheet: SheetView,
    selection: SelectionView,
    bounds: Rect,
) -> Seq<char> {
    csv_text(lines(sheet, selection, bounds, bounds.max.y - bounds.min.y + 1))
}

impl Sheet {
    /// The text of a cell in an export.
    fn field(&self, pos: Pos) -> (r: String)
        ensures
            r@ == field_text(self@, pos),
    {
        match self.display_value(pos) {
            Some(v) => v.to_edit(),
            None => String::new(),
        }
    }

    /// The fields of a row of the bounds.
    fn export_line(&self, selection: &Selection, bounds: Rect, y: i64) -> (r: Vec<String>)
        requires
            bounds.min.x <= bounds.max.x,
        ensures
            r.deep_view() == line(self@, selection@, bounds, y, bounds.max.x - bounds.min.x + 1),
    {
        let mut r: Vec<String> = Vec::new();
        let mut x: i64 = bounds.min.x;
        let ghost mut k: int = 0;
        let mut done: bool = false;
        assert(r.deep_view() =~= line(self@, selection@, bounds, y, 0));
        while !done
            invariant
                bounds.min.x <= bounds.max.x,
                0 <= k <= bounds.max.x - bounds.min.x + 1,
                !done ==> x == bounds.min.x + k && x <= bounds.max.x,
                done ==> k == bounds.max.x - bounds.min.x + 1,
                r.deep_view() == line(self@, selection@, bounds, y, k),
            decreases bounds.max.x - bounds.min.x + 1 - k,
        {
            let pos = Pos { x, y };
            if selection.rects.is_some() || selection.pos_in_selection(pos) {
                let ghost so_far = r.deep_view();
                let text = self.field(pos);
                r.push(text);
                assert(r.deep_view() =~= so_far.push(text@));
            }
            proof {
                k = k + 1;
            }
            if x == bounds.max.x {
                done = true;
            } else {
                x = x + 1;
            }
        }
        r
    }
}

impl GridController {
    /// Exports what is selected on a sheet as comma-separated text: one
    /// record for each row of the bounds of the selection that has a field,
    /// and one field for each cell of the row that is exported. Fails where
    /// the grid has no such sheet, where there is nothing to export, and
    /// where the records do not all have as many fields as the first.
    pub fn export_csv_selection(&self, selection: Selection) -> (r: Result<String, ExportError>)
        ensures
            !has_sheet(self.grid@, selection.sheet_id) ==> r == Err::<String, ExportError>(
                ExportError::SheetNotFound,
            ),
            has_sheet(self.grid@, selection.sheet_id) ==> (match export_bounds(
                sheet_of(self.grid@, selection.sheet_id),
                selection@,
            ) {
                None => r == Err::<String, ExportError>(ExportError::NoValues),
                Some(bounds) => if uniform(
                    lines(
                        sheet_of(self.grid@, selection.sheet_id),
                        selection@,
                        bounds,
                        bounds.max.y - bounds.min.y + 1,
                    ),
                ) {
                    r matches Ok(text) && text@ == export_text(
                        sheet_of(self.grid@, selection.sheet_id),
                        selection@,
                        bounds,
                    )
                } else {
                    r == Err::<String, ExportError>(ExportError::Write)
                },
            }),
    {
        let sheet = match self.grid.try_sheet(selection.sheet_id) {
            Some(sheet) => sheet,
            None => {
                return Err(ExportError::SheetNotFound);
            },
        };
        let found = sheet.selection_bounds(&selection);
        proof {
            lemma_export_bounds(sheet@, selection@, found);
        }
        let bounds = match found {
            Some(bounds) => bounds,
            None => {
                return Err(ExportError::NoValues);
            },
        };
        let mut writer = csv_writer();
        let mut y: i64 = bounds.min.y;
        let ghost mut k: int = 0;
        let mut done: bool = false;
        while !done
            invariant
                bounds.min.x <= bounds.max.x,
                bounds.min.y <= bounds.max.y,
                0 <= k <= bounds.max.y - bounds.min.y + 1,
                !done ==> y == bounds.min.y + k && y <= bounds.max.y,
                done ==> k == bounds.max.y - bounds.min.y + 1,
                has_sheet(self.grid@, selection.sheet_id),
                sheet@ == sheet_of(self.grid@, selection.sheet_id),
                export_bounds(sheet@, selection@) == Some(bounds),
                csv_records(writer) == lines(sheet@, selection@, bounds, k),
                uniform(lines(sheet@, selection@, bounds, k)),
            decreases bounds.max.y - bounds.min.y + 1 - k,
        {
            let fields = sheet.export_line(&selection, bounds, y);
            if fields.len() > 0 {
                let ghost so_far = lines(sheet@, selection@, bounds, k);
                match csv_write_record(writer, &fields) {
                    Some(after) => {
                        writer = after;
                    },
                    None => {
                        proof {
                            let all = lines(
                                sheet@,
                                selection@,
                                bounds,
                                bounds.max.y - bounds.min.y + 1,
                            );
                            let more = lines(sheet@, selection@, bounds, k + 1);
                            assert(more == so_far.push(fields.deep_view()));
                            lemma_lines_prefix(
                                sheet@,
                                selection@,
                                bounds,
                                k + 1,
                                bounds.max.y - bounds.min.y + 1,
                            );
                            assert(all[0] == more[0]);
                            assert(all[so_far.len() as int] == more[so_far.len() as int]);
                            assert(more[so_far.len() as int].len() != more[0].len());
                        }
                        return Err(ExportError::Write);
                    },
                }
            }
            proof {
                k = k + 1;
            }
            if y == bounds.max.y {
                done = true;
            } else {
                y = y + 1;
            }
        }
        match csv_finish(writer) {
            Some(text) => Ok(text),
            None => Err(ExportError::Write),
        }
    }
}

} // verus!
