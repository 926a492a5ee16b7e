//! What a user does to the values of cells.

use crate::controller::formatting::formatted;
use crate::controller::user_actions::transacted;
use crate::controller::{ControllerView, GridController};
use crate::formats::FormatUpdate;
use crate::grid::{has_sheet, sheet_of};
use crate::model::on_sheet;
use crate::operation::{Operation, OperationView};
use crate::pos::{Pos, Rect, SheetId, SheetPos};
use crate::selection::{Selection, SelectionView};
use crate::sheet::SheetView;
use crate::sheet_formatting::no_change;
use crate::store::value_at;
use crate::values::{
    spec_to_edit, spec_value_of_text, CellValue, CellValueView, CellValues, CellValuesView,
};
use vstd::prelude::*;

verus! {

/// The block of one blank.
pub open spec fn one_blank() -> CellValuesView {
    CellValuesView { w: 1, h: 1, values: seq![CellValueView::Blank] }
}

/// The operations that clear the selected ones of the first `k` stored
/// values of a sheet, in the order of positions.
pub open spec fn deletions(sheet: SheetView, selection: SelectionView, k: int) -> Seq<OperationView>
    decreases k,
{
    if k <= 0 || k > sheet.cells.len() {
        Seq::empty()
    } else if selection.contains(sheet.cells[k - 1].0) {
        deletions(sheet, selection, k - 1).push(
            OperationView::SetCellValues {
                sheet_pos: on_sheet(sheet.cells[k - 1].0, sheet.id),
                values: one_blank(),
            },
        )
    } else {
        deletions(sheet, selection, k - 1)
    }
}

/// The number of decimal places after a change by `delta`: counted from the
/// places given, or from none; not below none, and no more than a format
/// can hold.
pub open spec fn changed_decimals(current: Option<i16>, delta: int) -> i16 {
    let base: int = match current {
        Some(d) => d as int,
        None => 0,
    };
    if base + delta < 0 {
        0
    } else if base + delta > i16::MAX {
        i16::MAX
    } else {
        (base + delta) as i16
    }
}

impl GridController {
    /// Writes what the user typed into a cell, given in 32 bits.
    pub fn js_set_cell_value(
        &mut self,
        sheet_id: SheetId,
        x: i32,
        y: i32,
        value: String,
        cursor: Option<String>,
    )
        ensures
            final(self)@ == transacted(
                old(self)@,
                seq![
                    OperationView::SetCellValues {
                        sheet_pos: SheetPos { x: x as i64, y: y as i64, sheet_id },
                        values: CellValuesView {
                            w: 1,
                            h: 1,
                            values: seq![spec_value_of_text(value@)],
                        },
                    },
                ],
                cursor.deep_view(),
            ),
    {
        self.set_cell_value(SheetPos { x: x as i64, y: y as i64, sheet_id }, value, cursor);
    }

    /// The text of a cell as it is edited: nothing for an empty cell.
    /// `None` where the grid has no such sheet.
    pub fn js_get_cell_edit(&self, sheet_id: SheetId, pos: Pos) -> (r: Option<String>)
        ensures
            r is Some == has_sheet(self.grid@, sheet_id),
            r matches Some(text) ==> text@ == (match value_at(
                sheet_of(self.grid@, sheet_id).cells,
                pos,
            ) {
                Some(v) => spec_to_edit(v),
                None => Seq::empty(),
            }),
    {
        match self.grid.try_sheet(sheet_id) {
            Some(sheet) => match sheet.cell_value(pos) {
                Some(value) => Some(value.to_edit()),
                None => Some(String::new()),
            },
            None => None,
        }
    }

    /// Clears the values of the cells that are selected, as one transaction
    /// of the user. Nothing happens where the grid has no such sheet.
    pub fn js_delete_cell_values(&mut self, selection: Selection, cursor: Option<String>)
        ensures
            final(self)@ == if has_sheet(old(self).grid@, selection.sheet_id) {
                transacted(
                    old(self)@,
                    deletions(
                        sheet_of(old(self).grid@, selection.sheet_id),
                        selection@,
                        sheet_of(old(self).grid@, selection.sheet_id).cells.len() as int,
                    ),
                    cursor.deep_view(),
                )
            } else {
                old(self)@
            },
    {
        let mut operations: Vec<Operation> = Vec::new();
        match self.grid.try_sheet(selection.sheet_id) {
            Some(sheet) => {
                let mut k: usize = 0;
                assert(operations.deep_view() =~= deletions(sheet@, selection@, 0));
                while k < sheet.cell_count()
                    invariant
                        k <= sheet@.cells.len(),
                        operations.deep_view() == deletions(sheet@, selection@, k as int),
                    decreases sheet@.cells.len() - k,
                {
                    let pos = sheet.cell_pos_at(k);
                    if selection.pos_in_selection(pos) {
                        let ghost so_far = operations.deep_view();
                        let op = Operation::SetCellValues {
                            sheet_pos: pos.to_sheet_pos(sheet.id()),
                            values: CellValues::single(CellValue::Blank),
                        };
                        let ghost view = op@;
                        operations.push(op);
                        assert(operations.deep_view() =~= so_far.push(view));
                    }
                    k = k + 1;
                }
            },
            None => {
                return ;
            },
        }
        self.start_user_transaction(operations, cursor);
    }

    /// Changes the number of decimal places of the numbers in a rectangle by
    /// `delta`, counted from the places that the cell `source` shows.
    pub fn js_set_cell_numeric_decimals(
        &mut self,
        sheet_id: SheetId,
        source: Pos,
        rect: Rect,
        delta: isize,
        cursor: Option<String>,
    )
        ensures
            final(self)@ == formatted(
                old(self)@,
                SelectionView {
                    sheet_id,
                    x: rect.min.x,
                    y: rect.min.y,
                    rects: Some(seq![rect]),
                    rows: None,
                    columns: None,
                    all: false,
                },
                FormatUpdate {
                    numeric_decimals: Some(
                        Some(
                            changed_decimals(
                                if has_sheet(old(self).grid@, sheet_id) {
                                    sheet_of(old(self).grid@, sheet_id).formats.effective(
                                        source,
                                    ).numeric_decimals
                                } else {
                                    None
                                },
                                delta as int,
                            ),
                        ),
                    ),
                    ..no_change()
                },
                cursor.deep_view(),
            ),
    {
        let current = match self.grid.try_sheet(sheet_id) {
            Some(sheet) => sheet.formatting().effective(source).numeric_decimals,
            None => None,
        };
        let base: i128 = match current {
            Some(d) => d as i128,
            None => 0,
        };
        let sum: i128 = base + delta as i128;
        let places: i16 = if sum < 0 {
            0
        } else if sum > i16::MAX as i128 {
            i16::MAX
        } else {
            sum as i16
        };
        let mut update = FormatUpdate::default();
        update.numeric_decimals = Some(Some(places));
        self.set_format_selection(Selection::sheet_rect(rect, sheet_id), update, cursor);
    }
}

} // verus!
