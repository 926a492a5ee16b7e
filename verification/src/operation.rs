//! Operations: the commands that change a grid. An operation is a plain
//! value; the handlers that apply one are in `controller`.

use crate::formats::{FormatUpdate, Formats};
use crate::pos::{SheetId, SheetPos};
use crate::selection::{Selection, SelectionView};
use crate::sheet::{clone_option_string, Sheet, SheetView};
use crate::values::{CellValues, CellValuesView, CodeRun, CodeRunView};
use vstd::prelude::*;

verus! {

/// The version of sheet snapshots that this crate writes and reads.
pub const SCHEMA_VERSION: u32 = 1;

/// A self-describing snapshot of a sheet, from which the sheet can be rebuilt
/// in full.
#[derive(Debug, PartialEq)]
pub struct SheetSchema {
    pub version: u32,
    pub sheet: Sheet,
}

pub struct SheetSchemaView {
    pub version: u32,
    pub sheet: SheetView,
}

impl SheetSchemaView {
    /// The snapshot of a sheet in the current version.
    pub open spec fn export(sheet: SheetView) -> SheetSchemaView {
        SheetSchemaView { version: SCHEMA_VERSION, sheet }
    }

    /// The sheet of a snapshot that can be read.
    pub open spec fn latest(self) -> Option<SheetView> {
        if self.version == SCHEMA_VERSION {
            Some(self.sheet)
        } else {
            None
        }
    }
}

impl View for SheetSchema {
    type V = SheetSchemaView;

    open spec fn view(&self) -> SheetSchemaView {
        SheetSchemaView { version: self.version, sheet: self.sheet@ }
    }
}

/// A snapshot that could not be read: it is of the version given, which this
/// crate does not know.
#[derive(Clone, Copy, Debug, PartialEq, Eq, Structural)]
pub struct SchemaError {
    pub version: u32,
}

impl SheetSchema {
    /// The sheet that the snapshot holds, if its version is known.
    pub fn into_latest(self) -> (r: Result<Sheet, SchemaError>)
        ensures
            match r {
                Ok(sheet) => self@.latest() == Some(sheet@),
                Err(e) => self@.latest() is None && e.version == self.version,
            },
    {
        if self.version == SCHEMA_VERSION {
            Ok(self.sheet)
        } else {
            Err(SchemaError { version: self.version })
        }
    }
}

impl Clone for SheetSchema {
    fn clone(&self) -> (r: SheetSchema)
        ensures
            r@ == self@,
    {
        SheetSchema { version: self.version, sheet: self.sheet.clone() }
    }
}

/// Takes a snapshot of a sheet.
pub fn export_sheet(sheet: &Sheet) -> (r: SheetSchema)
    ensures
        r@ == SheetSchemaView::export(sheet@),
        r@.latest() == Some(sheet@),
{
    SheetSchema { version: SCHEMA_VERSION, sheet: sheet.clone() }
}

/// One change to a grid.
#[derive(Debug, PartialEq)]
pub enum Operation {
    AddSheet { sheet: Sheet },
    AddSheetSchema { schema: SheetSchema },
    DeleteSheet { sheet_id: SheetId },
    ReorderSheet { target: SheetId, order: String },
    SetSheetName { sheet_id: SheetId, name: String },
    SetSheetColor { sheet_id: SheetId, color: Option<String> },
    DuplicateSheet { sheet_id: SheetId, new_sheet_id: SheetId },
    SetCellValues { sheet_pos: SheetPos, values: CellValues },
    ComputeCode { sheet_pos: SheetPos },
    SetCodeRun { sheet_pos: SheetPos, code_run: Option<CodeRun> },
    SetCellFormatsSelection { selection: Selection, formats: Formats },
}

pub enum OperationView {
    AddSheet { sheet: SheetView },
    AddSheetSchema { schema: SheetSchemaView },
    DeleteSheet { sheet_id: SheetId },
    ReorderSheet { target: SheetId, order: Seq<char> },
    SetSheetName { sheet_id: SheetId, name: Seq<char> },
    SetSheetColor { sheet_id: SheetId, color: Option<Seq<char>> },
    DuplicateSheet { sheet_id: SheetId, new_sheet_id: SheetId },
    SetCellValues { sheet_pos: SheetPos, values: CellValuesView },
    ComputeCode { sheet_pos: SheetPos },
    SetCodeRun { sheet_pos: SheetPos, code_run: Option<CodeRunView> },
    SetCellFormatsSelection { selection: SelectionView, formats: Seq<FormatUpdate> },
}

impl View for Operation {
    type V = OperationView;

    open spec fn view(&self) -> OperationView {
        match self {
            Operation::AddSheet { sheet } => OperationView::AddSheet { sheet: sheet@ },
            Operation::AddSheetSchema { schema } => OperationView::AddSheetSchema {
                schema: schema@,
            },
            Operation::DeleteSheet { sheet_id } => OperationView::DeleteSheet {
                sheet_id: *sheet_id,
            },
            Operation::ReorderSheet { target, order } => OperationView::ReorderSheet {
                target: *target,
                order: order@,
            },
            Operation::SetSheetName { sheet_id, name } => OperationView::SetSheetName {
                sheet_id: *sheet_id,
                name: name@,
            },
            Operation::SetSheetColor { sheet_id, color } => OperationView::SetSheetColor {
                sheet_id: *sheet_id,
                color: color.deep_view(),
            },
            Operation::DuplicateSheet { sheet_id, new_sheet_id } => OperationView::DuplicateSheet {
                sheet_id: *sheet_id,
                new_sheet_id: *new_sheet_id,
            },
            Operation::SetCellValues { sheet_pos, values } => OperationView::SetCellValues {
                sheet_pos: *sheet_pos,
                values: values@,
            },
            Operation::ComputeCode { sheet_pos } => OperationView::ComputeCode {
                sheet_pos: *sheet_pos,
            },
            Operation::SetCodeRun { sheet_pos, code_run } => OperationView::SetCodeRun {
                sheet_pos: *sheet_pos,
                code_run: code_run.deep_view(),
            },
            Operation::SetCellFormatsSelection {
                selection,
                formats,
            } => OperationView::SetCellFormatsSelection { selection: selection@, formats: formats@ },
        }
    }
}

impl DeepView for Operation {
    type V = OperationView;

    open spec fn deep_view(&self) -> OperationView {
        self@
    }
}

impl OperationView {
    /// The sheets and blocks that the operation carries are well-formed.
    pub open spec fn wf(self) -> bool {
        match self {
            OperationView::AddSheet { sheet } => sheet.wf(),
            OperationView::AddSheetSchema { schema } => schema.sheet.wf(),
            OperationView::SetCellValues { values, .. } => values.wf(),
            _ => true,
        }
    }
}

/// Every operation of the sequence is well-formed.
pub open spec fn all_wf(ops: Seq<OperationView>) -> bool {
    forall|i: int| 0 <= i < ops.len() ==> (#[trigger] ops[i]).wf()
}

impl Operation {
    /// Recalls that what the operation carries is well-formed.
    pub fn note_wf(&self)
        ensures
            self@.wf(),
    {
        match self {
            Operation::AddSheet { sheet } => sheet.note_wf(),
            Operation::AddSheetSchema { schema } => schema.sheet.note_wf(),
            Operation::SetCellValues { values, .. } => values.note_wf(),
            _ => {},
        }
    }
}

impl Clone for Operation {
    fn clone(&self) -> (r: Operation)
        ensures
            r@ == self@,
    {
        match self {
            Operation::AddSheet { sheet } => Operation::AddSheet { sheet: sheet.clone() },
            Operation::AddSheetSchema { schema } => Operation::AddSheetSchema {
                schema: schema.clone(),
            },
            Operation::DeleteSheet { sheet_id } => Operation::DeleteSheet { sheet_id: *sheet_id },
            Operation::ReorderSheet { target, order } => Operation::ReorderSheet {
                target: *target,
                order: order.clone(),
            },
            Operation::SetSheetName { sheet_id, name } => Operation::SetSheetName {
                sheet_id: *sheet_id,
                name: name.clone(),
            },
            Operation::SetSheetColor { sheet_id, color } => Operation::SetSheetColor {
                sheet_id: *sheet_id,
                color: clone_option_string(color),
            },
            Operation::DuplicateSheet { sheet_id, new_sheet_id } => Operation::DuplicateSheet {
                sheet_id: *sheet_id,
                new_sheet_id: *new_sheet_id,
            },
            Operation::SetCellValues { sheet_pos, values } => Operation::SetCellValues {
                sheet_pos: *sheet_pos,
                values: values.clone(),
            },
            Operation::ComputeCode { sheet_pos } => Operation::ComputeCode {
                sheet_pos: *sheet_pos,
            },
            Operation::SetCodeRun { sheet_pos, code_run } => Operation::SetCodeRun {
                sheet_pos: *sheet_pos,
                code_run: match code_run {
                    Some(run) => Some(run.clone()),
                    None => None,
                },
            },
            Operation::SetCellFormatsSelection {
                selection,
                formats,
            } => Operation::SetCellFormatsSelection {
                selection: selection.clone(),
                formats: formats.clone(),
            },
        }
    }
}

/// Copies a list of operations.
pub fn clone_operations(ops: &Vec<Operation>) -> (r: Vec<Operation>)
    ensures
        r.deep_view() == ops.deep_view(),
{
    let mut r: Vec<Operation> = Vec::new();
    let mut i: usize = 0;
    while i < ops.len()
        invariant
            i <= ops.len(),
            r.len() == i,
            forall|j: int| 0 <= j < i ==> r@[j]@ == ops@[j]@,
        decreases ops.len() - i,
    {
        r.push(ops[i].clone());
        i = i + 1;
    }
    assert(r.deep_view() =~= ops.deep_view());
    r
}

} // verus!
