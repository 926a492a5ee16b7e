use quadratic_core::bounds::MinMax;
use quadratic_core::controller::GridController;
use quadratic_core::pos::{Pos, Rect, SheetId, SheetPos};
use quadratic_core::rendering::{JsRenderCodeCell, JsRenderCodeCellState};
use quadratic_core::selection::Selection;
use quadratic_core::values::{
    CellValue, CellValues, CodeCellLanguage, CodeRun, CodeRunResult,
};
use quadratic_core::operation::Operation;
use quadratic_core::decimal::Decimal;

fn filled() -> (GridController, SheetId) {
    let mut gc = GridController::test();
    let sheet_id = gc.sheet_ids()[0];
    for (x, y) in [(1, 1), (2, 1), (3, 1), (6, 1), (2, 4)] {
        gc.set_cell_value(SheetPos { x, y, sheet_id }, "v".to_string(), None);
    }
    (gc, sheet_id)
}

#[test]
fn find_next_column_walks_along_the_row() {
    let (gc, sheet_id) = filled();
    let sheet = gc.sheet(sheet_id);
    // the next cell with content, the start included
    assert_eq!(sheet.find_next_column(1, 1, false, true), 1);
    assert_eq!(sheet.find_next_column(4, 1, false, true), 6);
    assert_eq!(sheet.find_next_column(5, 1, true, true), 3);
    // the next cell without content
    assert_eq!(sheet.find_next_column(1, 1, false, false), 4);
    assert_eq!(sheet.find_next_column(3, 1, true, false), 0);
    assert_eq!(sheet.find_next_column(6, 1, false, false), 7);
    // outside the extent of the row the search ends where it starts
    assert_eq!(sheet.find_next_column(9, 1, false, true), 9);
    assert_eq!(sheet.find_next_column(-3, 1, true, false), -3);
    // an empty row
    assert_eq!(sheet.find_next_column(2, 7, false, true), 2);
    // no content further on: the first cell past the extent
    assert_eq!(sheet.find_next_column(0, 1, true, true), 0);
    assert_eq!(sheet.line_bounds(1, true), Some((1, 6)));
    assert_eq!(sheet.line_bounds(2, false), Some((1, 4)));
    assert_eq!(sheet.line_bounds(5, false), None);
}

#[test]
fn find_next_row_walks_along_the_column() {
    let (gc, sheet_id) = filled();
    let sheet = gc.sheet(sheet_id);
    assert_eq!(sheet.find_next_row(2, 2, false, true), 4);
    assert_eq!(sheet.find_next_row(1, 2, false, false), 2);
    assert_eq!(sheet.find_next_row(3, 2, true, true), 1);
    assert_eq!(gc.js_find_next_row(sheet_id, 2, 2, false, true), 4);
    assert_eq!(gc.js_find_next_column(sheet_id, 4, 1, false, true), 6);
    assert_eq!(gc.js_find_next_column(SheetId::new(9), 4, 1, false, true), 0);
    assert_eq!(gc.js_find_next_row(SheetId::new(9), 4, 1, false, true), 0);
}

#[test]
fn bounds_go_around_values_outputs_and_formats() {
    let (mut gc, sheet_id) = filled();
    assert_eq!(
        gc.get_grid_bounds(sheet_id, true),
        Ok(Some(Rect::new(1, 1, 6, 4)))
    );
    assert_eq!(
        gc.get_columns_bounds(sheet_id, 2, 3, true),
        Some(MinMax { min: 1, max: 4 })
    );
    assert_eq!(
        gc.get_columns_bounds(sheet_id, 3, 6, true),
        Some(MinMax { min: 1, max: 1 })
    );
    assert_eq!(gc.get_columns_bounds(sheet_id, 4, 5, true), None);
    assert_eq!(
        gc.get_rows_bounds(sheet_id, 1, 1, true),
        Some(MinMax { min: 1, max: 6 })
    );
    assert_eq!(
        gc.get_rows_bounds(sheet_id, 2, 9, true),
        Some(MinMax { min: 2, max: 2 })
    );
    assert_eq!(gc.get_rows_bounds(sheet_id, 5, 9, false), None);
    assert_eq!(gc.get_grid_bounds(SheetId::new(9), true), Err(()));
    assert_eq!(gc.get_columns_bounds(SheetId::new(9), 0, 9, true), None);

    // a format counts unless formatting is ignored
    gc.js_set_bold(
        Selection::sheet_rect(Rect::new(8, 0, 8, 0), sheet_id),
        true,
        None,
    );
    assert_eq!(
        gc.get_grid_bounds(sheet_id, true),
        Ok(Some(Rect::new(1, 1, 6, 4)))
    );
    assert_eq!(
        gc.get_grid_bounds(sheet_id, false),
        Ok(Some(Rect::new(1, 0, 8, 4)))
    );

    // the output of a run counts
    let values = CellValues::from_rows(
        2,
        3,
        (0..6)
            .map(|i| CellValue::Number(Decimal::parse(&i.to_string()).unwrap()))
            .collect(),
    )
    .unwrap();
    gc.start_user_transaction(
        vec![Operation::SetCodeRun {
            sheet_pos: SheetPos {
                x: 10,
                y: 10,
                sheet_id,
            },
            code_run: Some(CodeRun {
                cells_accessed: vec![],
                result: CodeRunResult::Values(values),
                spill_error: false,
            }),
        }],
        None,
    );
    assert_eq!(
        gc.get_grid_bounds(sheet_id, true),
        Ok(Some(Rect::new(1, 1, 11, 12)))
    );
    let sheet = gc.sheet(sheet_id);
    assert_eq!(
        sheet.display_value(Pos { x: 11, y: 12 }),
        Some(CellValue::Number(Decimal::parse("5").unwrap()))
    );
    assert_eq!(sheet.display_value(Pos { x: 12, y: 12 }), None);
    assert!(sheet.has_render_cells(Rect::new(11, 11, 20, 20)));
    assert!(sheet.has_render_cells(Rect::new(6, 1, 6, 1)));
    assert!(!sheet.has_render_cells(Rect::new(7, 2, 9, 9)));
    assert_eq!(gc.get_grid_bounds(SheetId::new(1), true), Err(()));
    assert_eq!(GridController::test().get_grid_bounds(SheetId::new(0), false), Ok(None));
}

#[test]
fn code_cells_are_framed_by_the_state_of_their_run() {
    let mut gc = GridController::test();
    let sheet_id = gc.sheet_ids()[0];
    let at = |x, y| SheetPos { x, y, sheet_id };
    gc.set_cell_value(at(0, 0), "1".to_string(), None);
    gc.set_code_cell(at(1, 0), CodeCellLanguage::Formula, "A0 + 1".to_string(), None);
    gc.set_code_cell(at(2, 0), CodeCellLanguage::Formula, "oops".to_string(), None);
    gc.set_code_cell(at(3, 0), CodeCellLanguage::Python, "1 + 1".to_string(), None);
    // a code cell whose run was taken away
    gc.set_code_cell(at(4, 0), CodeCellLanguage::Formula, "1".to_string(), None);
    gc.start_user_transaction(
        vec![Operation::SetCodeRun {
            sheet_pos: at(4, 0),
            code_run: None,
        }],
        None,
    );
    // a run whose output is blocked by a value
    let values = CellValues::from_rows(
        1,
        2,
        vec![CellValue::Text("a".to_string()), CellValue::Text("b".to_string())],
    )
    .unwrap();
    gc.set_code_cell(at(5, 0), CodeCellLanguage::Python, "x".to_string(), None);
    gc.start_user_transaction(
        vec![Operation::SetCodeRun {
            sheet_pos: at(5, 0),
            code_run: Some(CodeRun {
                cells_accessed: vec![],
                result: CodeRunResult::Values(values),
                spill_error: false,
            }),
        }],
        None,
    );
    let frame = |x, w, h, language, state| JsRenderCodeCell {
        x,
        y: 0,
        w,
        h,
        language,
        state,
    };
    let formula = CodeCellLanguage::Formula;
    let python = CodeCellLanguage::Python;
    let sheet = gc.sheet(sheet_id);
    assert_eq!(
        sheet.get_all_render_code_cells(),
        vec![
            frame(1, 1, 1, formula, JsRenderCodeCellState::Success),
            frame(2, 1, 1, formula, JsRenderCodeCellState::RunError),
            frame(3, 1, 1, python, JsRenderCodeCellState::RunError),
            frame(4, 1, 1, formula, JsRenderCodeCellState::NotYetRun),
            frame(5, 1, 2, python, JsRenderCodeCellState::Success),
        ]
    );
    assert_eq!(
        sheet.get_render_code_cells(Rect::new(2, 0, 3, 5)),
        vec![
            frame(2, 1, 1, formula, JsRenderCodeCellState::RunError),
            frame(3, 1, 1, python, JsRenderCodeCellState::RunError),
        ]
    );
    assert_eq!(sheet.display_value(Pos { x: 5, y: 1 }), Some(CellValue::Text("b".to_string())));

    // a value in the way of the output: the run spills, and shows nothing
    gc.set_cell_value(at(5, 1), "in the way".to_string(), None);
    let sheet = gc.sheet(sheet_id);
    assert!(sheet.code_run(Pos { x: 5, y: 0 }).unwrap().spill_error);
    assert_eq!(
        sheet.get_render_code_cells(Rect::new(5, 0, 5, 0)),
        vec![frame(5, 1, 1, python, JsRenderCodeCellState::SpillError)]
    );
    assert_eq!(sheet.display_value(Pos { x: 5, y: 0 }), None);
    let drawn = sheet.get_render_cells(Rect::new(5, 0, 5, 1));
    assert_eq!(drawn.len(), 2);
    assert_eq!(drawn[0].value, "in the way");
    assert_eq!(drawn[1].value, " SPILL");
    assert_eq!(drawn[1].language, Some(python));

    // taking the value away again lets the output show; undo brings both back
    gc.js_delete_cell_values(Selection::sheet_rect(Rect::new(5, 1, 5, 1), sheet_id), None);
    let sheet = gc.sheet(sheet_id);
    assert!(!sheet.code_run(Pos { x: 5, y: 0 }).unwrap().spill_error);
    assert_eq!(sheet.display_value(Pos { x: 5, y: 1 }), Some(CellValue::Text("b".to_string())));
    gc.undo(None);
    let sheet = gc.sheet(sheet_id);
    assert!(sheet.code_run(Pos { x: 5, y: 0 }).unwrap().spill_error);
    assert_eq!(
        sheet.display_value(Pos { x: 5, y: 1 }),
        Some(CellValue::Text("in the way".to_string()))
    );
}
