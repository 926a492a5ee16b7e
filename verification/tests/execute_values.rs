use quadratic_core::controller::GridController;
use quadratic_core::decimal::Decimal;
use quadratic_core::operation::Operation;
use quadratic_core::pos::{Pos, SheetId, SheetPos};
use quadratic_core::values::{CellValue, CodeCellLanguage};

fn number(n: i64) -> Decimal {
    Decimal::parse(&n.to_string()).unwrap()
}

#[test]
fn test_set_cell_value() {
    let mut gc = GridController::test();
    let sheet_id = gc.sheet_ids()[0];
    gc.set_cell_value(
        SheetPos {
            x: 0,
            y: 0,
            sheet_id,
        },
        "0".to_string(),
        None,
    );

    let sheet = gc.grid.try_sheet(sheet_id).unwrap();
    assert_eq!(
        sheet.display_value(Pos { x: 0, y: 0 }),
        Some(CellValue::Number(number(0)))
    );

    gc.set_cell_value(
        SheetPos {
            x: 1,
            y: 0,
            sheet_id,
        },
        "1".to_string(),
        None,
    );

    let sheet = gc.grid.try_sheet(sheet_id).unwrap();
    assert_eq!(
        sheet.display_value(Pos { x: 1, y: 0 }),
        Some(CellValue::Number(number(1)))
    );
}

#[test]
fn test_set_cell_values_no_sheet() {
    let mut gc = GridController::test();
    let sheet_id = gc.sheet_ids()[0];
    gc.set_cell_value(
        SheetPos {
            x: 0,
            y: 0,
            sheet_id,
        },
        "test".to_string(),
        None,
    );
    let sheet = gc.grid.try_sheet(sheet_id).unwrap();
    assert_eq!(
        sheet.display_value(Pos { x: 0, y: 0 }),
        Some(CellValue::Text("test".to_string()))
    );

    let no_sheet_id = SheetId::new(7777);
    gc.set_cell_value(
        SheetPos {
            x: 0,
            y: 0,
            sheet_id: no_sheet_id,
        },
        "test 2".to_string(),
        None,
    );
    assert_eq!(gc.grid.sheets().len(), 1);
    assert_eq!(gc.active_transactions().unsaved_transactions.len(), 1);
}

#[test]
fn test_set_cell_values_code_cell_remove() {
    let mut gc = GridController::test();
    let sheet_id = gc.sheet_ids()[0];
    let sheet_pos = SheetPos {
        x: 0,
        y: 0,
        sheet_id,
    };
    gc.set_code_cell(
        sheet_pos,
        CodeCellLanguage::Formula,
        "1 + 1".to_string(),
        None,
    );
    assert_eq!(
        gc.sheet(sheet_id).display_value(sheet_pos.pos()),
        Some(CellValue::Number(number(2)))
    );
    gc.set_cell_value(sheet_pos, "".to_string(), None);
    let sheet = gc.sheet(sheet_id);
    assert_eq!(sheet.display_value(sheet_pos.pos()), None);
    assert!(sheet.code_run(sheet_pos.pos()).is_none());
}

#[test]
fn test_set_cell_values_undo() {
    let mut gc = GridController::test();
    let sheet_id = gc.sheet_ids()[0];
    let sheet_pos = SheetPos {
        x: 0,
        y: 0,
        sheet_id,
    };
    gc.set_cell_value(sheet_pos, "1".to_string(), None);
    assert_eq!(
        gc.sheet(sheet_id).display_value(sheet_pos.pos()),
        Some(CellValue::Number(number(1)))
    );
    gc.undo(None);
    assert_eq!(gc.sheet(sheet_id).display_value(sheet_pos.pos()), None);
}

#[test]
fn dependencies_properly_trigger_on_set_cell_values() {
    let mut gc = GridController::test();
    gc.set_cell_value(
        SheetPos {
            x: 0,
            y: 0,
            sheet_id: gc.sheet_ids()[0],
        },
        "1".to_string(),
        None,
    );
    gc.set_code_cell(
        SheetPos {
            x: 1,
            y: 0,
            sheet_id: gc.sheet_ids()[0],
        },
        CodeCellLanguage::Formula,
        "A0 + 5".to_string(),
        None,
    );
    gc.set_cell_value(
        SheetPos {
            x: -1,
            y: 0,
            sheet_id: gc.sheet_ids()[0],
        },
        "2".to_string(),
        None,
    );
    assert_eq!(gc.active_transactions().unsaved_transactions.len(), 3);
    let last_transaction = gc
        .active_transactions()
        .unsaved_transactions
        .last()
        .unwrap();
    assert_eq!(last_transaction.forward.operations.len(), 1);
}

#[test]
fn changed_value_recomputes_dependent_formula_and_undo_restores_both() {
    let mut gc = GridController::test();
    let sheet_id = gc.sheet_ids()[0];
    let a0 = SheetPos { x: 0, y: 0, sheet_id };
    let b0 = SheetPos { x: 1, y: 0, sheet_id };
    gc.set_cell_value(a0, "1".to_string(), None);
    gc.set_code_cell(b0, CodeCellLanguage::Formula, "=A0+5".to_string(), None);
    assert_eq!(
        gc.sheet(sheet_id).display_value(b0.pos()),
        Some(CellValue::Number(number(6)))
    );

    gc.set_cell_value(a0, "2".to_string(), None);
    let last = gc.active_transactions().unsaved_transactions.last().unwrap();
    assert!(matches!(
        last.forward.operations[0],
        Operation::SetCellValues { .. }
    ));
    // the recomputation of the formula cell was queued and applied
    assert_eq!(last.forward.operations.len(), 2);
    assert!(matches!(
        &last.forward.operations[1],
        Operation::SetCodeRun { sheet_pos, code_run: Some(_) } if *sheet_pos == b0
    ));
    assert_eq!(
        gc.sheet(sheet_id).display_value(a0.pos()),
        Some(CellValue::Number(number(2)))
    );
    assert_eq!(
        gc.sheet(sheet_id).display_value(b0.pos()),
        Some(CellValue::Number(number(7)))
    );

    gc.undo(None);
    assert_eq!(
        gc.sheet(sheet_id).display_value(a0.pos()),
        Some(CellValue::Number(number(1)))
    );
    assert_eq!(
        gc.sheet(sheet_id).display_value(b0.pos()),
        Some(CellValue::Number(number(6)))
    );

    gc.redo(None);
    assert_eq!(
        gc.sheet(sheet_id).display_value(a0.pos()),
        Some(CellValue::Number(number(2)))
    );
    assert_eq!(
        gc.sheet(sheet_id).display_value(b0.pos()),
        Some(CellValue::Number(number(7)))
    );
}
