use quadratic_core::controller::user_actions::MAX_STEPS;
use quadratic_core::controller::GridController;
use quadratic_core::decimal::Decimal;
use quadratic_core::operation::{export_sheet, Operation, SchemaError, SheetSchema, SCHEMA_VERSION};
use quadratic_core::pos::{Pos, SheetId, SheetPos, SheetRect};
use quadratic_core::sheet::Sheet;
use quadratic_core::transaction::{Notification, PendingTransaction, TransactionSource};
use quadratic_core::values::{CellValue, CellValues, CodeCellLanguage, CodeCellValue};

fn number(n: i64) -> CellValue {
    CellValue::Number(Decimal::parse(&n.to_string()).unwrap())
}

fn snapshot(gc: &GridController) -> Vec<Sheet> {
    gc.grid.sheets().iter().map(|s| s.clone()).collect()
}

fn formula(code: &str) -> CellValue {
    CellValue::Code(CodeCellValue {
        language: CodeCellLanguage::Formula,
        code: code.to_string(),
    })
}

fn mixed_operations(sheet_id: SheetId) -> Vec<Operation> {
    let at = |x, y| SheetPos { x, y, sheet_id };
    let block = CellValues::from_rows(
        2,
        2,
        vec![number(1), CellValue::Blank, CellValue::Text("t".to_string()), formula("A0 + 1")],
    )
    .unwrap();
    vec![
        Operation::SetCellValues {
            sheet_pos: at(0, 0),
            values: block,
        },
        Operation::ComputeCode { sheet_pos: at(1, 1) },
        Operation::SetSheetName {
            sheet_id,
            name: "renamed".to_string(),
        },
        Operation::SetSheetColor {
            sheet_id,
            color: Some("blue".to_string()),
        },
        Operation::AddSheet {
            sheet: Sheet::new(SheetId::new(50), "other".to_string(), "a5".to_string()),
        },
        Operation::DuplicateSheet {
            sheet_id,
            new_sheet_id: SheetId::new(51),
        },
        Operation::ReorderSheet {
            target: sheet_id,
            order: "a9".to_string(),
        },
        Operation::SetCellValues {
            sheet_pos: at(0, 0),
            values: CellValues::single(number(10)),
        },
        Operation::DeleteSheet {
            sheet_id: SheetId::new(50),
        },
        Operation::SetCellValues {
            sheet_pos: at(1, 1),
            values: CellValues::single(CellValue::Blank),
        },
    ]
}

#[test]
fn undo_restores_the_grid_exactly_and_redo_brings_the_change_back() {
    let mut gc = GridController::test();
    let sheet_id = gc.sheet_ids()[0];
    gc.set_cell_value(SheetPos { x: 1, y: 0, sheet_id }, "old".to_string(), None);
    gc.set_cell_value(SheetPos { x: 0, y: 1, sheet_id }, "7".to_string(), None);
    let before = snapshot(&gc);

    gc.start_user_transaction(mixed_operations(sheet_id), None);
    let after = snapshot(&gc);
    assert_ne!(before, after);
    assert_eq!(gc.grid.sheets().len(), 2);
    assert_eq!(gc.sheet(sheet_id).name(), "renamed");
    assert_eq!(gc.sheet(sheet_id).order(), "a9");
    assert_eq!(gc.sheet(sheet_id).display_value(Pos { x: 0, y: 0 }), Some(number(10)));
    // the code cell was run, run again when the cell it reads changed, and
    // retired when it was cleared
    assert_eq!(gc.sheet(sheet_id).display_value(Pos { x: 1, y: 1 }), None);
    assert!(gc.sheet(sheet_id).code_run(Pos { x: 1, y: 1 }).is_none());
    assert_eq!(
        gc.sheet(SheetId::new(51)).display_value(Pos { x: 1, y: 1 }),
        Some(number(2))
    );

    gc.undo(None);
    assert_eq!(snapshot(&gc), before);
    gc.redo(None);
    assert_eq!(snapshot(&gc), after);
    gc.undo(None);
    assert_eq!(snapshot(&gc), before);
    // nothing is left to undo but the two first edits
    gc.undo(None);
    gc.undo(None);
    assert_eq!(snapshot(&gc), snapshot(&GridController::test()));
    gc.undo(None);
    assert_eq!(snapshot(&gc), snapshot(&GridController::test()));
    assert_eq!(gc.redo_stack.len(), 3);
}

#[test]
fn replaying_the_inverses_by_hand_undoes_a_transaction_of_any_source() {
    for source in [
        TransactionSource::User,
        TransactionSource::Server,
        TransactionSource::Undo,
        TransactionSource::Redo,
    ] {
        let mut gc = GridController::test();
        let sheet_id = gc.sheet_ids()[0];
        let before = snapshot(&gc);
        let mut transaction = PendingTransaction::new(1, source, mixed_operations(sheet_id), None);
        assert!(gc.run(&mut transaction, 1000));
        assert_ne!(snapshot(&gc), before);
        let applied = snapshot(&gc);

        let mut back = PendingTransaction::new(
            2,
            TransactionSource::Undo,
            transaction.reverse_operations,
            None,
        );
        assert!(gc.run(&mut back, 1000));
        assert_eq!(snapshot(&gc), before);

        let mut again = PendingTransaction::new(
            3,
            TransactionSource::Redo,
            transaction.forward_operations,
            None,
        );
        assert!(gc.run(&mut again, 1000));
        assert_eq!(snapshot(&gc), applied);
    }
}

#[test]
fn adding_a_sheet_twice_adds_it_once() {
    let mut gc = GridController::test();
    let sheet = Sheet::new(SheetId::new(9), "nine".to_string(), "a3".to_string());
    gc.start_user_transaction(
        vec![
            Operation::AddSheet {
                sheet: sheet.clone(),
            },
            Operation::AddSheet {
                sheet: sheet.clone(),
            },
            Operation::AddSheetSchema {
                schema: export_sheet(&sheet),
            },
        ],
        None,
    );
    assert_eq!(gc.sheet_ids(), vec![SheetId::new(0), SheetId::new(9)]);
    let done = gc.undo_stack.last().unwrap();
    // the log holds the operation as it was applied
    assert_eq!(
        done.forward.operations,
        vec![Operation::AddSheet {
            sheet: sheet.clone()
        }]
    );
    assert_eq!(
        done.reverse.operations,
        vec![Operation::DeleteSheet {
            sheet_id: SheetId::new(9)
        }]
    );

    // deleting twice deletes once
    gc.start_user_transaction(
        vec![
            Operation::DeleteSheet {
                sheet_id: SheetId::new(9),
            },
            Operation::DeleteSheet {
                sheet_id: SheetId::new(9),
            },
        ],
        None,
    );
    assert_eq!(gc.sheet_ids(), vec![SheetId::new(0)]);
    assert_eq!(gc.undo_stack.last().unwrap().forward.operations.len(), 1);
}

#[test]
fn a_snapshot_of_an_unknown_version_is_dropped_and_the_transaction_goes_on() {
    let mut gc = GridController::test();
    let sheet_id = gc.sheet_ids()[0];
    let sheet = Sheet::new(SheetId::new(9), "nine".to_string(), "a3".to_string());
    let unreadable = SheetSchema {
        version: SCHEMA_VERSION + 1,
        sheet: sheet.clone(),
    };
    assert_eq!(
        unreadable.clone().into_latest(),
        Err(SchemaError {
            version: SCHEMA_VERSION + 1
        })
    );
    assert_eq!(export_sheet(&sheet).into_latest(), Ok(sheet));
    gc.received_transaction(vec![
        Operation::AddSheetSchema { schema: unreadable },
        Operation::SetSheetName {
            sheet_id,
            name: "still applied".to_string(),
        },
    ]);
    assert_eq!(gc.sheet_ids(), vec![sheet_id]);
    assert_eq!(gc.sheet(sheet_id).name(), "still applied");
    // the host hears of the dropped operation, and of nothing else that a
    // server transaction does
    assert_eq!(
        gc.notifications,
        vec![Notification::OperationDropped { transaction_id: 0 }]
    );
    assert!(gc.undo_stack.is_empty());
    assert!(gc.active_transactions().unsaved_transactions.is_empty());
}

#[test]
fn the_server_may_delete_the_last_sheet_but_a_user_gets_a_new_one() {
    let mut gc = GridController::test();
    let sheet_id = gc.sheet_ids()[0];
    gc.received_transaction(vec![Operation::DeleteSheet { sheet_id }]);
    assert!(gc.grid.sheets().is_empty());
    assert!(gc.notifications.is_empty());

    let mut gc = GridController::test();
    gc.set_sheet_color(sheet_id, Some("red".to_string()), None);
    gc.set_cell_value(SheetPos { x: 2, y: 2, sheet_id }, "kept".to_string(), None);
    let before = snapshot(&gc);
    gc.delete_sheet(sheet_id, None);
    assert_eq!(gc.grid.sheets().len(), 1);
    let replacement = &gc.grid.sheets()[0];
    assert_ne!(replacement.id(), sheet_id);
    assert_eq!(replacement.name(), "Sheet 1");
    assert_eq!(replacement.color(), &None);
    assert_eq!(replacement.order(), "a0");
    let done = gc.undo_stack.last().unwrap();
    assert_eq!(done.forward.operations.len(), 2);
    assert_eq!(done.reverse.operations.len(), 2);
    gc.undo(None);
    assert_eq!(snapshot(&gc), before);
}

#[test]
fn operations_are_applied_one_at_a_time_first_in_first_out() {
    let mut gc = GridController::test();
    let sheet_id = gc.sheet_ids()[0];
    let at = |x, y| SheetPos { x, y, sheet_id };
    gc.set_cell_value(at(0, 0), "1".to_string(), None);
    gc.set_code_cell(at(1, 0), CodeCellLanguage::Formula, "A0 + 1".to_string(), None);
    gc.set_code_cell(at(2, 0), CodeCellLanguage::Formula, "B0 + 1".to_string(), None);
    gc.take_notifications();

    let mut transaction = PendingTransaction::new(
        40,
        TransactionSource::User,
        vec![
            Operation::SetCellValues {
                sheet_pos: at(0, 0),
                values: CellValues::single(number(5)),
            },
            Operation::SetSheetName {
                sheet_id,
                name: "n".to_string(),
            },
        ],
        None,
    );
    // the value is written; the formula that reads it is queued behind the
    // rename
    assert_eq!(gc.execute_operation(&mut transaction), 2);
    assert_eq!(
        transaction.operations.back(),
        Some(&Operation::ComputeCode { sheet_pos: at(1, 0) })
    );
    assert_eq!(gc.sheet(sheet_id).display_value(Pos { x: 1, y: 0 }), Some(number(2)));
    assert_eq!(gc.sheet(sheet_id).name(), "Sheet 1");
    assert_eq!(
        gc.notifications.last(),
        Some(&Notification::TransactionProgress {
            transaction_id: 40,
            operations_remaining: 2
        })
    );
    assert!(gc.notifications.contains(&Notification::CellsUpdated {
        rect: SheetRect {
            min: Pos { x: 0, y: 0 },
            max: Pos { x: 0, y: 0 },
            sheet_id
        }
    }));
    assert!(gc
        .notifications
        .contains(&Notification::BoundsUpdated { sheet_id }));

    assert_eq!(gc.execute_operation(&mut transaction), 1);
    assert_eq!(gc.sheet(sheet_id).name(), "n");
    // the first formula is run, and queues the formula that reads it
    assert_eq!(gc.execute_operation(&mut transaction), 1);
    assert_eq!(gc.sheet(sheet_id).display_value(Pos { x: 1, y: 0 }), Some(number(6)));
    assert_eq!(gc.sheet(sheet_id).display_value(Pos { x: 2, y: 0 }), Some(number(3)));
    assert_eq!(gc.execute_operation(&mut transaction), 0);
    assert_eq!(gc.sheet(sheet_id).display_value(Pos { x: 2, y: 0 }), Some(number(7)));
    assert!(transaction.is_complete());
    assert_eq!(gc.execute_operation(&mut transaction), 0);
    assert_eq!(transaction.forward_operations.len(), 4);
    assert_eq!(transaction.reverse_operations.len(), 4);
    assert!(transaction.generate_thumbnail);
    assert_eq!(transaction.dirty_rects.len(), 3);
}

#[test]
fn a_run_that_is_cut_short_leaves_the_rest_queued() {
    let mut gc = GridController::test();
    let sheet_id = gc.sheet_ids()[0];
    let mut transaction = PendingTransaction::new(
        1,
        TransactionSource::User,
        mixed_operations(sheet_id),
        None,
    );
    assert!(!gc.run(&mut transaction, 3));
    assert_eq!(gc.sheet(sheet_id).name(), "renamed");
    assert_eq!(gc.sheet(sheet_id).color(), &None);
    assert!(!transaction.is_complete());
    assert!(!gc.run(&mut transaction, 0));
    assert!(gc.run(&mut transaction, 100));
}

#[test]
fn a_block_is_merged_whole_and_gives_back_what_was_there() {
    let mut sheet = Sheet::new(SheetId::new(1), "s".to_string(), "a0".to_string());
    sheet.set_cell_value(Pos { x: 1, y: 0 }, CellValue::Text("old".to_string()));
    sheet.set_cell_value(Pos { x: 0, y: 1 }, number(7));
    let block = CellValues::from_rows(
        2,
        2,
        vec![number(1), CellValue::Blank, CellValue::Text("t".to_string()), number(4)],
    )
    .unwrap();
    let prior = sheet.merge_cell_values(Pos { x: 0, y: 0 }, &block);
    assert_eq!(
        prior,
        CellValues::from_rows(
            2,
            2,
            vec![
                CellValue::Blank,
                CellValue::Text("old".to_string()),
                number(7),
                CellValue::Blank
            ]
        )
        .unwrap()
    );
    assert_eq!(sheet.cell_value(Pos { x: 0, y: 0 }), Some(&number(1)));
    assert_eq!(sheet.cell_value(Pos { x: 1, y: 0 }), None);
    assert_eq!(sheet.cell_value(Pos { x: 0, y: 1 }), Some(&CellValue::Text("t".to_string())));
    assert_eq!(sheet.cell_value(Pos { x: 1, y: 1 }), Some(&number(4)));
    assert_eq!(sheet.cell_count(), 3);
    assert_eq!(block.get(1, 1), Some(&number(4)));
    assert_eq!(block.get(2, 0), None);
    assert!(CellValues::from_rows(2, 2, vec![number(1)]).is_none());
}

#[test]
fn a_block_that_does_not_fit_into_the_grid_is_dropped() {
    let mut gc = GridController::test();
    let sheet_id = gc.sheet_ids()[0];
    let block =
        CellValues::from_rows(2, 1, vec![number(1), number(2)]).unwrap();
    gc.start_user_transaction(
        vec![Operation::SetCellValues {
            sheet_pos: SheetPos {
                x: i64::MAX,
                y: 0,
                sheet_id,
            },
            values: block,
        }],
        None,
    );
    assert_eq!(gc.sheet(sheet_id).cell_count(), 0);
    assert!(gc.undo_stack.is_empty());
    assert!(gc
        .notifications
        .contains(&Notification::OperationDropped { transaction_id: 0 }));
    // the last cell of the grid can be written
    gc.set_cell_value(
        SheetPos {
            x: i64::MAX,
            y: i64::MAX,
            sheet_id,
        },
        "corner".to_string(),
        None,
    );
    assert_eq!(gc.sheet(sheet_id).cell_count(), 1);
}

#[test]
fn a_block_without_cells_writes_nothing_and_is_logged() {
    let mut gc = GridController::test();
    let sheet_id = gc.sheet_ids()[0];
    gc.set_cell_value(SheetPos { x: 3, y: 4, sheet_id }, "kept".to_string(), None);
    let before = snapshot(&gc);
    let empty = CellValues::from_rows(0, 2, vec![]).unwrap();
    let sheet_pos = SheetPos { x: 3, y: 4, sheet_id };
    gc.start_user_transaction(
        vec![Operation::SetCellValues {
            sheet_pos,
            values: empty.clone(),
        }],
        None,
    );
    assert_eq!(snapshot(&gc), before);
    let done = gc.undo_stack.last().unwrap();
    assert_eq!(
        done.forward.operations,
        vec![Operation::SetCellValues {
            sheet_pos,
            values: empty.clone()
        }]
    );
    assert_eq!(
        done.reverse.operations,
        vec![Operation::SetCellValues {
            sheet_pos,
            values: empty
        }]
    );
    assert!(!gc
        .notifications
        .iter()
        .any(|n| matches!(n, Notification::OperationDropped { .. })));
    gc.undo(None);
    assert_eq!(snapshot(&gc), before);
}

#[test]
fn a_transaction_that_is_cut_short_tells_the_host() {
    let mut gc = GridController::test();
    let absent = SheetId::new(77);
    let mut operations = Vec::new();
    for _ in 0..MAX_STEPS + 3 {
        operations.push(Operation::DeleteSheet { sheet_id: absent });
    }
    gc.received_transaction(operations);
    // nothing is told of what the server's operations do, but the cut is
    assert_eq!(
        gc.take_notifications(),
        vec![Notification::TransactionCut {
            transaction_id: 0,
            operations_abandoned: 3
        }]
    );
    // a transaction that ends with an empty queue tells of no cut
    gc.received_transaction(vec![Operation::DeleteSheet { sheet_id: absent }]);
    assert!(gc.take_notifications().is_empty());
}

#[test]
fn a_kept_transaction_holds_the_cursor_and_an_unconfirmed_one_does_not() {
    let mut gc = GridController::test();
    let sheet_id = gc.sheet_ids()[0];
    gc.set_sheet_name(sheet_id, "named".to_string(), Some("cursor".to_string()));
    let done = gc.undo_stack.last().unwrap();
    assert_eq!(done.forward.id, 0);
    assert_eq!(done.reverse.id, 0);
    assert_eq!(done.forward.cursor, Some("cursor".to_string()));
    assert_eq!(done.reverse.cursor, Some("cursor".to_string()));
    let unconfirmed = gc.active_transactions().unsaved_transactions.last().unwrap();
    assert_eq!(unconfirmed.forward.id, 0);
    assert_eq!(unconfirmed.forward.cursor, None);
    assert_eq!(unconfirmed.reverse.cursor, None);
    assert_eq!(unconfirmed.forward.operations, done.forward.operations);
    assert_eq!(unconfirmed.reverse.operations, done.reverse.operations);
}

#[test]
fn the_sheet_that_replaces_the_last_one_gets_an_identity_that_was_not_given_before() {
    let mut gc = GridController::test();
    gc.add_sheet(None);
    assert_eq!(gc.sheet_ids(), vec![SheetId::new(0), SheetId::new(1)]);
    gc.delete_sheet(SheetId::new(1), None);
    gc.delete_sheet(SheetId::new(0), None);
    // not 1, which the deleted second sheet had
    assert_eq!(gc.sheet_ids(), vec![SheetId::new(2)]);
    assert_eq!(gc.sheet(SheetId::new(2)).name(), "Sheet 1");
    assert_eq!(gc.next_sheet_id, 3);
    gc.add_sheet(None);
    assert_eq!(gc.sheet_ids(), vec![SheetId::new(2), SheetId::new(3)]);
    // undoing both leads back to the first sheet alone
    gc.undo(None);
    gc.undo(None);
    assert_eq!(gc.sheet_ids(), vec![SheetId::new(0)]);
    // a sheet that the server adds under the spare identity moves the search on
    let taken = Sheet::new(SheetId::new(4), "four".to_string(), "a5".to_string());
    gc.received_transaction(vec![Operation::AddSheet { sheet: taken }]);
    assert_eq!(gc.next_sheet_id, 5);
}
