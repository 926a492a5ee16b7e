use quadratic_core::controller::GridController;
use quadratic_core::pos::{SheetId, SheetPos};
use quadratic_core::transaction::{Notification, SheetInfo};
use quadratic_core::values::CodeCellLanguage;

fn quoted(s: &str) -> String {
    format!("\"{}\"", s)
}

fn sheet_info_json(info: &SheetInfo) -> String {
    format!(
        "{{\"sheet_id\":{},\"name\":{},\"order\":{},\"color\":{}}}",
        info.sheet_id.id,
        quoted(&info.name),
        quoted(&info.order),
        match &info.color {
            Some(color) => quoted(color),
            None => "null".to_string(),
        }
    )
}

/// The calls that the host makes for what it was told.
fn js_calls(gc: &GridController) -> Vec<(String, String)> {
    let mut calls = vec![];
    for notification in gc.notifications.iter() {
        match notification {
            Notification::SheetAdded { sheet, user } => calls.push((
                "jsAddSheet".to_string(),
                format!("{},{}", sheet_info_json(sheet), user),
            )),
            Notification::SheetDeleted { sheet_id, user } => calls.push((
                "jsDeleteSheet".to_string(),
                format!("{},{}", sheet_id.id, user),
            )),
            Notification::SheetInfoUpdated { sheet } => {
                calls.push(("jsSheetInfoUpdate".to_string(), sheet_info_json(sheet)))
            }
            _ => {}
        }
    }
    calls
}

fn expect_js_call(gc: &mut GridController, name: &str, args: String, clear: bool) {
    let calls = js_calls(gc);
    assert!(
        calls.iter().any(|(n, a)| n == name && *a == args),
        "no call of {} with {} among {:?}",
        name,
        args,
        calls
    );
    if clear {
        gc.take_notifications();
    }
}

#[test]
fn test_add_sheet() {
    let mut gc = GridController::test();
    gc.add_sheet(None);
    assert_eq!(gc.grid.sheets().len(), 2);
    let sheet_id = gc.sheet_ids()[1];
    let sheet = gc.sheet(sheet_id);
    let sheet_info = SheetInfo::from(sheet);
    expect_js_call(
        &mut gc,
        "jsAddSheet",
        format!("{},{}", sheet_info_json(&sheet_info), true),
        true,
    );

    // was jsAdSheet called with the right stuff
    gc.undo(None);
    assert_eq!(gc.grid.sheets().len(), 1);
    expect_js_call(
        &mut gc,
        "jsDeleteSheet",
        format!("{},{}", sheet_id.id, true),
        true,
    );
}

#[test]
fn test_delete_sheet() {
    let mut gc = GridController::test();
    let sheet_id = gc.sheet_ids()[0];
    gc.delete_sheet(sheet_id, None);
    assert_eq!(gc.grid.sheets().len(), 1);
    expect_js_call(
        &mut gc,
        "jsDeleteSheet",
        format!("{},{}", sheet_id.id, true),
        true,
    );
    let new_sheet_id = gc.sheet_ids()[0];
    assert_ne!(new_sheet_id, sheet_id);

    gc.undo(None);
    assert_eq!(gc.grid.sheets().len(), 1);
    assert_eq!(gc.grid.sheets()[0].id(), sheet_id);
    let sheet = gc.sheet(sheet_id);
    let sheet_info = SheetInfo::from(sheet);
    expect_js_call(
        &mut gc,
        "jsAddSheet",
        format!("{},{}", sheet_info_json(&sheet_info), true),
        false,
    );
    expect_js_call(
        &mut gc,
        "jsDeleteSheet",
        format!("{},{}", new_sheet_id.id, true),
        true,
    );
}

#[test]
fn test_execute_operation_set_sheet_name() {
    let mut gc = GridController::test();
    let sheet_id = gc.sheet_ids()[0];
    let name = "new name".to_string();
    gc.set_sheet_name(sheet_id, name.clone(), None);
    assert_eq!(gc.grid.sheets()[0].name(), &name);

    let sheet_info = SheetInfo::from(gc.sheet(sheet_id));
    expect_js_call(
        &mut gc,
        "jsSheetInfoUpdate",
        sheet_info_json(&sheet_info),
        true,
    );

    gc.undo(None);
    assert_eq!(gc.grid.sheets()[0].name(), &"Sheet 1".to_string());
    let sheet_info = SheetInfo::from(gc.sheet(sheet_id));
    expect_js_call(
        &mut gc,
        "jsSheetInfoUpdate",
        sheet_info_json(&sheet_info),
        true,
    );
}

#[test]
fn test_set_sheet_color() {
    let mut gc = GridController::test();
    let sheet_id = gc.sheet_ids()[0];
    let color = Some("red".to_string());
    gc.set_sheet_color(sheet_id, color.clone(), None);
    assert_eq!(gc.grid.sheets()[0].color(), &color);
    let sheet_info = SheetInfo::from(gc.sheet(sheet_id));
    expect_js_call(
        &mut gc,
        "jsSheetInfoUpdate",
        sheet_info_json(&sheet_info),
        true,
    );

    gc.undo(None);
    assert_eq!(gc.grid.sheets()[0].color(), &None);
    let sheet_info = SheetInfo::from(gc.sheet(sheet_id));
    expect_js_call(
        &mut gc,
        "jsSheetInfoUpdate",
        sheet_info_json(&sheet_info),
        true,
    );
}

#[test]
fn test_sheet_reorder() {
    let mut gc = GridController::test();
    let sheet_id = gc.sheet_ids()[0];

    // Sheet 1, Sheet 2
    gc.add_sheet(None);
    assert_eq!(gc.grid.sheets().len(), 2);
    let sheet_id2 = gc.sheet_ids()[1];
    assert_eq!(gc.grid.sheets()[0].id(), sheet_id);
    assert_eq!(gc.grid.sheets()[1].id(), sheet_id2);

    // Sheet 2, Sheet 1
    gc.move_sheet(sheet_id, None, None);
    assert_eq!(gc.grid.sheets()[0].id(), sheet_id2);
    assert_eq!(gc.grid.sheets()[1].id(), sheet_id);

    let sheet_info = SheetInfo::from(gc.sheet(sheet_id));
    expect_js_call(
        &mut gc,
        "jsSheetInfoUpdate",
        sheet_info_json(&sheet_info),
        true,
    );

    // Sheet 1, Sheet 2
    gc.undo(None);
    assert_eq!(gc.grid.sheets()[0].id(), sheet_id);
    assert_eq!(gc.grid.sheets()[1].id(), sheet_id2);
    let sheet_info = SheetInfo::from(gc.sheet(sheet_id));
    expect_js_call(
        &mut gc,
        "jsSheetInfoUpdate",
        sheet_info_json(&sheet_info),
        true,
    );

    gc.move_sheet(sheet_id2, Some(sheet_id), None);
    assert_eq!(gc.grid.sheets()[0].id(), sheet_id2);
    assert_eq!(gc.grid.sheets()[1].id(), sheet_id);
    let sheet_info = SheetInfo::from(gc.sheet(sheet_id2));
    expect_js_call(
        &mut gc,
        "jsSheetInfoUpdate",
        sheet_info_json(&sheet_info),
        true,
    );

    gc.undo(None);
    assert_eq!(gc.grid.sheets()[0].id(), sheet_id);
    assert_eq!(gc.grid.sheets()[1].id(), sheet_id2);
    let sheet_info = SheetInfo::from(gc.sheet(sheet_id2));
    expect_js_call(
        &mut gc,
        "jsSheetInfoUpdate",
        sheet_info_json(&sheet_info),
        true,
    );
}

#[test]
fn duplicate_sheet() {
    let mut gc = GridController::test();
    let sheet_id = gc.sheet_ids()[0];

    gc.set_code_cell(
        SheetPos {
            sheet_id,
            x: 0,
            y: 0,
        },
        CodeCellLanguage::Formula,
        "10 + 10".to_string(),
        None,
    );

    gc.duplicate_sheet(sheet_id, None);
    assert_eq!(gc.grid.sheets().len(), 2);
    assert_eq!(gc.grid.sheets()[1].name(), "Sheet 1 Copy");
    let duplicated_sheet_id = gc.grid.sheets()[1].id();
    let sheet_info = SheetInfo::from(gc.sheet(duplicated_sheet_id));
    expect_js_call(
        &mut gc,
        "jsAddSheet",
        format!("{},{}", sheet_info_json(&sheet_info), true),
        true,
    );

    gc.undo(None);
    assert_eq!(gc.grid.sheets().len(), 1);
    expect_js_call(
        &mut gc,
        "jsDeleteSheet",
        format!("{},{}", duplicated_sheet_id.id, true),
        true,
    );

    gc.duplicate_sheet(sheet_id, None);
    assert_eq!(gc.grid.sheets().len(), 2);
    let duplicated_sheet_id2 = gc.grid.sheets()[1].id();
    let sheet_info = SheetInfo::from(gc.sheet(duplicated_sheet_id2));
    expect_js_call(
        &mut gc,
        "jsAddSheet",
        format!("{},{}", sheet_info_json(&sheet_info), true),
        true,
    );

    gc.duplicate_sheet(sheet_id, None);
    assert_eq!(gc.grid.sheets().len(), 3);
    assert_eq!(gc.grid.sheets()[1].name(), "Sheet 1 Copy 1");
    assert_eq!(gc.grid.sheets()[2].name(), "Sheet 1 Copy");
    let duplicated_sheet_id3 = gc.grid.sheets()[1].id();
    let sheet_info = SheetInfo::from(gc.sheet(duplicated_sheet_id3));
    expect_js_call(
        &mut gc,
        "jsAddSheet",
        format!("{},{}", sheet_info_json(&sheet_info), true),
        true,
    );

    gc.undo(None);
    assert_eq!(gc.grid.sheets().len(), 2);
    assert_eq!(gc.grid.sheets()[1].name(), "Sheet 1 Copy");
    expect_js_call(
        &mut gc,
        "jsDeleteSheet",
        format!("{},{}", duplicated_sheet_id3.id, true),
        true,
    );

    gc.redo(None);
    assert_eq!(gc.grid.sheets().len(), 3);
    assert_eq!(gc.grid.sheets()[1].name(), "Sheet 1 Copy 1");
    let sheet_info = SheetInfo::from(gc.sheet(duplicated_sheet_id3));
    expect_js_call(
        &mut gc,
        "jsAddSheet",
        format!("{},{}", sheet_info_json(&sheet_info), true),
        true,
    );
}

#[test]
fn duplicate_lands_between_the_sheet_and_its_right_neighbour() {
    let mut gc = GridController::test();
    let first = gc.sheet_ids()[0];
    gc.add_sheet(None);
    let second = gc.sheet_ids()[1];
    assert_eq!(gc.sheet(first).order(), "a0");
    assert_eq!(gc.sheet(second).order(), "a1");

    gc.duplicate_sheet(first, None);
    assert_eq!(gc.grid.sheets().len(), 3);
    let copy = &gc.grid.sheets()[1];
    assert!(copy.id() != first && copy.id() != second);
    assert!(copy.order().as_str() > "a0");
    assert!(copy.order().as_str() < "a1");
    assert_eq!(gc.grid.sheets()[0].id(), first);
    assert_eq!(gc.grid.sheets()[2].id(), second);
}

#[test]
fn operations_on_a_sheet_that_is_gone_do_nothing() {
    let mut gc = GridController::test();
    let gone = SheetId::new(4242);
    gc.delete_sheet(gone, None);
    gc.set_sheet_name(gone, "x".to_string(), None);
    gc.set_sheet_color(gone, None, None);
    gc.move_sheet(gone, None, None);
    gc.duplicate_sheet(gone, None);
    assert_eq!(gc.grid.sheets().len(), 1);
    assert!(gc.undo_stack.is_empty());
    assert!(gc.active_transactions().unsaved_transactions.is_empty());
    assert!(js_calls(&gc).is_empty());
}
