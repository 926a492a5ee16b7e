use quadratic_core::controller::GridController;
use quadratic_core::export::ExportError;
use quadratic_core::pos::{Rect, SheetId, SheetPos};
use quadratic_core::selection::Selection;
use quadratic_core::values::CodeCellLanguage;

#[test]
fn exports_a_csv() {
    let mut gc = GridController::test();
    let sheet_id = gc.sheet_ids()[0];

    let selected = Selection::sheet_rect(Rect::new(0, 0, 3, 3), sheet_id);
    let vals = vec![
        "1", "2", "3", "4", "5", "6", "7", "8", "9", "10", "11", "12", "13", "14", "15", "16",
    ];
    let mut count = 0;

    for y in 0..4 {
        for x in 0..4 {
            gc.set_cell_value(SheetPos { x, y, sheet_id }, vals[count].to_string(), None);
            count += 1;
        }
    }

    let result = gc.export_csv_selection(selected).unwrap();
    let expected = "1,2,3,4\n5,6,7,8\n9,10,11,12\n13,14,15,16\n";

    assert_eq!(&result, expected);
}

#[test]
fn export_quotes_fields_and_shows_the_output_of_code() {
    let mut gc = GridController::test();
    let sheet_id = gc.sheet_ids()[0];
    gc.set_cell_value(SheetPos { x: 0, y: 0, sheet_id }, "a,b".to_string(), None);
    gc.set_cell_value(SheetPos { x: 2, y: 0, sheet_id }, "say \"hi\"".to_string(), None);
    gc.set_cell_value(SheetPos { x: 0, y: 1, sheet_id }, "1.50".to_string(), None);
    gc.set_code_cell(
        SheetPos { x: 1, y: 1, sheet_id },
        CodeCellLanguage::Formula,
        "A1 + 1".to_string(),
        None,
    );
    let text = gc
        .export_csv_selection(Selection::sheet_rect(Rect::new(0, 0, 2, 1), sheet_id))
        .unwrap();
    assert_eq!(text, "\"a,b\",,\"say \"\"hi\"\"\"\n1.50,2.50,\n");
}

#[test]
fn export_of_columns_takes_the_rows_that_hold_something_in_them() {
    let mut gc = GridController::test();
    let sheet_id = gc.sheet_ids()[0];
    gc.set_cell_value(SheetPos { x: 1, y: 2, sheet_id }, "b".to_string(), None);
    gc.set_cell_value(SheetPos { x: 1, y: 4, sheet_id }, "d".to_string(), None);
    gc.set_cell_value(SheetPos { x: 5, y: 9, sheet_id }, "far".to_string(), None);
    let text = gc
        .export_csv_selection(Selection::columns(vec![1], sheet_id))
        .unwrap();
    assert_eq!(text, "b\n\"\"\nd\n");
    let text = gc.export_csv_selection(Selection::all(sheet_id)).unwrap();
    assert_eq!(
        text,
        "b,,,,\n,,,,\nd,,,,\n,,,,\n,,,,\n,,,,\n,,,,\n,,,,far\n"
    );
}

#[test]
fn export_fails_without_a_sheet_and_without_values() {
    let gc = GridController::test();
    let sheet_id = gc.sheet_ids()[0];
    assert_eq!(
        gc.export_csv_selection(Selection::all(SheetId::new(99))),
        Err(ExportError::SheetNotFound)
    );
    assert_eq!(
        gc.export_csv_selection(Selection::all(sheet_id)),
        Err(ExportError::NoValues)
    );
    assert_eq!(
        gc.export_csv_selection(Selection::rows(vec![1, 2], sheet_id)),
        Err(ExportError::NoValues)
    );
    assert_eq!(ExportError::SheetNotFound.message(), "Sheet not found");
    assert_eq!(ExportError::NoValues.message(), "No values");
    // an empty rectangle bounds nothing
    assert_eq!(
        gc.export_csv_selection(Selection::sheet_rect(Rect::new(3, 3, 2, 2), sheet_id)),
        Err(ExportError::NoValues)
    );
}

#[test]
fn export_fails_where_the_rows_have_different_numbers_of_fields() {
    let mut gc = GridController::test();
    let sheet_id = gc.sheet_ids()[0];
    gc.set_cell_value(SheetPos { x: 1, y: 1, sheet_id }, "a".to_string(), None);
    gc.set_cell_value(SheetPos { x: 3, y: 2, sheet_id }, "b".to_string(), None);
    let mut selection = Selection::columns(vec![1], sheet_id);
    selection.rows = Some(vec![2]);
    assert_eq!(
        gc.sheet(sheet_id).selection_bounds(&selection),
        Some(Rect::new(1, 1, 3, 2))
    );
    assert_eq!(
        gc.export_csv_selection(selection),
        Err(ExportError::Write)
    );
    assert_eq!(ExportError::Write.message(), "Records could not be written");
}
