use quadratic_core::controller::GridController;
use quadratic_core::decimal::Decimal;
use quadratic_core::formats::{Format, FormatUpdate, Formats};
use quadratic_core::formatting::{
    Bold, BorderStyle, CellAlign, CellBorderLine, CellFmtAttr, CellWrap, FillColor, Italic,
    NumericCommas, NumericDecimals, NumericFormat, NumericFormatKind, RenderSize, Rgba, TextColor,
};
use quadratic_core::operation::Operation;
use quadratic_core::pos::{Pos, Rect, SheetId, SheetPos};
use quadratic_core::rendering::{JsRenderBorder, JsRenderCell, JsRenderFill};
use quadratic_core::selection::{Selection, Target};
use quadratic_core::transaction::Notification;
use quadratic_core::values::{CellValue, CodeCellLanguage};

fn rect(x0: i64, y0: i64, x1: i64, y1: i64, sheet_id: SheetId) -> Selection {
    Selection::sheet_rect(Rect::new(x0, y0, x1, y1), sheet_id)
}

fn shown(gc: &GridController, sheet_id: SheetId, x: i64, y: i64) -> Format {
    gc.js_cell_format_summary(sheet_id, Pos { x, y }).unwrap()
}

#[test]
fn bold_is_set_for_every_cell_of_the_selection_and_undone() {
    let mut gc = GridController::test();
    let sheet_id = gc.sheet_ids()[0];
    gc.js_set_bold(rect(0, 0, 1, 1, sheet_id), true, None);
    for (x, y) in [(0, 0), (1, 0), (0, 1), (1, 1)] {
        assert_eq!(shown(&gc, sheet_id, x, y).bold, Some(true));
    }
    assert_eq!(shown(&gc, sheet_id, 2, 0).bold, None);
    assert!(gc
        .notifications
        .contains(&Notification::FormatsUpdated { sheet_id }));

    // an overlapping change, then undo of each in turn
    gc.js_set_bold(rect(1, 1, 2, 2, sheet_id), false, None);
    assert_eq!(shown(&gc, sheet_id, 1, 1).bold, Some(false));
    assert_eq!(shown(&gc, sheet_id, 2, 2).bold, Some(false));
    gc.undo(None);
    assert_eq!(shown(&gc, sheet_id, 1, 1).bold, Some(true));
    assert_eq!(shown(&gc, sheet_id, 2, 2).bold, None);
    gc.undo(None);
    assert_eq!(shown(&gc, sheet_id, 1, 1), Format::default());
    assert_eq!(gc.sheet(sheet_id), GridController::test().sheet(sheet_id));
    gc.redo(None);
    assert_eq!(shown(&gc, sheet_id, 1, 1).bold, Some(true));
}

#[test]
fn a_selection_that_names_a_cell_twice_is_undone_exactly() {
    let mut gc = GridController::test();
    let sheet_id = gc.sheet_ids()[0];
    gc.js_set_italic(rect(0, 0, 0, 0, sheet_id), true, None);
    let before = shown(&gc, sheet_id, 0, 0);

    let mut twice = rect(0, 0, 1, 0, sheet_id);
    twice.rects.as_mut().unwrap().push(Rect::new(0, 0, 0, 1));
    let mut formats = Formats::new();
    let mut first = FormatUpdate::default();
    first.italic = Some(None);
    first.bold = Some(Some(true));
    let mut second = FormatUpdate::default();
    second.bold = Some(Some(false));
    formats.push_n(first, 2);
    formats.push_n(second, 2);
    gc.start_user_transaction(
        vec![Operation::SetCellFormatsSelection {
            selection: twice,
            formats,
        }],
        None,
    );
    let changed = shown(&gc, sheet_id, 0, 0);
    assert_eq!(changed.bold, Some(false));
    assert_eq!(changed.italic, None);
    assert_eq!(shown(&gc, sheet_id, 1, 0).bold, Some(true));
    assert_eq!(shown(&gc, sheet_id, 0, 1).bold, Some(false));

    gc.undo(None);
    assert_eq!(shown(&gc, sheet_id, 0, 0), before);
    assert_eq!(shown(&gc, sheet_id, 1, 0), Format::default());
    assert_eq!(shown(&gc, sheet_id, 0, 1), Format::default());
}

#[test]
fn an_operation_without_a_change_for_each_part_is_dropped() {
    let mut gc = GridController::test();
    let sheet_id = gc.sheet_ids()[0];
    gc.start_user_transaction(
        vec![Operation::SetCellFormatsSelection {
            selection: rect(0, 0, 1, 1, sheet_id),
            formats: Formats::repeat(FormatUpdate::default(), 3),
        }],
        None,
    );
    assert!(gc.undo_stack.is_empty());
    assert!(gc
        .notifications
        .contains(&Notification::OperationDropped { transaction_id: 0 }));
    assert_eq!(gc.sheet(sheet_id), GridController::test().sheet(sheet_id));
}

#[test]
fn narrower_formats_go_before_wider_ones() {
    let mut gc = GridController::test();
    let sheet_id = gc.sheet_ids()[0];
    gc.js_set_text_color(Selection::all(sheet_id), Some("black".to_string()), None);
    gc.js_set_text_color(
        Selection::columns(vec![2], sheet_id),
        Some("blue".to_string()),
        None,
    );
    gc.js_set_text_color(
        Selection::rows(vec![5], sheet_id),
        Some("green".to_string()),
        None,
    );
    gc.js_set_text_color(rect(2, 5, 2, 5, sheet_id), Some("red".to_string()), None);
    assert_eq!(shown(&gc, sheet_id, 0, 0).text_color.as_deref(), Some("black"));
    assert_eq!(shown(&gc, sheet_id, 2, 0).text_color.as_deref(), Some("blue"));
    assert_eq!(shown(&gc, sheet_id, 0, 5).text_color.as_deref(), Some("green"));
    assert_eq!(shown(&gc, sheet_id, 2, 5).text_color.as_deref(), Some("red"));

    assert_eq!(
        gc.js_get_format_all(sheet_id).unwrap().text_color.as_deref(),
        Some("black")
    );
    assert_eq!(
        gc.js_get_format_column(sheet_id, 2).unwrap().text_color.as_deref(),
        Some("blue")
    );
    assert_eq!(gc.js_get_format_column(sheet_id, 3), Some(Format::default()));
    assert_eq!(
        gc.js_get_format_row(sheet_id, 5).unwrap().text_color.as_deref(),
        Some("green")
    );
    assert_eq!(
        gc.js_get_format_cell(sheet_id, 2, 5).unwrap().text_color.as_deref(),
        Some("red")
    );
    assert_eq!(gc.js_get_format_cell(sheet_id, 0, 0), Some(Format::default()));
    assert_eq!(gc.js_get_format_all(SheetId::new(77)), None);

    // clearing the cell lets the row show through again
    gc.js_set_text_color(rect(2, 5, 2, 5, sheet_id), None, None);
    assert_eq!(shown(&gc, sheet_id, 2, 5).text_color.as_deref(), Some("green"));
}

#[test]
fn each_request_changes_its_own_attribute() {
    let mut gc = GridController::test();
    let sheet_id = gc.sheet_ids()[0];
    let cell = || rect(1, 1, 1, 1, sheet_id);
    gc.js_set_cell_align(cell(), Some(CellAlign::Center), None);
    gc.js_set_cell_wrap(cell(), Some(CellWrap::Clip), None);
    gc.js_set_currency(cell(), "$".to_string(), None);
    gc.js_set_commas(cell(), true, None);
    gc.js_set_bold(cell(), true, None);
    gc.js_set_italic(cell(), false, None);
    gc.js_set_text_color(cell(), Some("red".to_string()), None);
    gc.js_fill_color(cell(), Some("yellow".to_string()), None);
    gc.js_set_render_size(
        sheet_id,
        Rect::new(1, 1, 1, 1),
        Some("10".to_string()),
        Some("20".to_string()),
        None,
    );
    gc.js_change_decimal_places(cell(), 3, None);
    assert_eq!(
        shown(&gc, sheet_id, 1, 1),
        Format {
            align: Some(CellAlign::Center),
            vertical_align: None,
            wrap: Some(CellWrap::Clip),
            numeric_format: Some(NumericFormat {
                kind: NumericFormatKind::Currency,
                symbol: Some("$".to_string()),
            }),
            numeric_decimals: Some(3),
            numeric_commas: Some(true),
            bold: Some(true),
            border_top: None,
            border_bottom: None,
            border_left: None,
            border_right: None,
            italic: Some(false),
            text_color: Some("red".to_string()),
            fill_color: Some("yellow".to_string()),
            render_size: Some(RenderSize {
                w: "10".to_string(),
                h: "20".to_string(),
            }),
        }
    );

    gc.js_set_percentage(cell(), None);
    assert_eq!(
        shown(&gc, sheet_id, 1, 1).numeric_format,
        Some(NumericFormat {
            kind: NumericFormatKind::Percentage,
            symbol: None
        })
    );
    gc.js_set_exponential(cell(), None);
    assert_eq!(
        shown(&gc, sheet_id, 1, 1).numeric_format.unwrap().kind,
        NumericFormatKind::Exponential
    );
    gc.js_remove_numeric_format(cell(), None);
    assert_eq!(shown(&gc, sheet_id, 1, 1).numeric_format, None);
    // a render size needs both a width and a height
    gc.js_set_render_size(sheet_id, Rect::new(1, 1, 1, 1), Some("10".to_string()), None, None);
    assert_eq!(shown(&gc, sheet_id, 1, 1).render_size, None);

    gc.js_change_decimal_places(cell(), 2, None);
    assert_eq!(shown(&gc, sheet_id, 1, 1).numeric_decimals, Some(5));
    gc.js_change_decimal_places(cell(), u32::MAX, None);
    assert_eq!(shown(&gc, sheet_id, 1, 1).numeric_decimals, Some(i16::MAX));
    gc.js_set_cell_numeric_decimals(sheet_id, Pos { x: 0, y: 0 }, Rect::new(1, 1, 1, 1), -5, None);
    assert_eq!(shown(&gc, sheet_id, 1, 1).numeric_decimals, Some(0));
    gc.js_set_cell_numeric_decimals(sheet_id, Pos { x: 1, y: 1 }, Rect::new(1, 1, 1, 1), 4, None);
    assert_eq!(shown(&gc, sheet_id, 1, 1).numeric_decimals, Some(4));
    gc.js_set_cell_numeric_decimals(sheet_id, Pos { x: 1, y: 1 }, Rect::new(1, 1, 1, 1), -1, None);
    assert_eq!(shown(&gc, sheet_id, 1, 1).numeric_decimals, Some(3));

    gc.js_clear_formatting(cell(), None);
    assert_eq!(shown(&gc, sheet_id, 1, 1), Format::default());
    gc.undo(None);
    assert_eq!(shown(&gc, sheet_id, 1, 1).numeric_decimals, Some(3));
    assert_eq!(shown(&gc, sheet_id, 1, 1).bold, Some(true));
}

#[test]
fn the_attributes_of_a_format_are_reached_by_their_names() {
    let mut format = Format::default();
    *Bold::column_data_mut(&mut format) = Some(true);
    *Italic::column_data_mut(&mut format) = Some(false);
    *NumericDecimals::column_data_mut(&mut format) = Some(2);
    *NumericCommas::column_data_mut(&mut format) = Some(true);
    *TextColor::column_data_mut(&mut format) = Some("red".to_string());
    *FillColor::column_data_mut(&mut format) = Some("blue".to_string());
    *CellAlign::column_data_mut(&mut format) = Some(CellAlign::Left);
    *CellWrap::column_data_mut(&mut format) = Some(CellWrap::Wrap);
    assert_eq!(format.bold, Some(true));
    assert_eq!(Bold::column_data_ref(&format), &Some(true));
    assert_eq!(Italic::column_data_ref(&format), &Some(false));
    assert_eq!(NumericDecimals::column_data_ref(&format), &Some(2));
    assert_eq!(NumericCommas::column_data_ref(&format), &Some(true));
    assert_eq!(TextColor::column_data_ref(&format), &Some("red".to_string()));
    assert_eq!(FillColor::column_data_ref(&format), &Some("blue".to_string()));
    assert_eq!(CellAlign::column_data_ref(&format), &Some(CellAlign::Left));
    assert_eq!(CellWrap::column_data_ref(&format), &Some(CellWrap::Wrap));
    assert_eq!(NumericFormat::column_data_ref(&format), &None);
    assert_eq!(RenderSize::column_data_ref(&format), &None);
}

#[test]
fn render_cells_come_with_their_formats() {
    let mut gc = GridController::test();
    let sheet_id = gc.sheet_ids()[0];
    gc.set_cell_value(SheetPos { x: 0, y: 0, sheet_id }, "hello".to_string(), None);
    gc.set_cell_value(SheetPos { x: 0, y: 1, sheet_id }, "12.5".to_string(), None);
    gc.set_cell_value(SheetPos { x: 9, y: 9, sheet_id }, "outside".to_string(), None);
    gc.set_code_cell(
        SheetPos { x: 1, y: 0, sheet_id },
        CodeCellLanguage::Formula,
        "A1 + 1".to_string(),
        None,
    );
    gc.set_code_cell(
        SheetPos { x: 1, y: 1, sheet_id },
        CodeCellLanguage::Formula,
        "A0 + 1".to_string(),
        None,
    );
    gc.js_set_bold(rect(0, 0, 0, 1, sheet_id), true, None);
    gc.js_set_commas(rect(0, 1, 0, 1, sheet_id), true, None);
    gc.js_fill_color(rect(0, 0, 1, 0, sheet_id), Some("yellow".to_string()), None);

    let sheet = gc.sheet(sheet_id);
    let cells = sheet.get_render_cells(Rect::new(0, 0, 5, 5));
    let plain = |x, y, value: &str| JsRenderCell {
        x,
        y,
        value: value.to_string(),
        language: None,
        align: None,
        wrap: None,
        bold: None,
        italic: None,
        text_color: None,
    };
    assert_eq!(
        cells,
        vec![
            JsRenderCell {
                bold: Some(true),
                ..plain(0, 0, "hello")
            },
            JsRenderCell {
                bold: Some(true),
                align: Some(CellAlign::Right),
                ..plain(0, 1, "12.5")
            },
            JsRenderCell {
                language: Some(CodeCellLanguage::Formula),
                align: Some(CellAlign::Right),
                ..plain(1, 0, "13.5")
            },
            JsRenderCell {
                language: Some(CodeCellLanguage::Formula),
                italic: Some(true),
                text_color: Some("red".to_string()),
                ..plain(1, 1, " ERROR")
            },
        ]
    );
    assert_eq!(
        sheet.get_render_cells(Rect::new(9, 9, 9, 9)),
        vec![plain(9, 9, "outside")]
    );
    assert!(sheet.get_render_cells(Rect::new(3, 3, 4, 4)).is_empty());

    let fill = |x, y| JsRenderFill {
        x,
        y,
        w: 1,
        h: 1,
        color: "yellow".to_string(),
    };
    assert_eq!(sheet.get_all_render_fills(), vec![fill(0, 0), fill(1, 0)]);
    assert_eq!(
        sheet.get_render_fills(Rect::new(1, 0, 3, 3)),
        vec![fill(1, 0)]
    );
    assert!(sheet.get_render_fills(Rect::new(0, 1, 3, 3)).is_empty());
    assert_eq!(
        sheet.formatting().get(Target::Cell(Pos { x: 0, y: 1 })).bold,
        Some(true)
    );
    assert_eq!(Decimal::parse("13.50").unwrap().to_text(), "13.50");
}

#[test]
fn borders_are_drawn_along_the_sides_of_their_cells() {
    let mut gc = GridController::test();
    let sheet_id = gc.sheet_ids()[0];
    let style = BorderStyle {
        color: Rgba {
            red: 0,
            green: 0,
            blue: 0,
            alpha: 255,
        },
        line: CellBorderLine::Line1,
    };
    let dotted = BorderStyle {
        line: CellBorderLine::Dotted,
        ..style
    };
    let mut around = FormatUpdate::default();
    around.border_top = Some(Some(style));
    around.border_bottom = Some(Some(dotted));
    around.border_left = Some(Some(style));
    around.border_right = Some(Some(dotted));
    gc.set_format_selection(rect(2, 3, 2, 3, sheet_id), around, None);
    let mut under = FormatUpdate::default();
    under.border_bottom = Some(Some(style));
    gc.set_format_selection(rect(5, 3, 5, 3, sheet_id), under, None);

    let sheet = gc.sheet(sheet_id);
    let across = |x, y, style| JsRenderBorder {
        x,
        y,
        w: Some(1),
        h: None,
        style,
    };
    let down = |x, y, style| JsRenderBorder {
        x,
        y,
        w: None,
        h: Some(1),
        style,
    };
    assert_eq!(
        sheet.get_render_horizontal_borders(),
        vec![across(2, 3, style), across(2, 4, dotted), across(5, 4, style)]
    );
    assert_eq!(
        sheet.get_render_vertical_borders(),
        vec![down(2, 3, style), down(3, 3, dotted)]
    );

    gc.undo(None);
    gc.undo(None);
    let sheet = gc.sheet(sheet_id);
    assert!(sheet.get_render_horizontal_borders().is_empty());
    assert!(sheet.get_render_vertical_borders().is_empty());
}

#[test]
fn a_selection_of_too_many_cells_is_not_formatted() {
    let mut gc = GridController::test();
    let sheet_id = gc.sheet_ids()[0];
    gc.js_set_bold(rect(0, 0, i64::MAX, i64::MAX, sheet_id), true, None);
    assert_eq!(shown(&gc, sheet_id, 0, 0), Format::default());
    assert!(gc.undo_stack.is_empty());
    assert!(gc.notifications.is_empty());
    // whole columns, rows and sheets are one part each
    let mut wide = Selection::all(sheet_id);
    wide.columns = Some(vec![1, 2, 3]);
    gc.js_set_bold(wide, true, None);
    assert_eq!(shown(&gc, sheet_id, 1000000, -1000000).bold, Some(true));
}

#[test]
fn cells_of_one_color_that_follow_each_other_in_a_column_make_one_fill() {
    let mut gc = GridController::test();
    let sheet_id = gc.sheet_ids()[0];
    let red = Some("red".to_string());
    let blue = Some("blue".to_string());
    gc.js_fill_color(rect(2, 1, 2, 3, sheet_id), red.clone(), None);
    gc.js_fill_color(rect(2, 4, 2, 4, sheet_id), blue, None);
    gc.js_fill_color(rect(2, 6, 2, 6, sheet_id), red.clone(), None);
    gc.js_fill_color(rect(3, 2, 3, 2, sheet_id), red, None);
    // a cell with a format but no color stands between two colored cells
    gc.js_set_bold(rect(2, 5, 2, 5, sheet_id), true, None);
    let sheet = gc.sheet(sheet_id);
    let fill = |x, y, h, color: &str| JsRenderFill {
        x,
        y,
        w: 1,
        h,
        color: color.to_string(),
    };
    assert_eq!(
        sheet.get_all_render_fills(),
        vec![
            fill(2, 1, 3, "red"),
            fill(2, 4, 1, "blue"),
            fill(2, 6, 1, "red"),
            fill(3, 2, 1, "red"),
        ]
    );
    // a fill that has a cell in the region comes whole
    assert_eq!(
        sheet.get_render_fills(Rect::new(2, 3, 2, 4)),
        vec![fill(2, 1, 3, "red"), fill(2, 4, 1, "blue")]
    );
    assert_eq!(
        sheet.get_render_fills(Rect::new(3, 0, 9, 9)),
        vec![fill(3, 2, 1, "red")]
    );
    assert!(sheet.get_render_fills(Rect::new(3, 3, 9, 9)).is_empty());
    assert!(sheet.get_render_fills(Rect::new(0, 0, 1, 9)).is_empty());
}

fn displayed(
    number: &str,
    kind: Option<NumericFormatKind>,
    symbol: Option<&str>,
    decimals: Option<i16>,
    commas: Option<bool>,
) -> String {
    let format = kind.map(|kind| NumericFormat {
        kind,
        symbol: symbol.map(|s| s.to_string()),
    });
    CellValue::Number(Decimal::parse(number).unwrap()).to_display(format, decimals, commas)
}

#[test]
fn numbers_are_written_out_in_their_format() {
    // without a format a number is written with the digits it has
    assert_eq!(displayed("12.5", None, None, None, None), "12.5");
    assert_eq!(displayed("1e3", None, None, None, None), "1000");
    assert_eq!(displayed("-0.50", None, None, None, None), "-0.50");
    // places round halves away from zero; fewer than none are none
    assert_eq!(displayed("2.345", None, None, Some(2), None), "2.35");
    assert_eq!(displayed("-2.345", None, None, Some(2), None), "-2.35");
    assert_eq!(displayed("2.5", None, None, Some(0), None), "3");
    assert_eq!(displayed("2.5", None, None, Some(-3), None), "3");
    assert_eq!(displayed("7", None, None, Some(3), None), "7.000");
    // commas group the whole part in threes
    assert_eq!(
        displayed("1234567.891", Some(NumericFormatKind::Number), None, Some(2), Some(true)),
        "1,234,567.89"
    );
    assert_eq!(displayed("999", None, None, None, Some(true)), "999");
    assert_eq!(displayed("1000", None, None, None, Some(true)), "1,000");
    assert_eq!(displayed("-100000.5", None, None, None, Some(true)), "-100,000.5");
    assert_eq!(displayed("-1000000.5", None, None, None, Some(true)), "-1,000,000.5");
    assert_eq!(displayed("0.1234567", None, None, None, Some(true)), "0.1234567");
    // a currency has two places and commas unless others are set
    let currency = Some(NumericFormatKind::Currency);
    assert_eq!(displayed("1234.5", currency, Some("$"), None, None), "$1,234.50");
    assert_eq!(displayed("-1234.5", currency, Some("$"), None, None), "-$1,234.50");
    assert_eq!(displayed("1234.5", currency, Some("kr "), Some(0), Some(false)), "kr 1235");
    assert_eq!(displayed("1234.5", currency, None, None, None), "1,234.50");
    // a percentage is the number times one hundred
    let percentage = Some(NumericFormatKind::Percentage);
    assert_eq!(displayed("0.125", percentage, None, None, None), "12.5%");
    assert_eq!(displayed("0.5", percentage, None, None, None), "50%");
    assert_eq!(displayed("0.125", percentage, None, Some(0), None), "13%");
    assert_eq!(displayed("12", percentage, None, None, Some(true)), "1,200%");
    // the exponential kind has one digit before the point
    let exponential = Some(NumericFormatKind::Exponential);
    assert_eq!(displayed("12345.678", exponential, None, None, None), "1.23e4");
    assert_eq!(displayed("12345.678", exponential, None, Some(4), Some(true)), "1.2346e4");
    assert_eq!(displayed("-0.00125", exponential, None, Some(1), None), "-1.3e-3");
    assert_eq!(displayed("5", exponential, None, Some(0), None), "5e0");
    // other values are displayed as they are edited
    assert_eq!(
        CellValue::Text("1234.5".to_string()).to_display(None, Some(1), Some(true)),
        "1234.5"
    );
    assert_eq!(CellValue::Blank.to_display(None, None, None), "");
}

#[test]
fn render_cells_hold_numbers_written_out() {
    let mut gc = GridController::test();
    let sheet_id = gc.sheet_ids()[0];
    gc.set_cell_value(SheetPos { x: 0, y: 0, sheet_id }, "1234.5".to_string(), None);
    gc.set_cell_value(SheetPos { x: 0, y: 1, sheet_id }, "0.5".to_string(), None);
    gc.js_set_currency(rect(0, 0, 0, 0, sheet_id), "$".to_string(), None);
    gc.js_set_percentage(rect(0, 1, 0, 1, sheet_id), None);
    let cells = gc.sheet(sheet_id).get_render_cells(Rect::new(0, 0, 0, 1));
    let values: Vec<&str> = cells.iter().map(|c| c.value.as_str()).collect();
    assert_eq!(values, vec!["$1,234.50", "50%"]);
}
