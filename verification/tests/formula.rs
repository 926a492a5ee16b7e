use quadratic_core::decimal::Decimal;
use quadratic_core::formula::evaluate;
use quadratic_core::pos::{Pos, SheetId, SheetRect};
use quadratic_core::sheet::Sheet;
use quadratic_core::values::{CellValue, CellValues, CodeRunResult};

fn number(s: &str) -> CellValue {
    CellValue::Number(Decimal::parse(s).unwrap())
}

fn sheet() -> Sheet {
    let mut sheet = Sheet::new(SheetId::new(3), "S".to_string(), "a0".to_string());
    sheet.set_cell_value(Pos { x: 0, y: 0 }, number("1"));
    sheet.set_cell_value(Pos { x: 1, y: 2 }, number("2.5"));
    sheet.set_cell_value(Pos { x: 27, y: 7 }, number("40"));
    sheet.set_cell_value(Pos { x: 2, y: 0 }, CellValue::Text("x".to_string()));
    sheet
}

fn value_of(code: &str) -> CodeRunResult {
    evaluate(&sheet(), code).result
}

fn ok(s: &str) -> CodeRunResult {
    CodeRunResult::Values(CellValues::single(number(s)))
}

fn failed(s: &str) -> CodeRunResult {
    CodeRunResult::Failed(s.to_string())
}

#[test]
fn formulas_add_numbers_and_cells() {
    assert_eq!(value_of("1 + 1"), ok("2"));
    assert_eq!(value_of("=A0+5"), ok("6"));
    assert_eq!(value_of("  = A0 + B2+AB7 "), ok("43.5"));
    assert_eq!(value_of("7"), ok("7"));
    // an empty cell counts as zero
    assert_eq!(value_of("A0 + Z9"), ok("1"));
    assert_eq!(value_of("10 + 10"), ok("20"));
}

#[test]
fn formulas_that_cannot_be_read_fail() {
    assert_eq!(value_of(""), failed("bad formula"));
    assert_eq!(value_of("1 +"), failed("bad formula"));
    assert_eq!(value_of("1 2"), failed("bad formula"));
    assert_eq!(value_of("A"), failed("bad formula"));
    assert_eq!(value_of("a0"), failed("bad formula"));
    assert_eq!(value_of("1 - 1"), failed("bad formula"));
    assert_eq!(value_of("C0 + 1"), failed("not a number"));
    assert_eq!(
        value_of("A99999999999999999999 + 1"),
        failed("out of range")
    );
    assert_eq!(
        value_of("AAAAAAAAAAAAAAAAAAAAAAAAAAAAAA1"),
        failed("out of range")
    );
}

#[test]
fn formulas_record_the_cells_they_read() {
    let run = evaluate(&sheet(), "A0 + 1 + B2");
    let cell = |x, y| SheetRect {
        min: Pos { x, y },
        max: Pos { x, y },
        sheet_id: SheetId::new(3),
    };
    assert_eq!(run.cells_accessed, vec![cell(0, 0), cell(1, 2)]);
    assert!(!run.spill_error);
    // a failed run keeps what it read before it failed
    let run = evaluate(&sheet(), "A0 + C0 + B2");
    assert_eq!(run.cells_accessed, vec![cell(0, 0), cell(2, 0)]);
}
