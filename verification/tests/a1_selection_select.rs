use quadratic_core::a1::{
    A1Selection, CellRefCoord, CellRefRange, CellRefRangeEnd, RefRangeBounds, UNBOUNDED,
};
use quadratic_core::pos::{Pos, SheetId};

fn column_of(letters: &str) -> i64 {
    let mut col: i64 = 0;
    for c in letters.chars() {
        col = col * 26 + (c as i64 - 'A' as i64 + 1);
    }
    col
}

/// Splits a corner such as `B12` into its column and its row.
fn corner(s: &str) -> (Option<i64>, Option<i64>) {
    let letters: String = s.chars().filter(|c| c.is_ascii_uppercase()).collect();
    let digits: String = s.chars().filter(|c| c.is_ascii_digit()).collect();
    let col = if letters.is_empty() {
        None
    } else {
        Some(column_of(&letters))
    };
    let row = if digits.is_empty() {
        None
    } else {
        Some(digits.parse::<i64>().unwrap())
    };
    (col, row)
}

fn range_a1(s: &str) -> CellRefRange {
    if s == "*" {
        return CellRefRange::all();
    }
    match s.split_once(':') {
        Some((from, to)) => {
            let (x0, y0) = corner(from);
            let (x1, y1) = corner(to);
            CellRefRange::new_relative(
                x0.unwrap_or(1),
                y0.unwrap_or(1),
                x1.unwrap_or(UNBOUNDED),
                y1.unwrap_or(UNBOUNDED),
            )
        }
        None => match corner(s) {
            (Some(x), Some(y)) => CellRefRange::new_relative_xy(x, y),
            (Some(x), None) => CellRefRange::new_relative_column(x),
            (None, Some(y)) => CellRefRange::new_relative_row(y),
            (None, None) => panic!("not a range: {}", s),
        },
    }
}

fn test_a1(s: &str) -> A1Selection {
    let ranges: Vec<CellRefRange> = s.split(',').map(range_a1).collect();
    let start = ranges.last().unwrap().range().start;
    A1Selection {
        sheet_id: SheetId::new(0),
        cursor: Pos {
            x: start.col(),
            y: start.row(),
        },
        ranges,
    }
}

fn column_name(mut col: i64) -> String {
    let mut name = String::new();
    while col > 0 {
        let d = ((col - 1) % 26) as u8;
        name.insert(0, (b'A' + d) as char);
        col = (col - 1) / 26;
    }
    name
}

fn corner_string(end: &CellRefRangeEnd) -> String {
    let mut s = String::new();
    if !end.col.is_unbounded() {
        s.push_str(&column_name(end.col()));
    }
    if !end.row.is_unbounded() {
        s.push_str(&end.row().to_string());
    }
    s
}

fn range_string(range: &RefRangeBounds) -> String {
    if *range == RefRangeBounds::all() {
        "*".to_string()
    } else if range.is_column_range() {
        if range.start.col() == range.end.col() {
            column_name(range.start.col())
        } else {
            let end = if range.end.col.is_unbounded() {
                String::new()
            } else {
                column_name(range.end.col())
            };
            format!("{}:{}", column_name(range.start.col()), end)
        }
    } else if range.start == range.end {
        corner_string(&range.start)
    } else {
        format!("{}:{}", corner_string(&range.start), corner_string(&range.end))
    }
}

fn test_to_string(selection: &A1Selection) -> String {
    selection
        .ranges
        .iter()
        .map(|r| range_string(&r.range()))
        .collect::<Vec<_>>()
        .join(",")
}

#[test]
fn test_select_all() {
    let mut selection = test_a1("A1,B1,C1");
    selection.select_all(false);
    assert_eq!(test_to_string(&selection), "*");

    selection = test_a1("B2");
    selection.select_all(true);
    assert_eq!(test_to_string(&selection), "B2:");
}

#[test]
fn test_select_column() {
    let mut selection = test_a1("A1");
    selection.select_column(2, false, false, false, 1);
    assert_eq!(test_to_string(&selection), "B");
}

#[test]
fn test_move_to() {
    let mut selection = test_a1("A1,B1,C1");
    selection.move_to(2, 2, false);
    assert_eq!(test_to_string(&selection), "B2");
}

#[test]
fn test_columns_selected() {
    let mut selection = test_a1("A1,B1,C1");
    selection.set_columns_selected();
    assert_eq!(selection.ranges, vec![CellRefRange::new_relative_column(3)]);

    let mut selection = test_a1("A1:C1");
    selection.set_columns_selected();
    assert_eq!(
        selection.ranges,
        vec![CellRefRange::new_relative_column_range(1, 3)]
    );

    let mut selection = test_a1("A:C");
    selection.set_columns_selected();
    assert_eq!(
        selection.ranges,
        vec![CellRefRange::new_relative_column_range(1, 3)]
    );

    let mut selection = test_a1("2:3");
    selection.set_columns_selected();
    assert_eq!(selection.ranges, vec![CellRefRange::all()]);
}

#[test]
fn test_rows_selected() {
    let mut selection = test_a1("A1,B2,C3");
    selection.set_rows_selected();
    assert_eq!(selection.ranges, vec![CellRefRange::new_relative_row(3)]);

    let mut selection = test_a1("A1:C3");
    selection.set_rows_selected();
    assert_eq!(
        selection.ranges,
        vec![CellRefRange::new_relative_row_range(1, 3)]
    );

    let mut selection = test_a1("1:3");
    selection.set_rows_selected();
    assert_eq!(
        selection.ranges,
        vec![CellRefRange::new_relative_row_range(1, 3)]
    );

    let mut selection = test_a1("C:D");
    selection.set_rows_selected();
    assert_eq!(selection.ranges, vec![CellRefRange::all()]);
}

#[test]
fn test_select_row() {
    let mut selection = test_a1("A1");
    selection.select_row(2, false, false, false, 1);
    assert_eq!(test_to_string(&selection), "A2:2");
}

#[test]
fn test_select_rect() {
    let mut selection = test_a1("A1,B2,C3");
    selection.select_rect(1, 1, 2, 2, false);
    assert_eq!(selection.ranges, vec![range_a1("A1:B2")]);
    assert_eq!(selection.cursor.x, 1);
    assert_eq!(selection.cursor.y, 1);

    selection = test_a1("A1:C3");
    selection.select_rect(3, 3, 5, 5, true);
    assert_eq!(
        selection.ranges,
        vec![range_a1("A1:C3"), range_a1("C3:E5"),]
    );
    assert_eq!(selection.cursor.x, 3);
    assert_eq!(selection.cursor.y, 3);
}

#[test]
fn test_select_to() {
    let mut selection = test_a1("A1");
    selection.select_to(2, 2, false);
    assert_eq!(selection.ranges, vec![range_a1("A1:B2")]);

    selection = test_a1("A:B");
    selection.select_to(2, 2, false);
    assert_eq!(selection.ranges, vec![range_a1("A:B2")]);

    selection = test_a1("A1");
    selection.select_to(3, 3, false);
    selection.select_to(1, 1, false);
    assert_eq!(selection.ranges, vec![range_a1("A1")]);

    let mut selection = test_a1("A1,B2,C3");
    selection.select_to(2, 2, false);
    assert_eq!(selection.ranges, vec![range_a1("C3:B2")]);
}

#[test]
fn test_add_or_remove_column() {
    let mut selection = test_a1("A1,B1,C1");
    selection.add_or_remove_column(4, 2);
    assert_eq!(
        selection.ranges,
        vec![
            range_a1("A1"),
            range_a1("B1"),
            range_a1("C1"),
            range_a1("D")
        ]
    );
    assert_eq!(selection.cursor.x, 4);
    assert_eq!(selection.cursor.y, 2);

    let mut selection = test_a1("A:D,B1,A");
    selection.add_or_remove_column(1, 2);
    assert_eq!(selection.ranges, vec![range_a1("B:D"), range_a1("B1"),]);
    assert_eq!(selection.cursor.x, 2);
    assert_eq!(selection.cursor.y, 2);

    let mut selection = test_a1("A");
    selection.add_or_remove_column(1, 2);
    assert_eq!(selection.ranges, vec![range_a1("A2")]);
    assert_eq!(selection.cursor.x, 1);
    assert_eq!(selection.cursor.y, 2);
}

#[test]
fn test_extend_column() {
    let mut selection = test_a1("A1,B");
    selection.extend_column(4, 2);
    assert_eq!(selection.ranges, vec![range_a1("A1"), range_a1("B:D")]);
    assert_eq!(selection.cursor.x, 2);
    assert_eq!(selection.cursor.y, 1);
}

#[test]
fn test_add_or_remove_row() {
    let mut selection = test_a1("A1,B2,3");
    selection.add_or_remove_row(4, 2);
    assert_eq!(
        selection.ranges,
        vec![
            range_a1("A1"),
            range_a1("B2"),
            range_a1("3"),
            range_a1("4")
        ]
    );
    assert_eq!(selection.cursor.x, 2);
    assert_eq!(selection.cursor.y, 4);

    // Test removing a row from a range
    let mut selection = test_a1("1:4");
    selection.add_or_remove_row(2, 1);
    assert_eq!(selection.ranges, vec![range_a1("1"), range_a1("3:4")]);

    // Test removing the only selected row
    let mut selection = test_a1("3");
    selection.add_or_remove_row(3, 1);
    assert_eq!(selection.ranges, vec![range_a1("A3")]);
}

#[test]
fn test_extend_row() {
    let mut selection = test_a1("A2,1");
    selection.extend_row(4, 2);
    assert_eq!(selection.ranges, vec![range_a1("A2"), range_a1("1:4")]);
    assert_eq!(selection.cursor.x, 1);
    assert_eq!(selection.cursor.y, 1);

    // Test extending an empty selection
    let mut selection = test_a1("A1");
    selection.extend_row(3, 1);
    assert_eq!(selection.ranges, vec![range_a1("A1:3")]);
}

#[test]
fn test_select_rect_single_cell() {
    let mut selection = test_a1("A1");
    selection.select_rect(2, 2, 2, 2, false);
    assert_eq!(selection.ranges, vec![range_a1("B2")]);
    assert_eq!(selection.cursor.x, 2);
    assert_eq!(selection.cursor.y, 2);
}

#[test]
fn test_select_to_with_append() {
    let mut selection = test_a1("A1");
    selection.select_to(2, 2, true);
    assert_eq!(selection.ranges, vec![range_a1("A1:B2")]);

    // Test appending to existing selection
    selection.select_to(3, 3, true);
    assert_eq!(selection.ranges, vec![range_a1("A1:C3")]);
}

#[test]
fn test_all_remove_col() {
    let mut selection = test_a1("*");
    selection.cursor = Pos { x: 1, y: 1 };
    selection.add_or_remove_column(column_of("A"), 2);
    assert_eq!(selection.ranges, vec![range_a1("B:")]);
    assert_eq!(selection.cursor, Pos { x: 2, y: 2 });

    let mut selection = test_a1("*");
    selection.add_or_remove_column(2, 1);
    assert_eq!(selection.ranges, vec![range_a1("A"), range_a1("C:")]);

    let mut selection = test_a1("*");
    selection.add_or_remove_column(3, 2);
    assert_eq!(selection.ranges, vec![range_a1("A:B"), range_a1("D:")]);
    assert_eq!(selection.cursor, Pos { x: 1, y: 1 });
}

#[test]
fn test_remove_col_from_unbounded_range() {
    let mut selection = test_a1("C:");
    selection.add_or_remove_column(3, 1);
    assert_eq!(selection.ranges, vec![range_a1("D:")]);
    assert_eq!(selection.cursor, Pos { x: 4, y: 1 });

    let mut selection = test_a1("A:B,D:");
    selection.add_or_remove_column(column_of("F"), 1);
    assert_eq!(
        selection.ranges,
        vec![range_a1("A:B"), range_a1("D:E"), range_a1("G:")]
    );
    assert_eq!(selection.cursor, Pos { x: 4, y: 1 });
}

#[test]
fn test_all_remove_row() {
    let mut selection = test_a1("*");
    selection.add_or_remove_row(1, 2);
    assert_eq!(selection.ranges, vec![range_a1("2:")]);
    assert_eq!(selection.cursor, Pos { x: 2, y: 2 });

    let mut selection = test_a1("*");
    selection.add_or_remove_row(2, 1);
    assert_eq!(selection.ranges, vec![range_a1("1"), range_a1("3:")]);

    let mut selection = test_a1("*");
    selection.add_or_remove_row(3, 1);
    assert_eq!(selection.ranges, vec![range_a1("1:2"), range_a1("4:")]);
    assert_eq!(selection.cursor, Pos { x: 1, y: 1 });
}

#[test]
fn test_remove_row_from_unbounded_range() {
    let mut selection = test_a1("3:");
    selection.add_or_remove_row(3, 1);
    assert_eq!(selection.ranges, vec![range_a1("4:")]);
    assert_eq!(selection.cursor, Pos { x: 1, y: 4 });

    let mut selection = test_a1("1:2,4:");
    selection.add_or_remove_row(6, 1);
    assert_eq!(
        selection.ranges,
        vec![range_a1("1:2"), range_a1("4:5"), range_a1("7:")]
    );
    assert_eq!(selection.cursor, Pos { x: 1, y: 4 });
}

#[test]
fn test_col_row_cross() {
    let mut selection = test_a1("*");
    selection.add_or_remove_column(column_of("D"), 1);
    assert_eq!(selection.ranges, vec![range_a1("A:C"), range_a1("E:")]);
    selection.add_or_remove_row(2, 1);
    assert_eq!(
        selection.ranges,
        vec![range_a1("A:C"), range_a1("E:"), range_a1("2")]
    );

    let mut selection = test_a1("A:D,F");
    selection.add_or_remove_row(17, 1);
    assert_eq!(
        selection.ranges,
        vec![range_a1("A:D"), range_a1("F"), range_a1("17")]
    );
}

#[test]
fn test_row_col_cross() {
    let mut selection = test_a1("*");
    selection.add_or_remove_row(4, 1);
    assert_eq!(selection.ranges, vec![range_a1("1:3"), range_a1("5:")]);
    selection.add_or_remove_column(column_of("B"), 1);
    assert_eq!(
        selection.ranges,
        vec![range_a1("1:3"), range_a1("5:"), range_a1("B")]
    );
}

#[test]
fn select_column_with_control_key_toggles_and_with_shift_key_extends() {
    let mut selection = test_a1("B");
    selection.select_column(4, true, false, false, 1);
    assert_eq!(test_to_string(&selection), "B,D");
    selection.select_column(4, true, false, false, 1);
    assert_eq!(test_to_string(&selection), "B");
    selection.select_column(5, false, true, false, 1);
    assert_eq!(test_to_string(&selection), "B:E");
    // a right click selects the column alone, whatever the keys
    selection.select_column(1, true, true, true, 3);
    assert_eq!(test_to_string(&selection), "A");
    assert_eq!(selection.cursor, Pos { x: 1, y: 3 });
}

#[test]
fn select_all_with_append_on_an_empty_selection_changes_nothing() {
    let mut selection = test_a1("A1");
    selection.ranges.clear();
    selection.select_all(true);
    assert!(selection.ranges.is_empty());
    assert_eq!(
        CellRefRange::all().range().end,
        CellRefRangeEnd {
            col: CellRefCoord::unbounded(),
            row: CellRefCoord::new_rel(UNBOUNDED),
        }
    );
}

#[test]
fn a_selection_from_a_position_holds_that_cell_alone() {
    let pos = Pos { x: 3, y: 7 };
    let selection = A1Selection::from_pos(pos, SheetId::new(4));
    assert_eq!(selection.sheet_id, SheetId::new(4));
    assert_eq!(selection.cursor, pos);
    assert_eq!(test_to_string(&selection), "C7");
    assert!(selection.contains_pos(pos));
    assert!(!selection.contains_pos(Pos { x: 3, y: 8 }));
}
