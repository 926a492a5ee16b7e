use quadratic_core::pos::{Pos, Rect, SheetId};
use quadratic_core::run_length::RunLengthEncoding;
use quadratic_core::selection::{Selection, Target, MAX_PARTS};
use quadratic_core::store::PosMap;
use quadratic_core::values::CellValue;

#[test]
fn the_parts_of_a_selection_come_in_order() {
    let sheet_id = SheetId::new(0);
    let selection = Selection {
        sheet_id,
        x: 0,
        y: 0,
        rects: Some(vec![
            Rect::new(1, 1, 2, 2),
            Rect::new(5, 5, 4, 4),
            Rect::new(7, 7, 7, 8),
        ]),
        rows: Some(vec![3]),
        columns: Some(vec![9, 8]),
        all: true,
    };
    let cell = |x, y| Target::Cell(Pos { x, y });
    assert_eq!(
        selection.targets(),
        Some(vec![
            Target::All,
            Target::Column(9),
            Target::Column(8),
            Target::Row(3),
            cell(1, 1),
            cell(2, 1),
            cell(1, 2),
            cell(2, 2),
            cell(7, 7),
            cell(7, 8),
        ])
    );
    assert_eq!(selection.clone(), selection);
    assert_eq!(Selection::all(sheet_id).targets(), Some(vec![Target::All]));
    assert_eq!(
        Selection::pos(4, 5, sheet_id).targets(),
        Some(vec![cell(4, 5)])
    );
    // too many cells
    assert_eq!(
        Selection::sheet_rect(Rect::new(i64::MIN, i64::MIN, i64::MAX, i64::MAX), sheet_id)
            .targets(),
        None
    );
    assert_eq!(
        Selection::sheet_rect(Rect::new(0, 0, i64::MAX, 0), sheet_id).targets(),
        None
    );
    assert_eq!(
        Selection::sheet_rect(Rect::new(1, 1, 1024, 1024), sheet_id)
            .targets()
            .map(|t| t.len()),
        Some(MAX_PARTS)
    );
    assert_eq!(
        Selection::sheet_rect(Rect::new(1, 1, 1024, 1025), sheet_id).targets(),
        None
    );
}

#[test]
fn a_cell_is_selected_by_any_part() {
    let sheet_id = SheetId::new(0);
    let mut selection = Selection::sheet_rect(Rect::new(1, 1, 2, 2), sheet_id);
    assert!(selection.pos_in_selection(Pos { x: 2, y: 1 }));
    assert!(!selection.pos_in_selection(Pos { x: 3, y: 1 }));
    selection.columns = Some(vec![3]);
    assert!(selection.pos_in_selection(Pos { x: 3, y: 100 }));
    selection.rows = Some(vec![-4]);
    assert!(selection.pos_in_selection(Pos { x: 77, y: -4 }));
    assert!(!selection.pos_in_selection(Pos { x: 77, y: -5 }));
    selection.all = true;
    assert!(selection.pos_in_selection(Pos { x: 77, y: -5 }));
    assert!(!Selection::rows(vec![], sheet_id).pos_in_selection(Pos { x: 0, y: 0 }));
}

#[test]
fn a_store_keeps_its_values_in_the_order_of_positions() {
    let mut store: PosMap<CellValue> = PosMap::new();
    let text = |s: &str| CellValue::Text(s.to_string());
    assert_eq!(store.set(Pos { x: 2, y: 0 }, text("c")), None);
    assert_eq!(store.set(Pos { x: 0, y: 5 }, text("a")), None);
    assert_eq!(store.set(Pos { x: 0, y: 9 }, text("b")), None);
    assert_eq!(store.set(Pos { x: 0, y: 5 }, text("A")), Some(text("a")));
    assert_eq!(store.len(), 3);
    assert_eq!(store.pos_at(0), Pos { x: 0, y: 5 });
    assert_eq!(store.pos_at(1), Pos { x: 0, y: 9 });
    assert_eq!(store.pos_at(2), Pos { x: 2, y: 0 });
    assert_eq!(store.value_at_index(0), &text("A"));
    assert_eq!(store.get(Pos { x: 0, y: 9 }), Some(&text("b")));
    assert_eq!(store.get(Pos { x: 1, y: 9 }), None);
    assert!(store.contains(Pos { x: 2, y: 0 }));
    assert_eq!(store.remove(Pos { x: 0, y: 9 }), Some(text("b")));
    assert_eq!(store.remove(Pos { x: 0, y: 9 }), None);
    assert_eq!(store.len(), 2);
    store.push_last(Pos { x: 2, y: 1 }, text("d"));
    assert_eq!(store.pos_at(2), Pos { x: 2, y: 1 });
}

#[test]
fn a_run_length_encoding_counts_and_finds_its_values() {
    let mut values: RunLengthEncoding<u8> = RunLengthEncoding::new();
    assert!(values.is_empty());
    values.push_n(7, 3);
    values.push(9);
    values.push_n(7, 0);
    values.push_n(8, 2);
    assert_eq!(values.size(), 6);
    assert_eq!(values.run_count(), 3);
    assert_eq!(values.run(1), (&9, 1));
    let all: Vec<Option<&u8>> = (0..7).map(|i| values.get_at(i)).collect();
    assert_eq!(
        all,
        vec![Some(&7), Some(&7), Some(&7), Some(&9), Some(&8), Some(&8), None]
    );
    assert_eq!(values.clone(), values);
}
