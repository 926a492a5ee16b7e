use quadratic_core::formats::{FormatUpdate, Formats};
use quadratic_core::formatting::{CellAlign, CellWrap, NumericFormatKind};

#[test]
fn repeat() {
    let update = FormatUpdate::default();
    let formats = Formats::repeat(update.clone(), 3);
    assert_eq!(formats.size(), 3);
    assert_eq!(formats.get_at(0), Some(&update));
    assert_eq!(formats.get_at(1), Some(&update));
    assert_eq!(formats.get_at(2), Some(&update));
}

#[test]
fn formats_hold_runs_in_order() {
    let bold = FormatUpdate {
        bold: Some(Some(true)),
        ..FormatUpdate::default()
    };
    let centered = FormatUpdate {
        align: Some(Some(CellAlign::Center)),
        ..FormatUpdate::default()
    };
    let mut formats = Formats::new();
    assert_eq!(formats.size(), 0);
    assert_eq!(formats.get_at(0), None);
    formats.push_n(bold.clone(), 2);
    formats.push_n(centered.clone(), 0);
    formats.push_n(centered.clone(), 1);
    assert_eq!(formats.size(), 3);
    assert_eq!(formats.get_at(1), Some(&bold));
    assert_eq!(formats.get_at(2), Some(&centered));
    assert_eq!(formats.get_at(3), None);
    assert!(!bold.is_default());
    assert!(FormatUpdate::default().is_default());
}

#[test]
fn cell_wrap_as_css_string() {
    assert_eq!(
        CellWrap::Overflow.as_css_string(),
        "overflow: visible; white-space: nowrap;"
    );
    assert_eq!(
        CellWrap::Wrap.as_css_string(),
        "overflow: hidden; white-space: normal; word-wrap: break-word;"
    );
    assert_eq!(
        CellWrap::Clip.as_css_string(),
        "overflow: hidden; white-space: clip;"
    );
    assert_eq!(CellWrap::default(), CellWrap::Overflow);
    assert_eq!(NumericFormatKind::default(), NumericFormatKind::Number);
}
