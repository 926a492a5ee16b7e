//! The formatting that a user asks for: each request is one change, made to
//! every part of a selection in one transaction.

use crate::controller::user_actions::transacted;
use crate::controller::{ControllerView, GridController};
use crate::formats::{Format, FormatUpdate, Formats};
use crate::formatting::{CellAlign, CellWrap, NumericFormat, NumericFormatKind, RenderSize};
use crate::grid::{has_sheet, sheet_of};
use crate::operation::{Operation, OperationView};
use crate::pos::{Pos, Rect, SheetId};
use crate::selection::{Selection, SelectionView, Target};
use crate::sheet_formatting::no_change;
use vstd::prelude::*;

verus! {

/// The controller after a user changed the format of every part of a
/// selection by the same change. Nothing happens where the selection has
/// more than `MAX_PARTS` parts.
pub open spec fn formatted(
    c: ControllerView,
    selection: SelectionView,
    update: FormatUpdate,
    cursor: Option<Seq<char>>,
) -> ControllerView {
    if selection.targets().len() <= crate::selection::MAX_PARTS {
        transacted(
            c,
            seq![
                OperationView::SetCellFormatsSelection {
                    selection,
                    formats: Seq::new(selection.targets().len(), |i: int| update),
                },
            ],
            cursor,
        )
    } else {
        c
    }
}

/// The change that clears every attribute.
pub open spec fn clear_all() -> FormatUpdate {
    FormatUpdate {
        align: Some(None),
        vertical_align: Some(None),
        wrap: Some(None),
        numeric_format: Some(None),
        numeric_decimals: Some(None),
        numeric_commas: Some(None),
        bold: Some(None),
        border_top: Some(None),
        border_bottom: Some(None),
        border_left: Some(None),
        border_right: Some(None),
        italic: Some(None),
        text_color: Some(None),
        fill_color: Some(None),
        render_size: Some(None),
    }
}

/// The number of decimal places after `delta` more: counted from the places
/// that the cell of the cursor shows, or from none, and no more than a
/// format can hold.
pub open spec fn more_decimals(current: Option<i16>, delta: u32) -> i16 {
    let base: int = match current {
        Some(d) => if d > 0 {
            d as int
        } else {
            0
        },
        None => 0,
    };
    if base + delta > i16::MAX {
        i16::MAX
    } else {
        (base + delta) as i16
    }
}

/// The decimal places that the cell of the cursor of a selection shows.
pub open spec fn decimals_at_cursor(c: ControllerView, selection: SelectionView) -> Option<i16> {
    if has_sheet(c.grid, selection.sheet_id) {
        sheet_of(c.grid, selection.sheet_id).formats.effective(
            Pos { x: selection.x, y: selection.y },
        ).numeric_decimals
    } else {
        None
    }
}

impl GridController {
    /// Changes the format of every part of a selection by the same change,
    /// as one transaction of the user.
    pub fn set_format_selection(
        &mut self,
        selection: Selection,
        update: FormatUpdate,
        cursor: Option<String>,
    )
        ensures
            final(self)@ == formatted(old(self)@, selection@, update, cursor.deep_view()),
    {
        let count = match selection.targets() {
            Some(targets) => targets.len(),
            None => {
                return ;
            },
        };
        let formats = Formats::repeat(update, count);
        let mut operations: Vec<Operation> = Vec::new();
        let op = Operation::SetCellFormatsSelection { selection, formats };
        let ghost view = op@;
        operations.push(op);
        assert(operations.deep_view() =~= seq![view]);
        self.start_user_transaction(operations, cursor);
    }

    /// Sets cell align formatting: to `align`, or to none.
    pub fn js_set_cell_align(
        &mut self,
        selection: Selection,
        align: Option<CellAlign>,
        cursor: Option<String>,
    )
        ensures
            final(self)@ == formatted(
                old(self)@,
                selection@,
                FormatUpdate { align: Some(align), ..no_change() },
                cursor.deep_view(),
            ),
    {
        let mut update = FormatUpdate::default();
        update.align = Some(align);
        self.set_format_selection(selection, update, cursor);
    }

    /// Sets cell wrap formatting: to `wrap`, or to none.
    pub fn js_set_cell_wrap(
        &mut self,
        selection: Selection,
        wrap: Option<CellWrap>,
        cursor: Option<String>,
    )
        ensures
            final(self)@ == formatted(
                old(self)@,
                selection@,
                FormatUpdate { wrap: Some(wrap), ..no_change() },
                cursor.deep_view(),
            ),
    {
        let mut update = FormatUpdate::default();
        update.wrap = Some(wrap);
        self.set_format_selection(selection, update, cursor);
    }

    /// Sets the numeric format of cells to normal.
    pub fn js_remove_numeric_format(&mut self, selection: Selection, cursor: Option<String>)
        ensures
            final(self)@ == formatted(
                old(self)@,
                selection@,
                FormatUpdate { numeric_format: Some(None), ..no_change() },
                cursor.deep_view(),
            ),
    {
        let mut update = FormatUpdate::default();
        update.numeric_format = Some(None);
        self.set_format_selection(selection, update, cursor);
    }

    /// Sets the numeric format of cells to currency, with the given symbol.
    pub fn js_set_currency(&mut self, selection: Selection, symbol: String, cursor: Option<String>)
        ensures
            final(self)@ == formatted(
                old(self)@,
                selection@,
                FormatUpdate {
                    numeric_format: Some(
                        Some(NumericFormat { kind: NumericFormatKind::Currency, symbol: Some(symbol) }),
                    ),
                    ..no_change()
                },
                cursor.deep_view(),
            ),
    {
        let mut update = FormatUpdate::default();
        update.numeric_format = Some(
            Some(NumericFormat { kind: NumericFormatKind::Currency, symbol: Some(symbol) }),
        );
        self.set_format_selection(selection, update, cursor);
    }

    /// Sets the numeric format of cells to percentage.
    pub fn js_set_percentage(&mut self, selection: Selection, cursor: Option<String>)
        ensures
            final(self)@ == formatted(
                old(self)@,
                selection@,
                FormatUpdate {
                    numeric_format: Some(
                        Some(NumericFormat { kind: NumericFormatKind::Percentage, symbol: None }),
                    ),
                    ..no_change()
                },
                cursor.deep_view(),
            ),
    {
        let mut update = FormatUpdate::default();
        update.numeric_format = Some(
            Some(NumericFormat { kind: NumericFormatKind::Percentage, symbol: None }),
        );
        self.set_format_selection(selection, update, cursor);
    }

    /// Sets the numeric format of cells to scientific notation.
    pub fn js_set_exponential(&mut self, selection: Selection, cursor: Option<String>)
        ensures
            final(self)@ == formatted(
                old(self)@,
                selection@,
                FormatUpdate {
                    numeric_format: Some(
                        Some(NumericFormat { kind: NumericFormatKind::Exponential, symbol: None }),
                    ),
                    ..no_change()
                },
                cursor.deep_view(),
            ),
    {
        let mut update = FormatUpdate::default();
        update.numeric_format = Some(
            Some(NumericFormat { kind: NumericFormatKind::Exponential, symbol: None }),
        );
        self.set_format_selection(selection, update, cursor);
    }

    /// Sets whether the numbers of cells are written with commas.
    pub fn js_set_commas(&mut self, selection: Selection, commas: bool, cursor: Option<String>)
        ensures
            final(self)@ == formatted(
                old(self)@,
                selection@,
                FormatUpdate { numeric_commas: Some(Some(commas)), ..no_change() },
                cursor.deep_view(),
            ),
    {
        let mut update = FormatUpdate::default();
        update.numeric_commas = Some(Some(commas));
        self.set_format_selection(selection, update, cursor);
    }

    /// Sets cell bold formatting.
    pub fn js_set_bold(&mut self, selection: Selection, bold: bool, cursor: Option<String>)
        ensures
            final(self)@ == formatted(
                old(self)@,
                selection@,
                FormatUpdate { bold: Some(Some(bold)), ..no_change() },
                cursor.deep_view(),
            ),
    {
        let mut update = FormatUpdate::default();
        update.bold = Some(Some(bold));
        self.set_format_selection(selection, update, cursor);
    }

    /// Sets cell italic formatting.
    pub fn js_set_italic(&mut self, selection: Selection, italic: bool, cursor: Option<String>)
        ensures
            final(self)@ == formatted(
                old(self)@,
                selection@,
                FormatUpdate { italic: Some(Some(italic)), ..no_change() },
                cursor.deep_view(),
            ),
    {
        let mut update = FormatUpdate::default();
        update.italic = Some(Some(italic));
        self.set_format_selection(selection, update, cursor);
    }

    /// Sets cell text color: to `text_color`, or to none.
    pub fn js_set_text_color(
        &mut self,
        selection: Selection,
        text_color: Option<String>,
        cursor: Option<String>,
    )
        ensures
            final(self)@ == formatted(
                old(self)@,
                selection@,
                FormatUpdate { text_color: Some(text_color), ..no_change() },
                cursor.deep_view(),
            ),
    {
        let mut update = FormatUpdate::default();
        update.text_color = Some(text_color);
        self.set_format_selection(selection, update, cursor);
    }

    /// Sets cell fill color: to `fill_color`, or to none.
    pub fn js_fill_color(
        &mut self,
        selection: Selection,
        fill_color: Option<String>,
        cursor: Option<String>,
    )
        ensures
            final(self)@ == formatted(
                old(self)@,
                selection@,
                FormatUpdate { fill_color: Some(fill_color), ..no_change() },
                cursor.deep_view(),
            ),
    {
        let mut update = FormatUpdate::default();
        update.fill_color = Some(fill_color);
        self.set_format_selection(selection, update, cursor);
    }

    /// Sets the size at which the cells of a rectangle are drawn: to the
    /// given width and height, or to none unless both are given.
    pub fn js_set_render_size(
        &mut self,
        sheet_id: SheetId,
        rect: Rect,
        w: Option<String>,
        h: Option<String>,
        cursor: Option<String>,
    )
        ensures
            final(self)@ == formatted(
                old(self)@,
                SelectionView {
                    sheet_id,
                    x: rect.min.x,
                    y: rect.min.y,
                    rects: Some(seq![rect]),
                    rows: None,
                    columns: None,
                    all: false,
                },
                FormatUpdate {
                    render_size: Some(
                        match (w, h) {
                            (Some(w), Some(h)) => Some(RenderSize { w, h }),
                            _ => None,
                        },
                    ),
                    ..no_change()
                },
                cursor.deep_view(),
            ),
    {
        let value = match (w, h) {
            (Some(w), Some(h)) => Some(RenderSize { w, h }),
            _ => None,
        };
        let mut update = FormatUpdate::default();
        update.render_size = Some(value);
        self.set_format_selection(Selection::sheet_rect(rect, sheet_id), update, cursor);
    }

    /// Gives the numbers of cells `delta` more decimal places than the cell
    /// of the cursor shows.
    pub fn js_change_decimal_places(&mut self, selection: Selection, delta: u32, cursor: Option<
        String,
    >)
        ensures
            final(self)@ == formatted(
                old(self)@,
                selection@,
                FormatUpdate {
                    numeric_decimals: Some(
                        Some(more_decimals(decimals_at_cursor(old(self)@, selection@), delta)),
                    ),
                    ..no_change()
                },
                cursor.deep_view(),
            ),
    {
        let current = match self.grid.try_sheet(selection.sheet_id) {
            Some(sheet) => sheet.formatting().effective(
                Pos { x: selection.x, y: selection.y },
            ).numeric_decimals,
            None => None,
        };
        let base: u64 = match current {
            Some(d) => if d > 0 {
                d as u64
            } else {
                0
            },
            None => 0,
        };
        let places: i16 = if base + delta as u64 > i16::MAX as u64 {
            i16::MAX
        } else {
            (base + delta as u64) as i16
        };
        let mut update = FormatUpdate::default();
        update.numeric_decimals = Some(Some(places));
        self.set_format_selection(selection, update, cursor);
    }

    /// Clears every formatting attribute of what is selected.
    pub fn js_clear_formatting(&mut self, selection: Selection, cursor: Option<String>)
        ensures
            final(self)@ == formatted(old(self)@, selection@, clear_all(), cursor.deep_view()),
    {
        let update = FormatUpdate {
            align: Some(None),
            vertical_align: Some(None),
            wrap: Some(None),
            numeric_format: Some(None),
            numeric_decimals: Some(None),
            numeric_commas: Some(None),
            bold: Some(None),
            border_top: Some(None),
            border_bottom: Some(None),
            border_left: Some(None),
            border_right: Some(None),
            italic: Some(None),
            text_color: Some(None),
            fill_color: Some(None),
            render_size: Some(None),
        };
        self.set_format_selection(selection, update, cursor);
    }

    /// The format that is set for the whole of a sheet; `None` where the
    /// grid has no such sheet.
    pub fn js_get_format_all(&self, sheet_id: SheetId) -> (r: Option<Format>)
        ensures
            r == if has_sheet(self.grid@, sheet_id) {
                Some(sheet_of(self.grid@, sheet_id).formats.format_of(Target::All))
            } else {
                None
            },
    {
        match self.grid.try_sheet(sheet_id) {
            Some(sheet) => Some(sheet.formatting().get(Target::All)),
            None => None,
        }
    }

    /// The format that is set for a column of a sheet.
    pub fn js_get_format_column(&self, sheet_id: SheetId, column: i32) -> (r: Option<Format>)
        ensures
            r == if has_sheet(self.grid@, sheet_id) {
                Some(sheet_of(self.grid@, sheet_id).formats.format_of(Target::Column(column as i64)))
            } else {
                None
            },
    {
        match self.grid.try_sheet(sheet_id) {
            Some(sheet) => Some(sheet.formatting().get(Target::Column(column as i64))),
            None => None,
        }
    }

    /// The format that is set for a row of a sheet.
    pub fn js_get_format_row(&self, sheet_id: SheetId, row: i32) -> (r: Option<Format>)
        ensures
            r == if has_sheet(self.grid@, sheet_id) {
                Some(sheet_of(self.grid@, sheet_id).formats.format_of(Target::Row(row as i64)))
            } else {
                None
            },
    {
        match self.grid.try_sheet(sheet_id) {
            Some(sheet) => Some(sheet.formatting().get(Target::Row(row as i64))),
            None => None,
        }
    }

    /// The format that is set for a cell of a sheet itself.
    pub fn js_get_format_cell(&self, sheet_id: SheetId, x: i32, y: i32) -> (r: Option<Format>)
        ensures
            r == if has_sheet(self.grid@, sheet_id) {
                Some(
                    sheet_of(self.grid@, sheet_id).formats.format_of(
                        Target::Cell(Pos { x: x as i64, y: y as i64 }),
                    ),
                )
            } else {
                None
            },
    {
        match self.grid.try_sheet(sheet_id) {
            Some(sheet) => Some(
                sheet.formatting().get(Target::Cell(Pos { x: x as i64, y: y as i64 })),
            ),
            None => None,
        }
    }

    /// The format that a cell of a sheet is shown in; `None` where the
    /// grid has no such sheet.
    pub fn js_cell_format_summary(&self, sheet_id: SheetId, pos: Pos) -> (r: Option<Format>)
        ensures
            r == if has_sheet(self.grid@, sheet_id) {
                Some(sheet_of(self.grid@, sheet_id).formats.effective(pos))
            } else {
                None
            },
    {
        match self.grid.try_sheet(sheet_id) {
            Some(sheet) => Some(sheet.formatting().effective(pos)),
            None => None,
        }
    }
}

} // verus!
