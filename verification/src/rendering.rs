//! What a sheet hands to the renderer.

use crate::display::spec_to_display;
use crate::formats::{clone_numeric_format, Format};
use crate::formatting::{BorderStyle, CellAlign, CellWrap, NumericFormat};
use crate::pos::{Pos, Rect};
use crate::sheet::{output_rect, run_output_rect, Sheet, SheetView};
use crate::sorted::{sorted, Keyed};
use crate::store::value_at;
use crate::text::str_eq;
use crate::values::{
    spec_to_edit, CellValue, CellValueView, CellValuesView, CodeCellLanguage, CodeRun,
    CodeRunResult, CodeRunResultView, CodeRunView,
};
use vstd::prelude::*;

verus! {

/// How the last run of a code cell ended, as the renderer shows it.
#[derive(Clone, Copy, Debug, PartialEq, Eq, Hash, Structural)]
pub enum JsRenderCodeCellState {
    NotYetRun,
    RunError,
    SpillError,
    Success,
}

/// The frame of a code cell: where it is, how much room its output takes,
/// its language and how its last run ended.
#[derive(Clone, Copy, Debug, PartialEq, Eq, Hash, Structural)]
pub struct JsRenderCodeCell {
    pub x: i64,
    pub y: i64,
    pub w: u32,
    pub h: u32,
    pub language: CodeCellLanguage,
    pub state: JsRenderCodeCellState,
}

/// The frame of the code cell at `pos`: one cell large unless its run
/// succeeded and its output shows.
pub open spec fn code_cell_frame(
    sheet: SheetView,
    pos: Pos,
    language: CodeCellLanguage,
) -> JsRenderCodeCell {
    match sheet.run_at(pos) {
        Some(run) => match run.result {
            CodeRunResultView::Values(_) => if run.spill_error {
                JsRenderCodeCell {
                    x: pos.x,
                    y: pos.y,
                    w: 1,
                    h: 1,
                    language,
                    state: JsRenderCodeCellState::SpillError,
                }
            } else {
                JsRenderCodeCell {
                    x: pos.x,
                    y: pos.y,
                    w: run.output_w(),
                    h: run.output_h(),
                    language,
                    state: JsRenderCodeCellState::Success,
                }
            },
            CodeRunResultView::Failed(_) => JsRenderCodeCell {
                x: pos.x,
                y: pos.y,
                w: 1,
                h: 1,
                language,
                state: JsRenderCodeCellState::RunError,
            },
        },
        None => JsRenderCodeCell {
            x: pos.x,
            y: pos.y,
            w: 1,
            h: 1,
            language,
            state: JsRenderCodeCellState::NotYetRun,
        },
    }
}

/// Whether a position is inside the region; every position is inside when
/// no region is given.
pub open spec fn inside(region: Option<Rect>, pos: Pos) -> bool {
    match region {
        Some(rect) => rect.spec_contains(pos),
        None => true,
    }
}

/// The frames of the code cells among the first `k` stored values that lie
/// in the region, in the order of positions.
pub open spec fn code_cell_frames(sheet: SheetView, region: Option<Rect>, k: int) -> Seq<
    JsRenderCodeCell,
>
    decreases k,
{
    if k <= 0 || k > sheet.cells.len() {
        Seq::empty()
    } else {
        match sheet.cells[k - 1].1 {
            CellValueView::Code(code) => if inside(region, sheet.cells[k - 1].0) {
                code_cell_frames(sheet, region, k - 1).push(
                    code_cell_frame(sheet, sheet.cells[k - 1].0, code.language),
                )
            } else {
                code_cell_frames(sheet, region, k - 1)
            },
            _ => code_cell_frames(sheet, region, k - 1),
        }
    }
}

/// A cell as the renderer draws it.
#[derive(Debug, PartialEq, Eq)]
pub struct JsRenderCell {
    pub x: i64,
    pub y: i64,
    pub value: String,
    /// The language of the code cell, for the cell that holds the code.
    pub language: Option<CodeCellLanguage>,
    pub align: Option<CellAlign>,
    pub wrap: Option<CellWrap>,
    pub bold: Option<bool>,
    pub italic: Option<bool>,
    pub text_color: Option<String>,
}

pub struct JsRenderCellView {
    pub x: i64,
    pub y: i64,
    pub value: Seq<char>,
    pub language: Option<CodeCellLanguage>,
    pub align: Option<CellAlign>,
    pub wrap: Option<CellWrap>,
    pub bold: Option<bool>,
    pub italic: Option<bool>,
    pub text_color: Option<Seq<char>>,
}

impl View for JsRenderCell {
    type V = JsRenderCellView;

    open spec fn view(&self) -> JsRenderCellView {
        JsRenderCellView {
            x: self.x,
            y: self.y,
            value: self.value@,
            language: self.language,
            align: self.align,
            wrap: self.wrap,
            bold: self.bold,
            italic: self.italic,
            text_color: self.text_color.deep_view(),
        }
    }
}

impl DeepView for JsRenderCell {
    type V = JsRenderCellView;

    open spec fn deep_view(&self) -> JsRenderCellView {
        self@
    }
}

/// A value as the renderer draws it at a position, in the format that the
/// cell is shown in. Numbers are written out in their format, and stand to
/// the right unless they are aligned.
pub open spec fn drawn(
    f: Format,
    pos: Pos,
    value: CellValueView,
    language: Option<CodeCellLanguage>,
) -> JsRenderCellView {
    JsRenderCellView {
        x: pos.x,
        y: pos.y,
        value: spec_to_display(value, f.numeric_format, f.numeric_decimals, f.numeric_commas),
        language,
        align: if value is Number && f.align is None {
            Some(CellAlign::Right)
        } else {
            f.align
        },
        wrap: f.wrap,
        bold: f.bold,
        italic: f.italic,
        text_color: f.text_color.deep_view(),
    }
}

/// The mark that the renderer draws for a run that has no output to show:
/// in red italics.
pub open spec fn drawn_mark(
    pos: Pos,
    mark: Seq<char>,
    language: Option<CodeCellLanguage>,
) -> JsRenderCellView {
    JsRenderCellView {
        x: pos.x,
        y: pos.y,
        value: mark,
        language,
        align: None,
        wrap: None,
        bold: None,
        italic: Some(true),
        text_color: Some("red"@),
    }
}

/// The texts and numbers among the first `k` stored values that lie in the
/// rectangle, as drawn.
pub open spec fn value_cells(sheet: SheetView, rect: Rect, k: int) -> Seq<JsRenderCellView>
    decreases k,
{
    if k <= 0 || k > sheet.cells.len() {
        Seq::empty()
    } else {
        let (pos, value) = sheet.cells[k - 1];
        if rect.spec_contains(pos) && !(value is Code) {
            value_cells(sheet, rect, k - 1).push(
                drawn(sheet.formats.effective(pos), pos, value, None),
            )
        } else {
            value_cells(sheet, rect, k - 1)
        }
    }
}

/// The language of the code cell at a position.
pub open spec fn language_at(sheet: SheetView, pos: Pos) -> Option<CodeCellLanguage> {
    match value_at(sheet.cells, pos) {
        Some(CellValueView::Code(code)) => Some(code.language),
        _ => None,
    }
}

/// The position of the `k`-th value of an output, if it is on the grid.
pub open spec fn output_pos(at: Pos, w: u32, k: int) -> Option<Pos> {
    if w > 0 && at.x + k % (w as int) <= i64::MAX && at.y + k / (w as int) <= i64::MAX {
        Some(Pos { x: (at.x + k % (w as int)) as i64, y: (at.y + k / (w as int)) as i64 })
    } else {
        None
    }
}

/// The first `k` values of the output of a run that are on the grid, in
/// the rectangle and not blank, as drawn. The first value carries the
/// language of the code cell.
pub open spec fn output_cells(
    sheet: SheetView,
    rect: Rect,
    at: Pos,
    values: CellValuesView,
    k: int,
) -> Seq<JsRenderCellView>
    decreases k,
{
    if k <= 0 || k > values.values.len() {
        Seq::empty()
    } else {
        let before = output_cells(sheet, rect, at, values, k - 1);
        match output_pos(at, values.w, k - 1) {
            Some(pos) => if rect.spec_contains(pos) && !(values.values[k - 1] is Blank) {
                before.push(
                    drawn(
                        sheet.formats.effective(pos),
                        pos,
                        values.values[k - 1],
                        if k == 1 {
                            language_at(sheet, at)
                        } else {
                            None
                        },
                    ),
                )
            } else {
                before
            },
            None => before,
        }
    }
}

/// What the renderer draws for one run: its output, or a mark at its code
/// cell where it failed or its output does not show.
pub open spec fn run_cells(sheet: SheetView, rect: Rect, at: Pos, run: CodeRunView) -> Seq<
    JsRenderCellView,
> {
    match run.result {
        CodeRunResultView::Failed(_) => if rect.spec_contains(at) {
            seq![drawn_mark(at, " ERROR"@, language_at(sheet, at))]
        } else {
            Seq::empty()
        },
        CodeRunResultView::Values(values) => if run.spill_error {
            if rect.spec_contains(at) {
                seq![drawn_mark(at, " SPILL"@, language_at(sheet, at))]
            } else {
                Seq::empty()
            }
        } else {
            output_cells(sheet, rect, at, values, values.values.len() as int)
        },
    }
}

/// What the renderer draws for the first `j` runs.
pub open spec fn runs_cells(sheet: SheetView, rect: Rect, j: int) -> Seq<JsRenderCellView>
    decreases j,
{
    if j <= 0 || j > sheet.code_runs.len() {
        Seq::empty()
    } else {
        runs_cells(sheet, rect, j - 1) + run_cells(
            sheet,
            rect,
            sheet.code_runs[j - 1].0,
            sheet.code_runs[j - 1].1,
        )
    }
}

/// What the renderer draws in a rectangle: the texts and numbers stored in
/// it, in the order of positions, and then what the runs show in it.
pub open spec fn spec_render_cells(sheet: SheetView, rect: Rect) -> Seq<JsRenderCellView> {
    value_cells(sheet, rect, sheet.cells.len() as int) + runs_cells(
        sheet,
        rect,
        sheet.code_runs.len() as int,
    )
}

/// A filled cell as the renderer draws it.
#[derive(Debug, PartialEq, Eq)]
pub struct JsRenderFill {
    pub x: i64,
    pub y: i64,
    pub w: u32,
    pub h: u32,
    pub color: String,
}

pub struct JsRenderFillView {
    pub x: i64,
    pub y: i64,
    pub w: u32,
    pub h: u32,
    pub color: Seq<char>,
}

impl View for JsRenderFill {
    type V = JsRenderFillView;

    open spec fn view(&self) -> JsRenderFillView {
        JsRenderFillView { x: self.x, y: self.y, w: self.w, h: self.h, color: self.color@ }
    }
}

impl DeepView for JsRenderFill {
    type V = JsRenderFillView;

    open spec fn deep_view(&self) -> JsRenderFillView {
        self@
    }
}

/// The fill of one cell.
pub open spec fn cell_fill(pos: Pos, color: Seq<char>) -> JsRenderFillView {
    JsRenderFillView { x: pos.x, y: pos.y, w: 1, h: 1, color }
}

/// Whether a cell of the given color goes on a fill: it lies in the fill's
/// column, right below its last cell, and has its color. A fill does not grow
/// beyond the largest height that it can state.
pub open spec fn continues(fill: JsRenderFillView, pos: Pos, color: Seq<char>) -> bool {
    &&& fill.x == pos.x
    &&& fill.y + fill.h == pos.y
    &&& fill.color == color
    &&& fill.h < u32::MAX
}

/// The fill with one more cell below.
pub open spec fn grown(fill: JsRenderFillView) -> JsRenderFillView {
    JsRenderFillView { h: (fill.h + 1) as u32, ..fill }
}

/// The fills of the first `k` cells that have a format of their own, in the
/// order of positions, which goes down each column in turn: cells of one
/// color that follow each other in a column make one fill, as high as there
/// are cells.
pub open spec fn fill_runs(sheet: SheetView, k: int) -> Seq<JsRenderFillView>
    decreases k,
{
    if k <= 0 || k > sheet.formats.cells.len() {
        Seq::empty()
    } else {
        let before = fill_runs(sheet, k - 1);
        let (pos, format) = sheet.formats.cells[k - 1];
        match format.fill_color {
            Some(color) => if before.len() > 0 && continues(before.last(), pos, color@) {
                before.drop_last().push(grown(before.last()))
            } else {
                before.push(cell_fill(pos, color@))
            },
            None => before,
        }
    }
}

/// Whether a cell is one of those that a fill takes up.
pub open spec fn covers(fill: JsRenderFillView, pos: Pos) -> bool {
    fill.x == pos.x && fill.y <= pos.y < fill.y + fill.h
}

/// Whether one of the first `k` cells that have a format of their own is
/// the cell at `pos`, with the given fill color.
pub open spec fn colored(sheet: SheetView, k: int, pos: Pos, color: Seq<char>) -> bool {
    exists|i: int|
        0 <= i < k && i < sheet.formats.cells.len() && (#[trigger] sheet.formats.cells[i]).0 == pos
            && sheet.formats.cells[i].1.fill_color.deep_view() == Some(color)
}

/// What the fills are: each is one cell wide and at least one high; the
/// cells that a fill takes up have its color; every cell with a color is
/// taken up by a fill of that color; no cell is taken up by two fills; and
/// no fill goes on where the one before it ends.
pub proof fn lemma_fill_runs(sheet: SheetView, k: int)
    requires
        0 <= k <= sheet.formats.cells.len(),
        sorted(sheet.formats.cells),
    ensures
        forall|a: int, b: int, pos: Pos|
            0 <= a < b < fill_runs(sheet, k).len() ==> !(#[trigger] covers(
                fill_runs(sheet, k)[a],
                pos,
            ) && #[trigger] covers(fill_runs(sheet, k)[b], pos)),
        forall|a: int|
            0 <= a < fill_runs(sheet, k).len() ==> (#[trigger] fill_runs(sheet, k)[a]).w == 1
                && fill_runs(sheet, k)[a].h >= 1,
        forall|a: int, pos: Pos|
            0 <= a < fill_runs(sheet, k).len() && #[trigger] covers(fill_runs(sheet, k)[a], pos)
                ==> colored(sheet, k, pos, fill_runs(sheet, k)[a].color),
        forall|pos: Pos, color: Seq<char>| #[trigger]
            colored(sheet, k, pos, color) ==> exists|a: int|
                0 <= a < fill_runs(sheet, k).len() && #[trigger] covers(fill_runs(sheet, k)[a], pos)
                    && fill_runs(sheet, k)[a].color == color,
        forall|a: int|
            0 <= a < fill_runs(sheet, k).len() - 1 ==> !continues(
                #[trigger] fill_runs(sheet, k)[a],
                Pos { x: fill_runs(sheet, k)[a + 1].x, y: fill_runs(sheet, k)[a + 1].y },
                fill_runs(sheet, k)[a + 1].color,
            ),
    decreases k,
{
    if k > 0 {
        lemma_fill_runs(sheet, k - 1);
        let before = fill_runs(sheet, k - 1);
        let after = fill_runs(sheet, k);
        let cells = sheet.formats.cells;
        let (at, format) = cells[k - 1];
        let n = before.len() as int;
        // What was colored among fewer cells is colored among more.
        assert forall|pos: Pos, color: Seq<char>| colored(sheet, k - 1, pos, color) implies colored(
            sheet,
            k,
            pos,
            color,
        ) by {
            let i = choose|i: int|
                0 <= i < k - 1 && i < cells.len() && (#[trigger] cells[i]).0 == pos
                    && cells[i].1.fill_color.deep_view() == Some(color);
            assert(0 <= i < k && cells[i].0 == pos);
        }
        match format.fill_color {
            Some(own) => {
                assert(cells[k - 1].0 == at);
                assert(colored(sheet, k, at, own@));
                let joins = n > 0 && continues(before.last(), at, own@);
                let m = if joins { n - 1 } else { n };
                assert(after.len() == m + 1);
                assert(forall|a: int| 0 <= a < m ==> after[a] == before[a]);
                assert(covers(after[m], at));
                assert(after[m].color == own@);
                // The new cell was in no fill: no cell before it is at its place.
                assert forall|a: int| 0 <= a < n implies !covers(#[trigger] before[a], at) by {
                    if covers(before[a], at) {
                        assert(colored(sheet, k - 1, at, before[a].color));
                        let i = choose|i: int|
                            0 <= i < k - 1 && i < cells.len() && (#[trigger] cells[i]).0 == at
                                && cells[i].1.fill_color.deep_view() == Some(before[a].color);
                        assert(<(Pos, Format) as Keyed>::key_lt(
                            cells[i].key(),
                            cells[k - 1].key(),
                        ));
                    }
                }
                assert forall|a: int, b: int, pos: Pos| 0 <= a < b < after.len() implies !(
                #[trigger] covers(after[a], pos) && #[trigger] covers(after[b], pos)) by {
                    if covers(after[a], pos) && covers(after[b], pos) {
                        assert(covers(before[a], pos));
                        if b < m {
                            assert(covers(before[b], pos));
                        } else if pos != at {
                            assert(covers(before[m], pos));
                        }
                    }
                }
                assert forall|a: int, pos: Pos|
                    0 <= a < after.len() && #[trigger] covers(after[a], pos) implies colored(
                    sheet,
                    k,
                    pos,
                    after[a].color,
                ) by {
                    if a < m {
                        assert(covers(before[a], pos));
                    } else if pos != at {
                        assert(joins);
                        assert(covers(before[m], pos));
                    }
                }
                assert forall|pos: Pos, color: Seq<char>| #[trigger]
                    colored(sheet, k, pos, color) implies exists|a: int|
                    0 <= a < after.len() && #[trigger] covers(after[a], pos) && after[a].color
                        == color by {
                    let i = choose|i: int|
                        0 <= i < k && i < cells.len() && (#[trigger] cells[i]).0 == pos
                            && cells[i].1.fill_color.deep_view() == Some(color);
                    if i == k - 1 {
                        assert(covers(after[m], pos) && after[m].color == color);
                    } else {
                        assert(colored(sheet, k - 1, pos, color));
                        let a = choose|a: int|
                            0 <= a < before.len() && #[trigger] covers(before[a], pos)
                                && before[a].color == color;
                        if a < m {
                            assert(covers(after[a], pos) && after[a].color == color);
                        } else {
                            assert(covers(after[m], pos) && after[m].color == color);
                        }
                    }
                }
                assert forall|a: int| 0 <= a < after.len() - 1 implies !continues(
                    #[trigger] after[a],
                    Pos { x: after[a + 1].x, y: after[a + 1].y },
                    after[a + 1].color,
                ) by {
                    if a + 1 < m {
                        assert(after[a + 1] == before[a + 1]);
                    } else if joins {
                        assert(after[a] == before[a]);
                        assert(after[a + 1].x == before[a + 1].x && after[a + 1].y == before[a
                            + 1].y && after[a + 1].color == before[a + 1].color);
                    }
                }
            },
            None => {
                assert forall|pos: Pos, color: Seq<char>| #[trigger]
                    colored(sheet, k, pos, color) implies exists|a: int|
                    0 <= a < after.len() && #[trigger] covers(after[a], pos) && after[a].color
                        == color by {
                    let i = choose|i: int|
                        0 <= i < k && i < cells.len() && (#[trigger] cells[i]).0 == pos
                            && cells[i].1.fill_color.deep_view() == Some(color);
                    assert(i < k - 1);
                    assert(colored(sheet, k - 1, pos, color));
                }
            },
        }
    }
}

/// Whether a fill has a cell in the region.
pub open spec fn meets(fill: JsRenderFillView, region: Rect) -> bool {
    &&& region.min.x <= fill.x <= region.max.x
    &&& fill.y <= region.max.y
    &&& region.min.y <= fill.y + fill.h - 1
}

/// Those of the first `k` fills that have a cell in the region, whole.
pub open spec fn meeting(fills: Seq<JsRenderFillView>, region: Rect, k: int) -> Seq<
    JsRenderFillView,
>
    decreases k,
{
    if k <= 0 || k > fills.len() {
        Seq::empty()
    } else if meets(fills[k - 1], region) {
        meeting(fills, region, k - 1).push(fills[k - 1])
    } else {
        meeting(fills, region, k - 1)
    }
}

/// The fills of a sheet: all of them, or those that have a cell in the
/// region.
pub open spec fn fills(sheet: SheetView, region: Option<Rect>) -> Seq<JsRenderFillView> {
    let all = fill_runs(sheet, sheet.formats.cells.len() as int);
    match region {
        Some(rect) => meeting(all, rect, all.len() as int),
        None => all,
    }
}

/// A stretch of border as the renderer draws it: a horizontal one has a
/// width and starts at the top left of its cell, a vertical one has a height.
#[derive(Clone, Copy, Debug, PartialEq, Eq, Hash, Structural)]
pub struct JsRenderBorder {
    pub x: i64,
    pub y: i64,
    pub w: Option<usize>,
    pub h: Option<usize>,
    pub style: BorderStyle,
}

/// The border along the top of the cell at `pos`.
pub open spec fn border_above(pos: Pos, style: BorderStyle) -> JsRenderBorder {
    JsRenderBorder { x: pos.x, y: pos.y, w: Some(1usize), h: None, style }
}

/// The border along the left of the cell at `pos`.
pub open spec fn border_beside(pos: Pos, style: BorderStyle) -> JsRenderBorder {
    JsRenderBorder { x: pos.x, y: pos.y, w: None, h: Some(1usize), style }
}

/// The borders along the top and the bottom of a cell: the one at the
/// bottom is drawn along the top of the cell below, if there is one.
pub open spec fn cell_horizontal_borders(pos: Pos, format: Format) -> Seq<JsRenderBorder> {
    (match format.border_top {
        Some(style) => seq![border_above(pos, style)],
        None => Seq::empty(),
    }) + (match format.border_bottom {
        Some(style) => if pos.y < i64::MAX {
            seq![border_above(Pos { x: pos.x, y: (pos.y + 1) as i64 }, style)]
        } else {
            Seq::empty()
        },
        None => Seq::empty(),
    })
}

/// The borders along the left and the right of a cell: the one at the right
/// is drawn along the left of the next cell, if there is one.
pub open spec fn cell_vertical_borders(pos: Pos, format: Format) -> Seq<JsRenderBorder> {
    (match format.border_left {
        Some(style) => seq![border_beside(pos, style)],
        None => Seq::empty(),
    }) + (match format.border_right {
        Some(style) => if pos.x < i64::MAX {
            seq![border_beside(Pos { x: (pos.x + 1) as i64, y: pos.y }, style)]
        } else {
            Seq::empty()
        },
        None => Seq::empty(),
    })
}

/// The horizontal borders of the first `k` cells that have a format of
/// their own.
pub open spec fn horizontal_borders(sheet: SheetView, k: int) -> Seq<JsRenderBorder>
    decreases k,
{
    if k <= 0 || k > sheet.formats.cells.len() {
        Seq::empty()
    } else {
        horizontal_borders(sheet, k - 1) + cell_horizontal_borders(
            sheet.formats.cells[k - 1].0,
            sheet.formats.cells[k - 1].1,
        )
    }
}

/// The vertical borders of the first `k` cells that have a format of their
/// own.
pub open spec fn vertical_borders(sheet: SheetView, k: int) -> Seq<JsRenderBorder>
    decreases k,
{
    if k <= 0 || k > sheet.formats.cells.len() {
        Seq::empty()
    } else {
        vertical_borders(sheet, k - 1) + cell_vertical_borders(
            sheet.formats.cells[k - 1].0,
            sheet.formats.cells[k - 1].1,
        )
    }
}

/// Whether the region holds a stored value, or a cell of the output of a
/// run.
pub open spec fn spec_has_render_cells(sheet: SheetView, region: Rect) -> bool {
    ||| exists|i: int|
        0 <= i < sheet.cells.len() && region.spec_contains((#[trigger] sheet.cells[i]).0)
    ||| exists|j: int|
        0 <= j < sheet.code_runs.len() && output_rect(
            (#[trigger] sheet.code_runs[j]).0,
            sheet.code_runs[j].1,
        ).spec_intersects(region)
}

impl Sheet {
    /// Whether the region holds anything that might be drawn: a stored
    /// value, or a cell of the output of a run.
    pub fn has_render_cells(&self, region: Rect) -> (r: bool)
        ensures
            r == spec_has_render_cells(self@, region),
    {
        let mut i: usize = 0;
        while i < self.cell_count()
            invariant
                i <= self@.cells.len(),
                forall|k: int| 0 <= k < i ==> !region.spec_contains((#[trigger] self@.cells[k]).0),
            decreases self@.cells.len() - i,
        {
            if region.contains(self.cell_pos_at(i)) {
                return true;
            }
            i = i + 1;
        }
        let mut j: usize = 0;
        while j < self.code_run_count()
            invariant
                j <= self@.code_runs.len(),
                forall|k: int|
                    0 <= k < self@.cells.len() ==> !region.spec_contains(
                        (#[trigger] self@.cells[k]).0,
                    ),
                forall|k: int|
                    0 <= k < j ==> !output_rect(
                        (#[trigger] self@.code_runs[k]).0,
                        self@.code_runs[k].1,
                    ).spec_intersects(region),
            decreases self@.code_runs.len() - j,
        {
            let rect = run_output_rect(self.code_run_pos(j), self.code_run_at_index(j));
            if rect.intersects(region) {
                return true;
            }
            j = j + 1;
        }
        false
    }

    /// A value as the renderer draws it at a position.
    fn draw(&self, pos: Pos, value: &CellValue, language: Option<CodeCellLanguage>) -> (r:
        JsRenderCell)
        ensures
            r@ == drawn(self@.formats.effective(pos), pos, value@, language),
    {
        let f = self.formatting().effective(pos);
        let is_number = match value {
            CellValue::Number(_) => true,
            _ => false,
        };
        JsRenderCell {
            x: pos.x,
            y: pos.y,
            value: value.to_display(
                clone_numeric_format(&f.numeric_format),
                f.numeric_decimals,
                f.numeric_commas,
            ),
            language,
            align: if is_number && f.align.is_none() {
                Some(CellAlign::Right)
            } else {
                f.align
            },
            wrap: f.wrap,
            bold: f.bold,
            italic: f.italic,
            text_color: f.text_color,
        }
    }

    /// The language of the code cell at a position.
    fn code_language(&self, pos: Pos) -> (r: Option<CodeCellLanguage>)
        ensures
            r == language_at(self@, pos),
    {
        match self.cell_value(pos) {
            Some(CellValue::Code(code)) => Some(code.language),
            _ => None,
        }
    }

    /// What the renderer draws for one run.
    fn render_run(&self, rect: Rect, at: Pos, run: &CodeRun, cells: &mut Vec<JsRenderCell>)
        ensures
            final(cells).deep_view() == old(cells).deep_view() + run_cells(self@, rect, at, run@),
    {
        let ghost before = cells.deep_view();
        let failed = match &run.result {
            CodeRunResult::Failed(_) => true,
            CodeRunResult::Values(_) => false,
        };
        if failed || run.spill_error {
            if rect.contains(at) {
                cells.push(
                    JsRenderCell {
                        x: at.x,
                        y: at.y,
                        value: String::from_str(if failed { " ERROR" } else { " SPILL" }),
                        language: self.code_language(at),
                        align: None,
                        wrap: None,
                        bold: None,
                        italic: Some(true),
                        text_color: Some(String::from_str("red")),
                                    },
                );
            }
            assert(cells.deep_view() =~= before + run_cells(self@, rect, at, run@));
            return ;
        }
        match &run.result {
            CodeRunResult::Values(values) => {
                let w: u32 = values.w();
                let n: usize = values.len();
                let mut k: usize = 0;
                assert(cells.deep_view() =~= before + output_cells(self@, rect, at, values@, 0));
                while k < n
                    invariant
                        k <= n,
                        n == values@.values.len(),
                        w == values@.w,
                        cells.deep_view() == before + output_cells(
                            self@,
                            rect,
                            at,
                            values@,
                            k as int,
                        ),
                    decreases n - k,
                {
                    let value = values.nth(k);
                    if w > 0 {
                        let x: i128 = at.x as i128 + (k as u64 % w as u64) as i128;
                        let y: i128 = at.y as i128 + (k as u64 / w as u64) as i128;
                        if x <= i64::MAX as i128 && y <= i64::MAX as i128 {
                            let pos = Pos { x: x as i64, y: y as i64 };
                            if rect.contains(pos) && !value.is_blank() {
                                let language = if k == 0 {
                                    self.code_language(at)
                                } else {
                                    None
                                };
                                let ghost so_far = cells.deep_view();
                                let cell = self.draw(pos, value, language);
                                cells.push(cell);
                                assert(cells.deep_view() =~= so_far.push(cell@));
                            }
                        }
                    }
                    k = k + 1;
                    assert(cells.deep_view() =~= before + output_cells(
                        self@,
                        rect,
                        at,
                        values@,
                        k as int,
                    ));
                }
            },
            CodeRunResult::Failed(_) => {},
        }
    }

    /// What the renderer draws in a rectangle: the texts and numbers stored
    /// in it, each in the format that its cell is shown in, and then what
    /// the runs show in it.
    pub fn get_render_cells(&self, rect: Rect) -> (r: Vec<JsRenderCell>)
        ensures
            r.deep_view() == spec_render_cells(self@, rect),
    {
        let mut r: Vec<JsRenderCell> = Vec::new();
        let mut k: usize = 0;
        assert(r.deep_view() =~= value_cells(self@, rect, 0));
        while k < self.cell_count()
            invariant
                k <= self@.cells.len(),
                r.deep_view() == value_cells(self@, rect, k as int),
            decreases self@.cells.len() - k,
        {
            let pos = self.cell_pos_at(k);
            let value = self.cell_value_at_index(k);
            if rect.contains(pos) && !value.is_code() {
                let ghost so_far = r.deep_view();
                let cell = self.draw(pos, value, None);
                r.push(cell);
                assert(r.deep_view() =~= so_far.push(cell@));
            }
            k = k + 1;
        }
        let ghost stored = r.deep_view();
        let mut j: usize = 0;
        assert(r.deep_view() =~= stored + runs_cells(self@, rect, 0));
        while j < self.code_run_count()
            invariant
                j <= self@.code_runs.len(),
                r.deep_view() == stored + runs_cells(self@, rect, j as int),
            decreases self@.code_runs.len() - j,
        {
            let ghost so_far = r.deep_view();
            self.render_run(rect, self.code_run_pos(j), self.code_run_at_index(j), &mut r);
            j = j + 1;
            assert(r.deep_view() =~= stored + runs_cells(self@, rect, j as int));
        }
        r
    }

    /// The fills of all cells that have a fill color of their own, the cells
    /// of one color that follow each other in a column joined.
    pub fn get_all_render_fills(&self) -> (r: Vec<JsRenderFill>)
        ensures
            r.deep_view() == fills(self@, None),
    {
        let formatting = self.formatting();
        let mut r: Vec<JsRenderFill> = Vec::new();
        let mut k: usize = 0;
        assert(r.deep_view() =~= fill_runs(self@, 0));
        while k < formatting.cell_count()
            invariant
                k <= self@.formats.cells.len(),
                formatting@ == self@.formats,
                r.deep_view() == fill_runs(self@, k as int),
            decreases self@.formats.cells.len() - k,
        {
            let pos = formatting.cell_pos_at(k);
            let ghost before = r.deep_view();
            match &formatting.cell_format_at(k).fill_color {
                Some(color) => {
                    let goes_on = match r.last() {
                        Some(fill) => fill.x == pos.x && fill.y as i128 + fill.h as i128
                            == pos.y as i128 && str_eq(fill.color.as_str(), color.as_str())
                            && fill.h < u32::MAX,
                        None => false,
                    };
                    assert(goes_on == (before.len() > 0 && continues(before.last(), pos, color@)));
                    if goes_on {
                        let last = r.pop().unwrap();
                        assert(r.deep_view() =~= before.drop_last());
                        let ghost rest = r.deep_view();
                        let fill = JsRenderFill { h: last.h + 1, ..last };
                        r.push(fill);
                        assert(r.deep_view() =~= rest.push(grown(before.last())));
                    } else {
                        let fill = JsRenderFill {
                            x: pos.x,
                            y: pos.y,
                            w: 1,
                            h: 1,
                            color: color.clone(),
                        };
                        r.push(fill);
                        assert(r.deep_view() =~= before.push(cell_fill(pos, color@)));
                    }
                },
                None => {},
            }
            k = k + 1;
        }
        r
    }

    /// The fills that have a cell in the region, each of them whole.
    pub fn get_render_fills(&self, region: Rect) -> (r: Vec<JsRenderFill>)
        ensures
            r.deep_view() == fills(self@, Some(region)),
    {
        let all = self.get_all_render_fills();
        let mut r: Vec<JsRenderFill> = Vec::new();
        let mut k: usize = 0;
        assert(r.deep_view() =~= meeting(all.deep_view(), region, 0));
        while k < all.len()
            invariant
                k <= all.len(),
                all.deep_view().len() == all.len(),
                r.deep_view() == meeting(all.deep_view(), region, k as int),
            decreases all.len() - k,
        {
            let fill = &all[k];
            assert(fill@ == all.deep_view()[k as int]);
            let is_met = region.min.x <= fill.x && fill.x <= region.max.x && fill.y <= region.max.y
                && region.min.y as i128 <= fill.y as i128 + fill.h as i128 - 1;
            if is_met {
                let ghost before = r.deep_view();
                let copy = JsRenderFill {
                    x: fill.x,
                    y: fill.y,
                    w: fill.w,
                    h: fill.h,
                    color: fill.color.clone(),
                };
                r.push(copy);
                assert(r.deep_view() =~= before.push(fill@));
            }
            k = k + 1;
        }
        r
    }

    /// The horizontal borders of the cells that have borders of their own,
    /// in the order of positions.
    pub fn get_render_horizontal_borders(&self) -> (r: Vec<JsRenderBorder>)
        ensures
            r@ == horizontal_borders(self@, self@.formats.cells.len() as int),
    {
        let formatting = self.formatting();
        let mut r: Vec<JsRenderBorder> = Vec::new();
        let mut k: usize = 0;
        while k < formatting.cell_count()
            invariant
                k <= self@.formats.cells.len(),
                formatting@ == self@.formats,
                r@ == horizontal_borders(self@, k as int),
            decreases self@.formats.cells.len() - k,
        {
            let pos = formatting.cell_pos_at(k);
            let format = formatting.cell_format_at(k);
            let ghost before = r@;
            match format.border_top {
                Some(style) => {
                    r.push(JsRenderBorder { x: pos.x, y: pos.y, w: Some(1), h: None, style });
                },
                None => {},
            }
            match format.border_bottom {
                Some(style) => {
                    if pos.y < i64::MAX {
                        r.push(
                            JsRenderBorder { x: pos.x, y: pos.y + 1, w: Some(1), h: None, style },
                        );
                    }
                },
                None => {},
            }
            assert(r@ =~= before + cell_horizontal_borders(pos, *format));
            k = k + 1;
        }
        r
    }

    /// The vertical borders of the cells that have borders of their own, in
    /// the order of positions.
    pub fn get_render_vertical_borders(&self) -> (r: Vec<JsRenderBorder>)
        ensures
            r@ == vertical_borders(self@, self@.formats.cells.len() as int),
    {
        let formatting = self.formatting();
        let mut r: Vec<JsRenderBorder> = Vec::new();
        let mut k: usize = 0;
        while k < formatting.cell_count()
            invariant
                k <= self@.formats.cells.len(),
                formatting@ == self@.formats,
                r@ == vertical_borders(self@, k as int),
            decreases self@.formats.cells.len() - k,
        {
            let pos = formatting.cell_pos_at(k);
            let format = formatting.cell_format_at(k);
            let ghost before = r@;
            match format.border_left {
                Some(style) => {
                    r.push(JsRenderBorder { x: pos.x, y: pos.y, w: None, h: Some(1), style });
                },
                None => {},
            }
            match format.border_right {
                Some(style) => {
                    if pos.x < i64::MAX {
                        r.push(
                            JsRenderBorder { x: pos.x + 1, y: pos.y, w: None, h: Some(1), style },
                        );
                    }
                },
                None => {},
            }
            assert(r@ =~= before + cell_vertical_borders(pos, *format));
            k = k + 1;
        }
        r
    }

    /// The frame of the code cell at `pos`.
    fn render_code_cell(&self, pos: Pos, language: CodeCellLanguage) -> (r: JsRenderCodeCell)
        ensures
            r == code_cell_frame(self@, pos, language),
    {
        match self.code_run(pos) {
            Some(run) => match &run.result {
                CodeRunResult::Values(_) => {
                    if run.spill_error {
                        JsRenderCodeCell {
                            x: pos.x,
                            y: pos.y,
                            w: 1,
                            h: 1,
                            language,
                            state: JsRenderCodeCellState::SpillError,
                        }
                    } else {
                        let (w, h) = run.output_size();
                        JsRenderCodeCell {
                            x: pos.x,
                            y: pos.y,
                            w,
                            h,
                            language,
                            state: JsRenderCodeCellState::Success,
                        }
                    }
                },
                CodeRunResult::Failed(_) => JsRenderCodeCell {
                    x: pos.x,
                    y: pos.y,
                    w: 1,
                    h: 1,
                    language,
                    state: JsRenderCodeCellState::RunError,
                },
            },
            None => JsRenderCodeCell {
                x: pos.x,
                y: pos.y,
                w: 1,
                h: 1,
                language,
                state: JsRenderCodeCellState::NotYetRun,
            },
        }
    }

    /// The frames of the code cells in a region, or of all where none is
    /// given.
    fn render_code_cells(&self, region: Option<Rect>) -> (r: Vec<JsRenderCodeCell>)
        ensures
            r@ == code_cell_frames(self@, region, self@.cells.len() as int),
    {
        let mut r: Vec<JsRenderCodeCell> = Vec::new();
        let mut k: usize = 0;
        while k < self.cell_count()
            invariant
                k <= self@.cells.len(),
                r@ == code_cell_frames(self@, region, k as int),
            decreases self@.cells.len() - k,
        {
            let pos = self.cell_pos_at(k);
            let is_inside = match region {
                Some(rect) => rect.contains(pos),
                None => true,
            };
            match self.cell_value_at_index(k) {
                CellValue::Code(code) => {
                    if is_inside {
                        r.push(self.render_code_cell(pos, code.language));
                    }
                },
                _ => {},
            }
            k = k + 1;
        }
        r
    }

    /// The frames of the code cells in a rectangle, in the order of
    /// positions.
    pub fn get_render_code_cells(&self, rect: Rect) -> (r: Vec<JsRenderCodeCell>)
        ensures
            r@ == code_cell_frames(self@, Some(rect), self@.cells.len() as int),
    {
        self.render_code_cells(Some(rect))
    }

    /// The frames of all code cells, in the order of positions.
    pub fn get_all_render_code_cells(&self) -> (r: Vec<JsRenderCodeCell>)
        ensures
            r@ == code_cell_frames(self@, None, self@.cells.len() as int),
    {
        self.render_code_cells(None)
    }
}

} // verus!
