//! What each operation does, as mathematics.
//!
//! `step` gives, for a grid, an operation and the source of the transaction,
//! the grid afterwards together with what is logged, queued and told. The
//! handlers in `controller` are proved to do exactly this, and the laws in
//! `laws` are proved of it.

use crate::grid::{
    first_id, has_sheet, names, next_order, position, sheet_of, with_sheet, without, GridView,
};
use crate::names::spec_unused_name;
use crate::operation::{OperationView, SheetSchemaView};
use crate::order::{in_order, is_order_bound, is_order_key, spec_key_between};
use crate::pos::{Pos, Rect, SheetId, SheetPos, SheetRect};
use crate::sheet::{
    block_fits, block_rect, merge, output_rect, prior, read, CellsView, RunsView, SheetView,
};
use crate::sorted::{del, put};
use crate::text::lex_lt;
use crate::transaction::{NotificationView, SheetInfoView, TransactionSource};
use crate::values::{
    CellValueView, CellValuesView, CodeCellLanguage, CodeCellValueView, CodeRunResultView,
    CodeRunView,
};
use vstd::prelude::*;

verus! {

/// What applying one operation brings about.
pub struct Effect {
    /// The grid afterwards.
    pub grid: GridView,
    /// What is added to the end of the forward log.
    pub forward: Seq<OperationView>,
    /// What is put in front of the reverse log.
    pub reverse: Seq<OperationView>,
    /// What is added to the end of the queue.
    pub queued: Seq<OperationView>,
    /// Whether the thumbnail has to be drawn again.
    pub thumbnail: bool,
    /// The rectangles whose cells changed.
    pub dirty: Seq<SheetRect>,
    /// What the host is told.
    pub notifications: Seq<NotificationView>,
}

/// No effect at all: what an operation does whose target is gone.
pub open spec fn nothing(g: GridView) -> Effect {
    Effect {
        grid: g,
        forward: Seq::empty(),
        reverse: Seq::empty(),
        queued: Seq::empty(),
        thumbnail: false,
        dirty: Seq::empty(),
        notifications: Seq::empty(),
    }
}

/// The effect of an operation that could not be read: it is dropped, and the
/// host is told so.
pub open spec fn dropped(g: GridView, transaction_id: u64) -> Effect {
    Effect {
        notifications: seq![NotificationView::OperationDropped { transaction_id }],
        ..nothing(g)
    }
}

/// What is told of a change: nothing where it came from the server.
pub open spec fn told(source: TransactionSource, n: Seq<NotificationView>) -> Seq<
    NotificationView,
> {
    if source.spec_is_server() {
        Seq::empty()
    } else {
        n
    }
}

/// The order key of the first sheet of an empty grid.
pub open spec fn first_order() -> Seq<char> {
    match spec_key_between(None, None) {
        Some(k) => k,
        None => "a0"@,
    }
}

/// The sheet that takes the place of the last sheet when a user deletes it:
/// an empty sheet of the spare identity.
pub open spec fn replacement_sheet(spare: SheetId) -> SheetView {
    SheetView::empty(spare, "Sheet 1"@, first_order())
}

/// The name of a copy of a sheet: the name and ` Copy`, or where that is
/// taken, the first of ` Copy 1`, ` Copy 2`, ... that is not.
pub open spec fn duplicate_name(name: Seq<char>, used: Seq<Seq<char>>) -> Seq<char> {
    let copy = name + " Copy"@;
    if used.contains(copy) {
        spec_unused_name(copy, used)
    } else {
        copy
    }
}

/// The order key of a copy: between the sheet and its right neighbour, or
/// the sheet's own key where no key is given between them.
pub open spec fn duplicate_order(g: GridView, sheet_id: SheetId) -> Seq<char> {
    match spec_key_between(Some(sheet_of(g, sheet_id).order), next_order(g, sheet_id)) {
        Some(k) => k,
        None => sheet_of(g, sheet_id).order,
    }
}

/// The keys of a sheet and of its right neighbour leave room for a key: they
/// are order keys, and that of the sheet sorts before that of the neighbour.
/// A last sheet has room behind it if its key is an order key.
pub open spec fn room_behind(g: GridView, sheet_id: SheetId) -> bool {
    &&& is_order_key(sheet_of(g, sheet_id).order)
    &&& is_order_bound(next_order(g, sheet_id))
    &&& in_order(Some(sheet_of(g, sheet_id).order), next_order(g, sheet_id))
}

/// In `after`, the sheet `new_sheet_id` stands right behind the sheet
/// `sheet_id` of `before`, with an order key that sorts after the key of
/// that sheet and before the key of the sheet that followed it; and `after`
/// has that one sheet more.
pub open spec fn stands_behind(
    before: GridView,
    after: GridView,
    sheet_id: SheetId,
    new_sheet_id: SheetId,
) -> bool {
    &&& after.len() == before.len() + 1
    &&& has_sheet(after, new_sheet_id)
    &&& position(after, sheet_id) == position(before, sheet_id)
    &&& position(after, new_sheet_id) == position(before, sheet_id) + 1
    &&& lex_lt(sheet_of(before, sheet_id).order, sheet_of(after, new_sheet_id).order)
    &&& next_order(before, sheet_id) matches Some(right) ==> lex_lt(
        sheet_of(after, new_sheet_id).order,
        right,
    )
}

/// The copy that `DuplicateSheet` makes.
pub open spec fn duplicate_of(g: GridView, sheet_id: SheetId, new_sheet_id: SheetId) -> SheetView {
    SheetView {
        id: new_sheet_id,
        name: duplicate_name(sheet_of(g, sheet_id).name, names(g)),
        order: duplicate_order(g, sheet_id),
        ..sheet_of(g, sheet_id)
    }
}

pub open spec fn sheet_added(sheet: SheetView, source: TransactionSource) -> NotificationView {
    NotificationView::SheetAdded { sheet: SheetInfoView::of(sheet), user: !source.spec_is_server() }
}

pub open spec fn sheet_deleted(sheet_id: SheetId, source: TransactionSource) -> NotificationView {
    NotificationView::SheetDeleted { sheet_id, user: !source.spec_is_server() }
}

pub open spec fn sheet_info_updated(sheet: SheetView) -> NotificationView {
    NotificationView::SheetInfoUpdated { sheet: SheetInfoView::of(sheet) }
}

/// Adding a sheet, logged as `logged`: nothing if the grid has a sheet of
/// that identity already.
pub open spec fn add_sheet_effect(
    g: GridView,
    sheet: SheetView,
    logged: OperationView,
    source: TransactionSource,
) -> Effect {
    if has_sheet(g, sheet.id) {
        nothing(g)
    } else {
        Effect {
            grid: with_sheet(g, sheet),
            forward: seq![logged],
            reverse: seq![OperationView::DeleteSheet { sheet_id: sheet.id }],
            notifications: told(source, seq![sheet_added(sheet, source)]),
            ..nothing(g)
        }
    }
}

/// Adding a sheet from a snapshot: dropped if the snapshot cannot be read.
pub open spec fn add_sheet_schema_effect(
    g: GridView,
    schema: SheetSchemaView,
    source: TransactionSource,
    transaction_id: u64,
) -> Effect {
    match schema.latest() {
        Some(sheet) => add_sheet_effect(
            g,
            sheet,
            OperationView::AddSheetSchema { schema },
            source,
        ),
        None => dropped(g, transaction_id),
    }
}

/// Deleting a sheet. Where a user deletes the last sheet, a new first sheet
/// takes its place, of the spare identity.
pub open spec fn delete_sheet_effect(
    g: GridView,
    sheet_id: SheetId,
    source: TransactionSource,
    spare: SheetId,
) -> Effect {
    if !has_sheet(g, sheet_id) {
        nothing(g)
    } else {
        let deleted = sheet_of(g, sheet_id);
        let rest = without(g, sheet_id);
        let restore = OperationView::AddSheetSchema { schema: SheetSchemaView::export(deleted) };
        if source.spec_is_user() && rest.len() == 0 {
            let fresh = replacement_sheet(spare);
            Effect {
                grid: with_sheet(rest, fresh),
                forward: seq![
                    OperationView::DeleteSheet { sheet_id },
                    OperationView::AddSheet { sheet: fresh },
                ],
                reverse: seq![OperationView::DeleteSheet { sheet_id: fresh.id }, restore],
                notifications: told(
                    source,
                    seq![sheet_added(fresh, source), sheet_deleted(sheet_id, source)],
                ),
                ..nothing(g)
            }
        } else {
            Effect {
                grid: rest,
                forward: seq![OperationView::DeleteSheet { sheet_id }],
                reverse: seq![restore],
                notifications: told(source, seq![sheet_deleted(sheet_id, source)]),
                ..nothing(g)
            }
        }
    }
}

/// Giving a sheet another order key. The thumbnail shows the first sheet, so
/// it has to be drawn again where another sheet becomes the first.
pub open spec fn reorder_sheet_effect(
    g: GridView,
    target: SheetId,
    order: Seq<char>,
    source: TransactionSource,
) -> Effect {
    if !has_sheet(g, target) {
        nothing(g)
    } else {
        let moved = sheet_of(g, target).with_order(order);
        Effect {
            grid: with_sheet(g, moved),
            forward: seq![OperationView::ReorderSheet { target, order }],
            reverse: seq![
                OperationView::ReorderSheet { target, order: sheet_of(g, target).order },
            ],
            thumbnail: first_id(g) != first_id(with_sheet(g, moved)),
            notifications: told(source, seq![sheet_info_updated(moved)]),
            ..nothing(g)
        }
    }
}

pub open spec fn set_sheet_name_effect(
    g: GridView,
    sheet_id: SheetId,
    name: Seq<char>,
    source: TransactionSource,
) -> Effect {
    if !has_sheet(g, sheet_id) {
        nothing(g)
    } else {
        let renamed = sheet_of(g, sheet_id).with_name(name);
        Effect {
            grid: with_sheet(g, renamed),
            forward: seq![OperationView::SetSheetName { sheet_id, name }],
            reverse: seq![
                OperationView::SetSheetName { sheet_id, name: sheet_of(g, sheet_id).name },
            ],
            notifications: told(source, seq![sheet_info_updated(renamed)]),
            ..nothing(g)
        }
    }
}

pub open spec fn set_sheet_color_effect(
    g: GridView,
    sheet_id: SheetId,
    color: Option<Seq<char>>,
    source: TransactionSource,
) -> Effect {
    if !has_sheet(g, sheet_id) {
        nothing(g)
    } else {
        let recolored = sheet_of(g, sheet_id).with_color(color);
        Effect {
            grid: with_sheet(g, recolored),
            forward: seq![OperationView::SetSheetColor { sheet_id, color }],
            reverse: seq![
                OperationView::SetSheetColor { sheet_id, color: sheet_of(g, sheet_id).color },
            ],
            notifications: told(source, seq![sheet_info_updated(recolored)]),
            ..nothing(g)
        }
    }
}

/// Copying a sheet under a new identity: nothing if the sheet is gone, or if
/// the new identity is taken.
pub open spec fn duplicate_sheet_effect(
    g: GridView,
    sheet_id: SheetId,
    new_sheet_id: SheetId,
    source: TransactionSource,
) -> Effect {
    if !has_sheet(g, sheet_id) || has_sheet(g, new_sheet_id) {
        nothing(g)
    } else {
        let copy = duplicate_of(g, sheet_id, new_sheet_id);
        Effect {
            grid: with_sheet(g, copy),
            forward: seq![OperationView::DuplicateSheet { sheet_id, new_sheet_id }],
            reverse: seq![OperationView::DeleteSheet { sheet_id: new_sheet_id }],
            notifications: told(source, seq![sheet_added(copy, source)]),
            ..nothing(g)
        }
    }
}

/// A position on a sheet.
pub open spec fn on_sheet(pos: Pos, sheet_id: SheetId) -> SheetPos {
    SheetPos { x: pos.x, y: pos.y, sheet_id }
}

pub open spec fn set_run_op(
    pos: Pos,
    sheet_id: SheetId,
    code_run: Option<CodeRunView>,
) -> OperationView {
    OperationView::SetCodeRun { sheet_pos: on_sheet(pos, sheet_id), code_run }
}

/// The positions, among the first `k` code runs of a sheet, of those that
/// lie in `rect` and whose cell no longer holds code.
pub open spec fn orphans(sheet: SheetView, rect: Rect, k: int) -> Seq<Pos>
    decreases k,
{
    if k <= 0 || k > sheet.code_runs.len() {
        Seq::empty()
    } else {
        let pos = sheet.code_runs[k - 1].0;
        if rect.spec_contains(pos) && !(read(sheet.cells, pos) is Code) {
            orphans(sheet, rect, k - 1).push(pos)
        } else {
            orphans(sheet, rect, k - 1)
        }
    }
}

/// The runs without those at the first `j` of the positions given.
pub open spec fn without_runs(runs: RunsView, targets: Seq<Pos>, j: int) -> RunsView
    decreases j,
{
    if j <= 0 || j > targets.len() {
        runs
    } else {
        del(without_runs(runs, targets, j - 1), targets[j - 1])
    }
}

/// The changes that a pass over the code runs of a sheet makes.
pub struct Sweep {
    pub runs: RunsView,
    pub forward: Seq<OperationView>,
    pub reverse: Seq<OperationView>,
}

/// Retiring the code runs in `rect` whose cell no longer holds code: each is
/// removed, which is logged, with the run itself in the inverse.
pub open spec fn retire(sheet: SheetView, rect: Rect) -> Sweep {
    let targets = orphans(sheet, rect, sheet.code_runs.len() as int);
    let n = targets.len() as int;
    Sweep {
        runs: without_runs(sheet.code_runs, targets, n),
        forward: Seq::new(targets.len(), |j: int| set_run_op(targets[j], sheet.id, None)),
        reverse: Seq::new(
            targets.len(),
            |j: int| set_run_op(targets[n - 1 - j], sheet.id, sheet.run_at(targets[n - 1 - j])),
        ),
    }
}

/// Whether something stands in the way of a run's output: a stored value in
/// the rectangle that the output would take up, other than its own code cell.
pub open spec fn blocked(cells: CellsView, pos: Pos, run: CodeRunView) -> bool {
    exists|i: int|
        0 <= i < cells.len() && (#[trigger] cells[i]).0 != pos && output_rect(
            pos,
            run.with_spill(false),
        ).spec_contains(cells[i].0)
}

/// The `i`-th run after its spill flag is set to what the cells say.
pub open spec fn respilled(cells: CellsView, runs: RunsView, i: int) -> (Pos, CodeRunView) {
    (runs[i].0, runs[i].1.with_spill(blocked(cells, runs[i].0, runs[i].1)))
}

/// The runs after the spill flags of the first `k` are set anew.
pub open spec fn spill_runs(cells: CellsView, runs: RunsView, k: int) -> RunsView {
    Seq::new(
        runs.len(),
        |i: int|
            if i < k {
                respilled(cells, runs, i)
            } else {
                runs[i]
            },
    )
}

/// What is logged for setting the spill flags of the first `k` runs anew:
/// one operation for each run whose flag changes.
pub open spec fn spill_forward(cells: CellsView, runs: RunsView, sheet_id: SheetId, k: int) -> Seq<
    OperationView,
>
    decreases k,
{
    if k <= 0 || k > runs.len() {
        Seq::empty()
    } else if respilled(cells, runs, k - 1).1.spill_error != runs[k - 1].1.spill_error {
        spill_forward(cells, runs, sheet_id, k - 1).push(
            set_run_op(runs[k - 1].0, sheet_id, Some(respilled(cells, runs, k - 1).1)),
        )
    } else {
        spill_forward(cells, runs, sheet_id, k - 1)
    }
}

/// The inverses of `spill_forward`, the latest first.
pub open spec fn spill_reverse(cells: CellsView, runs: RunsView, sheet_id: SheetId, k: int) -> Seq<
    OperationView,
>
    decreases k,
{
    if k <= 0 || k > runs.len() {
        Seq::empty()
    } else if respilled(cells, runs, k - 1).1.spill_error != runs[k - 1].1.spill_error {
        seq![set_run_op(runs[k - 1].0, sheet_id, Some(runs[k - 1].1))] + spill_reverse(
            cells,
            runs,
            sheet_id,
            k - 1,
        )
    } else {
        spill_reverse(cells, runs, sheet_id, k - 1)
    }
}

/// Setting the spill flag of every run of a sheet to what its cells say.
pub open spec fn respill(sheet: SheetView) -> Sweep {
    let n = sheet.code_runs.len() as int;
    Sweep {
        runs: spill_runs(sheet.cells, sheet.code_runs, n),
        forward: spill_forward(sheet.cells, sheet.code_runs, sheet.id, n),
        reverse: spill_reverse(sheet.cells, sheet.code_runs, sheet.id, n),
    }
}

/// Whether a run read a cell of the rectangle.
pub open spec fn reads(run: CodeRunView, target: SheetRect) -> bool {
    exists|i: int|
        0 <= i < run.cells_accessed.len() && (#[trigger] run.cells_accessed[i]).sheet_id
            == target.sheet_id && run.cells_accessed[i].spec_rect().spec_intersects(
            target.spec_rect(),
        )
}

/// The recomputations owed to a change in `target` by the first `k` runs of
/// a sheet: one for each run that read a cell of it, but not for the code
/// cell `skip`.
pub open spec fn sheet_dependents(
    sheet: SheetView,
    target: SheetRect,
    skip: Option<SheetPos>,
    k: int,
) -> Seq<OperationView>
    decreases k,
{
    if k <= 0 || k > sheet.code_runs.len() {
        Seq::empty()
    } else {
        let at = on_sheet(sheet.code_runs[k - 1].0, sheet.id);
        if reads(sheet.code_runs[k - 1].1, target) && skip != Some(at) {
            sheet_dependents(sheet, target, skip, k - 1).push(
                OperationView::ComputeCode { sheet_pos: at },
            )
        } else {
            sheet_dependents(sheet, target, skip, k - 1)
        }
    }
}

/// The recomputations owed by the runs of the first `n` sheets.
pub open spec fn dependents(g: GridView, target: SheetRect, skip: Option<SheetPos>, n: int) -> Seq<
    OperationView,
>
    decreases n,
{
    if n <= 0 || n > g.len() {
        Seq::empty()
    } else {
        dependents(g, target, skip, n - 1) + sheet_dependents(
            g[n - 1],
            target,
            skip,
            g[n - 1].code_runs.len() as int,
        )
    }
}

/// Writing a block of values. For a user the runs that lost their code cell
/// are retired, the runs that read a changed cell are queued for
/// recomputation, and the spill flags of the sheet are set anew.
pub open spec fn set_cell_values_effect(
    g: GridView,
    sheet_pos: SheetPos,
    values: CellValuesView,
    source: TransactionSource,
    transaction_id: u64,
) -> Effect {
    let sheet_id = sheet_pos.sheet_id;
    let origin = sheet_pos.spec_pos();
    if !has_sheet(g, sheet_id) {
        nothing(g)
    } else if !block_fits(origin, values.w, values.h) {
        dropped(g, transaction_id)
    } else {
        let sheet = sheet_of(g, sheet_id);
        let rect = block_rect(origin, values.w, values.h);
        let area = SheetRect { min: rect.min, max: rect.max, sheet_id };
        let written = sheet.with_cells(merge(sheet.cells, origin, values, values.w * values.h));
        let apply = OperationView::SetCellValues { sheet_pos, values };
        let undo = OperationView::SetCellValues {
            sheet_pos,
            values: prior(sheet.cells, origin, values.w, values.h),
        };
        let notifications = told(
            source,
            seq![
                NotificationView::BoundsUpdated { sheet_id },
                NotificationView::CellsUpdated { rect: area },
            ],
        );
        if source.spec_is_user() {
            let retired = retire(written, rect);
            let kept = written.with_code_runs(retired.runs);
            let spilled = respill(kept);
            let after = kept.with_code_runs(spilled.runs);
            Effect {
                grid: with_sheet(g, after),
                forward: seq![apply] + retired.forward + spilled.forward,
                reverse: seq![undo] + spilled.reverse + retired.reverse,
                queued: dependents(
                    with_sheet(g, after),
                    area,
                    None,
                    with_sheet(g, after).len() as int,
                ),
                thumbnail: first_id(g) == Some(sheet_id),
                dirty: seq![area],
                notifications,
            }
        } else {
            Effect {
                grid: with_sheet(g, written),
                forward: seq![apply],
                reverse: seq![undo],
                queued: Seq::empty(),
                thumbnail: first_id(g) == Some(sheet_id),
                dirty: seq![area],
                notifications,
            }
        }
    }
}

/// The run that running a code cell gives. Formulas are evaluated on the
/// sheet; code in another language is run by the host, not here.
pub open spec fn run_of(sheet: SheetView, code: CodeCellValueView) -> CodeRunView {
    match code.language {
        CodeCellLanguage::Formula => crate::formula::spec_evaluate(sheet, code.code),
        CodeCellLanguage::Python => crate::formula::failed("not run here"@, Seq::empty()),
    }
}

/// The rectangle of one cell.
pub open spec fn cell_area(sheet_pos: SheetPos) -> SheetRect {
    SheetRect { min: sheet_pos.spec_pos(), max: sheet_pos.spec_pos(), sheet_id: sheet_pos.sheet_id }
}

/// Setting or removing the run of a code cell.
pub open spec fn set_code_run_effect(
    g: GridView,
    sheet_pos: SheetPos,
    code_run: Option<CodeRunView>,
    source: TransactionSource,
) -> Effect {
    let sheet_id = sheet_pos.sheet_id;
    let pos = sheet_pos.spec_pos();
    if !has_sheet(g, sheet_id) {
        nothing(g)
    } else {
        let sheet = sheet_of(g, sheet_id);
        Effect {
            grid: with_sheet(g, sheet.set_run(pos, code_run)),
            forward: seq![OperationView::SetCodeRun { sheet_pos, code_run }],
            reverse: seq![OperationView::SetCodeRun { sheet_pos, code_run: sheet.run_at(pos) }],
            notifications: told(
                source,
                seq![NotificationView::CellsUpdated { rect: cell_area(sheet_pos) }],
            ),
            ..nothing(g)
        }
    }
}

/// Running a code cell: nothing if the cell holds no code any more. The new
/// run is logged as set. For a user the runs that read the output are queued
/// for recomputation, and the spill flags of the sheet are set anew.
pub open spec fn compute_code_effect(
    g: GridView,
    sheet_pos: SheetPos,
    source: TransactionSource,
) -> Effect {
    let sheet_id = sheet_pos.sheet_id;
    let pos = sheet_pos.spec_pos();
    if !has_sheet(g, sheet_id) {
        nothing(g)
    } else {
        let sheet = sheet_of(g, sheet_id);
        match crate::store::value_at(sheet.cells, pos) {
            Some(CellValueView::Code(code)) => {
                let run = run_of(sheet, code);
                let ran = sheet.set_run(pos, Some(run));
                let out = output_rect(pos, run);
                let area = SheetRect { min: out.min, max: out.max, sheet_id };
                let apply = OperationView::SetCodeRun { sheet_pos, code_run: Some(run) };
                let undo = OperationView::SetCodeRun { sheet_pos, code_run: sheet.run_at(pos) };
                let notifications = told(
                    source,
                    seq![NotificationView::CellsUpdated { rect: area }],
                );
                if source.spec_is_user() {
                    let spilled = respill(ran);
                    let after = ran.with_code_runs(spilled.runs);
                    Effect {
                        grid: with_sheet(g, after),
                        forward: seq![apply] + spilled.forward,
                        reverse: spilled.reverse + seq![undo],
                        queued: dependents(
                            with_sheet(g, after),
                            area,
                            Some(sheet_pos),
                            with_sheet(g, after).len() as int,
                        ),
                        thumbnail: false,
                        dirty: seq![area],
                        notifications,
                    }
                } else {
                    Effect {
                        grid: with_sheet(g, ran),
                        forward: seq![apply],
                        reverse: seq![undo],
                        queued: Seq::empty(),
                        thumbnail: false,
                        dirty: seq![area],
                        notifications,
                    }
                }
            },
            _ => nothing(g),
        }
    }
}

/// Changing the formats of what is selected, part by part: dropped unless
/// there is one change for each part, and no more than `MAX_PARTS` parts.
/// The inverse sets back, for each part, what its change changes.
pub open spec fn set_formats_effect(
    g: GridView,
    selection: crate::selection::SelectionView,
    formats: Seq<crate::formats::FormatUpdate>,
    source: TransactionSource,
    transaction_id: u64,
) -> Effect {
    let sheet_id = selection.sheet_id;
    let targets = selection.targets();
    if !has_sheet(g, sheet_id) {
        nothing(g)
    } else if targets.len() != formats.len() || targets.len() > crate::selection::MAX_PARTS {
        dropped(g, transaction_id)
    } else {
        let sheet = sheet_of(g, sheet_id);
        let changed = crate::sheet_formatting::pass(
            sheet.formats,
            targets,
            formats,
            targets.len() as int,
        );
        Effect {
            grid: with_sheet(g, sheet.with_formats(changed)),
            forward: seq![OperationView::SetCellFormatsSelection { selection, formats }],
            reverse: seq![
                OperationView::SetCellFormatsSelection {
                    selection,
                    formats: crate::sheet_formatting::restores(sheet.formats, targets, formats),
                },
            ],
            thumbnail: first_id(g) == Some(sheet_id),
            notifications: told(source, seq![NotificationView::FormatsUpdated { sheet_id }]),
            ..nothing(g)
        }
    }
}

/// What applying an operation to a grid brings about. `spare` is the
/// identity that a sheet gets which the operation has to make of its own
/// accord.
#[verifier::opaque]
pub open spec fn step(
    g: GridView,
    op: OperationView,
    source: TransactionSource,
    transaction_id: u64,
    spare: SheetId,
) -> Effect {
    match op {
        OperationView::AddSheet { sheet } => add_sheet_effect(g, sheet, op, source),
        OperationView::AddSheetSchema { schema } => add_sheet_schema_effect(
            g,
            schema,
            source,
            transaction_id,
        ),
        OperationView::DeleteSheet { sheet_id } => delete_sheet_effect(
            g,
            sheet_id,
            source,
            spare,
        ),
        OperationView::ReorderSheet { target, order } => reorder_sheet_effect(
            g,
            target,
            order,
            source,
        ),
        OperationView::SetSheetName { sheet_id, name } => set_sheet_name_effect(
            g,
            sheet_id,
            name,
            source,
        ),
        OperationView::SetSheetColor { sheet_id, color } => set_sheet_color_effect(
            g,
            sheet_id,
            color,
            source,
        ),
        OperationView::DuplicateSheet { sheet_id, new_sheet_id } => duplicate_sheet_effect(
            g,
            sheet_id,
            new_sheet_id,
            source,
        ),
        OperationView::SetCellValues { sheet_pos, values } => set_cell_values_effect(
            g,
            sheet_pos,
            values,
            source,
            transaction_id,
        ),
        OperationView::ComputeCode { sheet_pos } => compute_code_effect(g, sheet_pos, source),
        OperationView::SetCodeRun { sheet_pos, code_run } => set_code_run_effect(
            g,
            sheet_pos,
            code_run,
            source,
        ),
        OperationView::SetCellFormatsSelection { selection, formats } => set_formats_effect(
            g,
            selection,
            formats,
            source,
            transaction_id,
        ),
    }
}

} // verus!
