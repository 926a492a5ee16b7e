//! The laws of undo and redo.
//!
//! Every operation logs what it did and the inverses of what it did.
//! Replaying the inverses undoes it exactly, and replaying what is logged as
//! done, from the state before, brings back the state after. What holds of
//! one operation holds of a whole transaction.

use crate::controller::execute_operation::{advance, drain, State};
use crate::controller::logged;
use crate::controller::user_actions::{
    entering, kept, redone, started, transacted, undone, MAX_STEPS,
};
use crate::controller::ControllerView;
use crate::grid::{
    distinct_names, grid_wf, has_sheet, lemma_position, lemma_position_unique,
    lemma_restore_sheet, lemma_with_sheet, lemma_without, next_order, position, sheet_of,
    with_sheet, without, GridView,
};
use crate::model::{
    add_sheet_effect, compute_code_effect, delete_sheet_effect, dependents, duplicate_of, nothing,
    replacement_sheet, respill, retire, run_of, set_cell_values_effect, set_code_run_effect,
    sheet_dependents, step, Effect,
};
use crate::pos::SheetRect;
use crate::sheet::{block_fits, block_rect, lemma_merge, lemma_merge_prior, merge, prior};
use crate::sweeps::{
    lemma_respill, lemma_retire, lemma_set_in_sorted, lemma_set_run_back, replay_runs, set_in,
    sets_runs_of,
};
use crate::operation::{all_wf, OperationView, SheetSchemaView};
use crate::pos::SheetId;
use crate::sheet::SheetView;
use crate::names::candidate;
use crate::order::spec_key_between;
use crate::sorted::{lemma_rank, lemma_rank_unique, rank, sorted, Keyed};
use crate::text::lex_lt;
use crate::transaction::{TransactionSource, TransactionView};
use vstd::prelude::*;

verus! {

/// A spare identity for replays. Only a user's operations make a sheet of
/// their own accord, so for the sources of a replay any identity serves.
pub open spec fn any_spare() -> SheetId {
    SheetId { id: 0 }
}

/// The grid after the operations are applied in order, as a transaction of
/// the given source does it, leaving aside what they queue.
#[verifier::opaque]
pub open spec fn replay(g: GridView, ops: Seq<OperationView>, source: TransactionSource) -> GridView
    decreases ops.len(),
{
    if ops.len() == 0 {
        g
    } else {
        replay(step(g, ops[0], source, 0, any_spare()).grid, ops.skip(1), source)
    }
}

/// The effect keeps the grid well-formed, and its logs invert and repeat it:
/// replaying the inverses leads back to `g`, and replaying what was logged
/// as done leads from `g` to the grid of the effect.
pub open spec fn invertible(g: GridView, e: Effect) -> bool {
    &&& grid_wf(e.grid)
    &&& all_wf(e.forward)
    &&& all_wf(e.reverse)
    &&& all_wf(e.queued)
    &&& replay(e.grid, e.reverse, TransactionSource::Undo) == g
    &&& replay(g, e.forward, TransactionSource::Redo) == e.grid
}

/// The grid that an operation leads to does not depend on the identity of
/// the transaction.
pub proof fn lemma_step_grid(
    g: GridView,
    op: OperationView,
    source: TransactionSource,
    i: u64,
    j: u64,
    spare: SheetId,
)
    ensures
        step(g, op, source, i, spare).grid == step(g, op, source, j, spare).grid,
        step(g, op, source, i, spare).forward == step(g, op, source, j, spare).forward,
        step(g, op, source, i, spare).reverse == step(g, op, source, j, spare).reverse,
        step(g, op, source, i, spare).queued == step(g, op, source, j, spare).queued,
{
    reveal(step);
}

/// Unless a user is the source, what an operation does does not depend on
/// the spare identity.
pub proof fn lemma_step_spare(
    g: GridView,
    op: OperationView,
    source: TransactionSource,
    transaction_id: u64,
    a: SheetId,
    b: SheetId,
)
    requires
        !source.spec_is_user(),
    ensures
        step(g, op, source, transaction_id, a) == step(g, op, source, transaction_id, b),
{
    reveal(step);
}

/// Replaying one list after another is replaying the two joined.
pub proof fn lemma_replay_concat(
    g: GridView,
    a: Seq<OperationView>,
    b: Seq<OperationView>,
    source: TransactionSource,
)
    ensures
        replay(g, a + b, source) == replay(replay(g, a, source), b, source),
    decreases a.len(),
{
    reveal(replay);
    if a.len() == 0 {
        assert(a + b =~= b);
    } else {
        assert((a + b)[0] == a[0]);
        assert((a + b).skip(1) =~= a.skip(1) + b);
        lemma_replay_concat(step(g, a[0], source, 0, any_spare()).grid, a.skip(1), b, source);
    }
}

pub proof fn lemma_replay_none(g: GridView, source: TransactionSource)
    ensures
        replay(g, Seq::empty(), source) == g,
{
    reveal(replay);
}

pub proof fn lemma_replay_one(g: GridView, op: OperationView, source: TransactionSource)
    ensures
        replay(g, seq![op], source) == step(g, op, source, 0, any_spare()).grid,
{
    reveal(replay);
    assert(seq![op].skip(1) =~= Seq::<OperationView>::empty());
    assert(seq![op][0] == op);
    lemma_replay_none(step(g, op, source, 0, any_spare()).grid, source);
}

pub proof fn lemma_replay_two(
    g: GridView,
    a: OperationView,
    b: OperationView,
    source: TransactionSource,
)
    ensures
        replay(g, seq![a, b], source) == step(
            step(g, a, source, 0, any_spare()).grid,
            b,
            source,
            0,
            any_spare(),
        ).grid,
{
    assert(seq![a, b] =~= seq![a] + seq![b]);
    lemma_replay_concat(g, seq![a], seq![b], source);
    lemma_replay_one(g, a, source);
    lemma_replay_one(step(g, a, source, 0, any_spare()).grid, b, source);
}

/// An effect that changes and logs nothing is invertible.
pub proof fn lemma_nothing_invertible(g: GridView, e: Effect)
    requires
        grid_wf(g),
        e.grid == g,
        e.forward == Seq::<OperationView>::empty(),
        e.reverse == Seq::<OperationView>::empty(),
        e.queued == Seq::<OperationView>::empty(),
    ensures
        invertible(g, e),
{
    reveal(replay);
}

/// A sheet that takes the place of a well-formed sheet of the same identity,
/// and is put back later, leaves the grid as it was.
pub proof fn lemma_swap_and_restore(g: GridView, id: SheetId, s: SheetView)
    requires
        grid_wf(g),
        has_sheet(g, id),
        s.wf(),
        s.id == id,
    ensures
        grid_wf(with_sheet(g, s)),
        has_sheet(with_sheet(g, s), id),
        sheet_of(with_sheet(g, s), id) == s,
        with_sheet(with_sheet(g, s), sheet_of(g, id)) == g,
        sheet_of(g, id).id == id,
        sheet_of(g, id).wf(),
{
    lemma_position(g, id);
    lemma_with_sheet(g, s);
    lemma_restore_sheet(g, id);
}

pub proof fn lemma_add_sheet_invertible(
    g: GridView,
    sheet: SheetView,
    logged_as: OperationView,
    source: TransactionSource,
)
    requires
        grid_wf(g),
        sheet.wf(),
        logged_as == (OperationView::AddSheet { sheet }) || (logged_as matches
            OperationView::AddSheetSchema { schema } && schema.latest() == Some(sheet)),
    ensures
        invertible(g, add_sheet_effect(g, sheet, logged_as, source)),
{
    reveal(step);
    let e = add_sheet_effect(g, sheet, logged_as, source);
    if has_sheet(g, sheet.id) {
        lemma_nothing_invertible(g, e);
    } else {
        lemma_with_sheet(g, sheet);
        lemma_replay_one(e.grid, e.reverse[0], TransactionSource::Undo);
        lemma_replay_one(g, logged_as, TransactionSource::Redo);
        assert(e.reverse =~= seq![e.reverse[0]]);
        assert(e.forward =~= seq![logged_as]);
    }
}

pub proof fn lemma_delete_sheet_invertible(
    g: GridView,
    sheet_id: SheetId,
    source: TransactionSource,
    spare: SheetId,
)
    requires
        grid_wf(g),
    ensures
        invertible(g, delete_sheet_effect(g, sheet_id, source, spare)),
{
    reveal(step);
    let e = delete_sheet_effect(g, sheet_id, source, spare);
    if !has_sheet(g, sheet_id) {
        lemma_nothing_invertible(g, e);
    } else {
        lemma_position(g, sheet_id);
        lemma_without(g, sheet_id);
        lemma_restore_sheet(g, sheet_id);
        let deleted = sheet_of(g, sheet_id);
        let rest = without(g, sheet_id);
        let restore = OperationView::AddSheetSchema { schema: SheetSchemaView::export(deleted) };
        let delete = OperationView::DeleteSheet { sheet_id };
        if source.spec_is_user() && rest.len() == 0 {
            let fresh = replacement_sheet(spare);
            assert(fresh.wf());
            lemma_position(rest, fresh.id);
            lemma_with_sheet(rest, fresh);
            let undo_fresh = OperationView::DeleteSheet { sheet_id: fresh.id };
            assert(e.reverse =~= seq![undo_fresh, restore]);
            lemma_replay_two(e.grid, undo_fresh, restore, TransactionSource::Undo);
            let add_fresh = OperationView::AddSheet { sheet: fresh };
            assert(e.forward =~= seq![delete, add_fresh]);
            lemma_replay_two(g, delete, add_fresh, TransactionSource::Redo);
        } else {
            assert(e.reverse =~= seq![restore]);
            assert(e.forward =~= seq![delete]);
            lemma_replay_one(e.grid, restore, TransactionSource::Undo);
            lemma_replay_one(g, delete, TransactionSource::Redo);
        }
    }
}

/// Operations that change a label of a sheet, or copy a sheet, are
/// invertible.
pub proof fn lemma_sheet_step_invertible(
    g: GridView,
    op: OperationView,
    source: TransactionSource,
    transaction_id: u64,
    spare: SheetId,
)
    requires
        grid_wf(g),
        op is ReorderSheet || op is SetSheetName || op is SetSheetColor || op is DuplicateSheet,
    ensures
        invertible(g, step(g, op, source, transaction_id, spare)),
{
    reveal(step);
    let e = step(g, op, source, transaction_id, spare);
    match op {
        OperationView::ReorderSheet { target, order } => {
            if has_sheet(g, target) {
                let s = sheet_of(g, target);
                lemma_position(g, target);
                lemma_swap_and_restore(g, target, s.with_order(order));
                assert(s.with_order(order).with_order(s.order) == s);
                assert(e.reverse =~= seq![e.reverse[0]]);
                assert(e.forward =~= seq![op]);
                lemma_replay_one(e.grid, e.reverse[0], TransactionSource::Undo);
                lemma_replay_one(g, op, TransactionSource::Redo);
            } else {
                lemma_nothing_invertible(g, e);
            }
        },
        OperationView::SetSheetName { sheet_id, name } => {
            if has_sheet(g, sheet_id) {
                let s = sheet_of(g, sheet_id);
                lemma_position(g, sheet_id);
                lemma_swap_and_restore(g, sheet_id, s.with_name(name));
                assert(s.with_name(name).with_name(s.name) == s);
                assert(e.reverse =~= seq![e.reverse[0]]);
                assert(e.forward =~= seq![op]);
                lemma_replay_one(e.grid, e.reverse[0], TransactionSource::Undo);
                lemma_replay_one(g, op, TransactionSource::Redo);
            } else {
                lemma_nothing_invertible(g, e);
            }
        },
        OperationView::SetSheetColor { sheet_id, color } => {
            if has_sheet(g, sheet_id) {
                let s = sheet_of(g, sheet_id);
                lemma_position(g, sheet_id);
                lemma_swap_and_restore(g, sheet_id, s.with_color(color));
                assert(s.with_color(color).with_color(s.color) == s);
                assert(e.reverse =~= seq![e.reverse[0]]);
                assert(e.forward =~= seq![op]);
                lemma_replay_one(e.grid, e.reverse[0], TransactionSource::Undo);
                lemma_replay_one(g, op, TransactionSource::Redo);
            } else {
                lemma_nothing_invertible(g, e);
            }
        },
        OperationView::DuplicateSheet { sheet_id, new_sheet_id } => {
            if has_sheet(g, sheet_id) && !has_sheet(g, new_sheet_id) {
                let copy = duplicate_of(g, sheet_id, new_sheet_id);
                lemma_position(g, sheet_id);
                assert(copy.wf());
                lemma_with_sheet(g, copy);
                assert(e.reverse =~= seq![e.reverse[0]]);
                assert(e.forward =~= seq![op]);
                lemma_replay_one(e.grid, e.reverse[0], TransactionSource::Undo);
                lemma_replay_one(g, op, TransactionSource::Redo);
            } else {
                lemma_nothing_invertible(g, e);
            }
        },
        _ => {},
    }
}

/// A sheet that takes the place of a sheet takes the place of whatever sheet
/// took that place before.
pub proof fn lemma_with_sheet_twice(g: GridView, a: SheetView, b: SheetView)
    requires
        grid_wf(g),
        a.wf(),
        b.wf(),
        a.id == b.id,
    ensures
        with_sheet(with_sheet(g, a), b) == with_sheet(g, b),
        grid_wf(with_sheet(g, a)),
        has_sheet(with_sheet(g, a), a.id),
        sheet_of(with_sheet(g, a), a.id) == a,
{
    lemma_with_sheet(g, a);
}

/// Replaying operations that set runs of one sheet changes the runs of that
/// sheet as `replay_runs` says, and nothing else.
pub proof fn lemma_replay_on_sheet(
    g: GridView,
    sheet_id: SheetId,
    ops: Seq<OperationView>,
    source: TransactionSource,
)
    requires
        grid_wf(g),
        has_sheet(g, sheet_id),
        sets_runs_of(ops, sheet_id),
    ensures
        sorted(replay_runs(sheet_of(g, sheet_id).code_runs, ops)),
        replay(g, ops, source) == with_sheet(
            g,
            sheet_of(g, sheet_id).with_code_runs(
                replay_runs(sheet_of(g, sheet_id).code_runs, ops),
            ),
        ),
    decreases ops.len(),
{
    reveal(step);
    reveal(replay);
    let s = sheet_of(g, sheet_id);
    lemma_position(g, sheet_id);
    if ops.len() == 0 {
        assert(s.with_code_runs(s.code_runs) == s);
        lemma_restore_sheet(g, sheet_id);
    } else {
        let op = ops[0];
        let rest = ops.skip(1);
        let s1 = s.with_code_runs(set_in(s.code_runs, op));
        lemma_set_in_sorted(s.code_runs, op);
        lemma_with_sheet_twice(g, s1, s1);
        let g1 = with_sheet(g, s1);
        assert(step(g, op, source, 0, any_spare()).grid == g1);
        assert(sets_runs_of(rest, sheet_id)) by {
            assert forall|i: int| 0 <= i < rest.len() implies ((#[trigger] rest[i])
                matches OperationView::SetCodeRun { sheet_pos, .. } && sheet_pos.sheet_id
                == sheet_id) by {
                assert(rest[i] == ops[i + 1]);
            }
        }
        lemma_replay_on_sheet(g1, sheet_id, rest, source);
        let s2 = s1.with_code_runs(replay_runs(s1.code_runs, rest));
        lemma_with_sheet_twice(g, s1, s2);
        assert(s2 == s.with_code_runs(replay_runs(s.code_runs, ops)));
    }
}

/// Operations that set runs are well-formed.
pub proof fn lemma_sets_runs_wf(ops: Seq<OperationView>, sheet_id: SheetId)
    requires
        sets_runs_of(ops, sheet_id),
    ensures
        all_wf(ops),
{
    assert forall|i: int| 0 <= i < ops.len() implies (#[trigger] ops[i]).wf() by {
        assert(ops[i] is SetCodeRun);
    }
}

pub proof fn lemma_all_wf_concat(a: Seq<OperationView>, b: Seq<OperationView>)
    requires
        all_wf(a),
        all_wf(b),
    ensures
        all_wf(a + b),
{
    assert forall|i: int| 0 <= i < (a + b).len() implies (#[trigger] (a + b)[i]).wf() by {
        if i < a.len() {
            assert((a + b)[i] == a[i]);
        } else {
            assert((a + b)[i] == b[i - a.len()]);
        }
    }
}

/// The recomputations that are queued are well-formed.
pub proof fn lemma_dependents_wf(
    g: GridView,
    target: crate::pos::SheetRect,
    skip: Option<crate::pos::SheetPos>,
    n: int,
)
    ensures
        all_wf(dependents(g, target, skip, n)),
    decreases n,
{
    if n <= 0 || n > g.len() {
    } else {
        lemma_dependents_wf(g, target, skip, n - 1);
        lemma_sheet_dependents_wf(g[n - 1], target, skip, g[n - 1].code_runs.len() as int);
        lemma_all_wf_concat(
            dependents(g, target, skip, n - 1),
            sheet_dependents(g[n - 1], target, skip, g[n - 1].code_runs.len() as int),
        );
    }
}

pub proof fn lemma_sheet_dependents_wf(
    sheet: SheetView,
    target: crate::pos::SheetRect,
    skip: Option<crate::pos::SheetPos>,
    k: int,
)
    ensures
        all_wf(sheet_dependents(sheet, target, skip, k)),
    decreases k,
{
    if k <= 0 || k > sheet.code_runs.len() {
    } else {
        lemma_sheet_dependents_wf(sheet, target, skip, k - 1);
    }
}

/// Writing a block of values is invertible.
#[verifier::rlimit(40)]
pub proof fn lemma_set_cell_values_invertible(
    g: GridView,
    sheet_pos: crate::pos::SheetPos,
    values: crate::values::CellValuesView,
    source: TransactionSource,
    transaction_id: u64,
)
    requires
        grid_wf(g),
        values.wf(),
    ensures
        invertible(g, set_cell_values_effect(g, sheet_pos, values, source, transaction_id)),
{
    reveal(step);
    let e = set_cell_values_effect(g, sheet_pos, values, source, transaction_id);
    let sheet_id = sheet_pos.sheet_id;
    let origin = sheet_pos.spec_pos();
    if !has_sheet(g, sheet_id) || !block_fits(origin, values.w, values.h) {
        lemma_nothing_invertible(g, e);
    } else {
        let s = sheet_of(g, sheet_id);
        lemma_position(g, sheet_id);
        let n = values.w * values.h;
        let rect = block_rect(origin, values.w, values.h);
        let written = s.with_cells(merge(s.cells, origin, values, n));
        let before = prior(s.cells, origin, values.w, values.h);
        lemma_merge(s.cells, origin, values, n);
        lemma_merge_prior(s.cells, origin, values);
        let apply = OperationView::SetCellValues { sheet_pos, values };
        let undo = OperationView::SetCellValues { sheet_pos, values: before };
        let redo = TransactionSource::Redo;
        let back = TransactionSource::Undo;
        lemma_with_sheet_twice(g, written, written);
        let g1 = with_sheet(g, written);
        lemma_replay_one(g, apply, redo);
        assert(replay(g, seq![apply], redo) == g1);
        if source.spec_is_user() {
            let retired = retire(written, rect);
            let kept = written.with_code_runs(retired.runs);
            let spilled = respill(kept);
            let after = kept.with_code_runs(spilled.runs);
            lemma_retire(written, rect);
            lemma_respill(kept);
            lemma_with_sheet_twice(g, after, after);
            lemma_with_sheet_twice(g, written, kept);
            lemma_with_sheet_twice(g, kept, after);
            let g2 = with_sheet(g, kept);
            // What is logged is well-formed.
            lemma_sets_runs_wf(retired.forward, sheet_id);
            lemma_sets_runs_wf(retired.reverse, sheet_id);
            lemma_sets_runs_wf(spilled.forward, sheet_id);
            lemma_sets_runs_wf(spilled.reverse, sheet_id);
            lemma_all_wf_concat(seq![apply], retired.forward);
            lemma_all_wf_concat(seq![apply] + retired.forward, spilled.forward);
            lemma_all_wf_concat(seq![undo], spilled.reverse);
            lemma_all_wf_concat(seq![undo] + spilled.reverse, retired.reverse);
            lemma_dependents_wf(
                with_sheet(g, after),
                SheetRect { min: rect.min, max: rect.max, sheet_id },
                None,
                with_sheet(g, after).len() as int,
            );
            // Replaying what was done.
            lemma_replay_concat(g, seq![apply] + retired.forward, spilled.forward, redo);
            lemma_replay_concat(g, seq![apply], retired.forward, redo);
            lemma_replay_on_sheet(g1, sheet_id, retired.forward, redo);
            lemma_replay_on_sheet(g2, sheet_id, spilled.forward, redo);
            assert(replay(g, e.forward, redo) == e.grid);
            // Replaying the inverses.
            lemma_replay_concat(e.grid, seq![undo] + spilled.reverse, retired.reverse, back);
            lemma_replay_concat(e.grid, seq![undo], spilled.reverse, back);
            lemma_replay_one(e.grid, undo, back);
            let restored_cells = after.with_cells(s.cells);
            assert(merge(after.cells, origin, before, n) == s.cells);
            lemma_with_sheet_twice(g, after, restored_cells);
            let h1 = with_sheet(g, restored_cells);
            assert(replay(e.grid, seq![undo], back) == h1);
            lemma_with_sheet_twice(g, restored_cells, restored_cells);
            lemma_replay_on_sheet(h1, sheet_id, spilled.reverse, back);
            let restored_spills = restored_cells.with_code_runs(kept.code_runs);
            lemma_with_sheet_twice(g, restored_cells, restored_spills);
            let h2 = with_sheet(g, restored_spills);
            lemma_with_sheet_twice(g, restored_spills, restored_spills);
            lemma_replay_on_sheet(h2, sheet_id, retired.reverse, back);
            assert(restored_spills.with_code_runs(written.code_runs) == s);
            lemma_with_sheet_twice(g, restored_spills, s);
            lemma_restore_sheet(g, sheet_id);
            assert(replay(e.grid, e.reverse, back) == g);
        } else {
            assert(e.forward =~= seq![apply]);
            assert(e.reverse =~= seq![undo]);
            lemma_replay_one(e.grid, undo, back);
            assert(merge(written.cells, origin, before, n) == s.cells);
            assert(written.with_cells(s.cells) == s);
            lemma_with_sheet_twice(g, written, s);
            lemma_restore_sheet(g, sheet_id);
        }
    }
}

/// Setting or removing a run is invertible.
pub proof fn lemma_set_code_run_invertible(
    g: GridView,
    sheet_pos: crate::pos::SheetPos,
    code_run: Option<crate::values::CodeRunView>,
    source: TransactionSource,
)
    requires
        grid_wf(g),
    ensures
        invertible(g, set_code_run_effect(g, sheet_pos, code_run, source)),
{
    reveal(step);
    let e = set_code_run_effect(g, sheet_pos, code_run, source);
    let sheet_id = sheet_pos.sheet_id;
    let pos = sheet_pos.spec_pos();
    if !has_sheet(g, sheet_id) {
        lemma_nothing_invertible(g, e);
    } else {
        let s = sheet_of(g, sheet_id);
        lemma_position(g, sheet_id);
        lemma_set_run_back(s.code_runs, pos, code_run);
        let set = s.set_run(pos, code_run);
        lemma_with_sheet_twice(g, set, set);
        assert(set.set_run(pos, s.run_at(pos)) == s);
        lemma_with_sheet_twice(g, set, s);
        lemma_restore_sheet(g, sheet_id);
        assert(e.forward =~= seq![e.forward[0]]);
        assert(e.reverse =~= seq![e.reverse[0]]);
        lemma_replay_one(g, e.forward[0], TransactionSource::Redo);
        lemma_replay_one(e.grid, e.reverse[0], TransactionSource::Undo);
    }
}

/// Running a code cell is invertible.
pub proof fn lemma_compute_code_invertible(
    g: GridView,
    sheet_pos: crate::pos::SheetPos,
    source: TransactionSource,
)
    requires
        grid_wf(g),
    ensures
        invertible(g, compute_code_effect(g, sheet_pos, source)),
{
    reveal(step);
    let e = compute_code_effect(g, sheet_pos, source);
    let sheet_id = sheet_pos.sheet_id;
    let pos = sheet_pos.spec_pos();
    if !has_sheet(g, sheet_id) {
        lemma_nothing_invertible(g, e);
    } else {
        let s = sheet_of(g, sheet_id);
        lemma_position(g, sheet_id);
        match crate::store::value_at(s.cells, pos) {
            Some(crate::values::CellValueView::Code(code)) => {
                let run = run_of(s, code);
                let ran = s.set_run(pos, Some(run));
                let apply = OperationView::SetCodeRun { sheet_pos, code_run: Some(run) };
                let undo = OperationView::SetCodeRun { sheet_pos, code_run: s.run_at(pos) };
                let redo = TransactionSource::Redo;
                let back = TransactionSource::Undo;
                lemma_set_run_back(s.code_runs, pos, Some(run));
                lemma_with_sheet_twice(g, ran, ran);
                let g1 = with_sheet(g, ran);
                lemma_replay_one(g, apply, redo);
                assert(ran.set_run(pos, s.run_at(pos)) == s);
                lemma_with_sheet_twice(g, ran, s);
                lemma_restore_sheet(g, sheet_id);
                if source.spec_is_user() {
                    let spilled = respill(ran);
                    let after = ran.with_code_runs(spilled.runs);
                    lemma_respill(ran);
                    lemma_with_sheet_twice(g, after, after);
                    lemma_with_sheet_twice(g, ran, after);
                    lemma_with_sheet_twice(g, after, ran);
                    lemma_sets_runs_wf(spilled.forward, sheet_id);
                    lemma_sets_runs_wf(spilled.reverse, sheet_id);
                    lemma_all_wf_concat(seq![apply], spilled.forward);
                    lemma_all_wf_concat(spilled.reverse, seq![undo]);
                    let out = crate::sheet::output_rect(pos, run);
                    lemma_dependents_wf(
                        with_sheet(g, after),
                        SheetRect { min: out.min, max: out.max, sheet_id },
                        Some(sheet_pos),
                        with_sheet(g, after).len() as int,
                    );
                    lemma_replay_concat(g, seq![apply], spilled.forward, redo);
                    lemma_replay_on_sheet(g1, sheet_id, spilled.forward, redo);
                    lemma_replay_concat(e.grid, spilled.reverse, seq![undo], back);
                    lemma_replay_on_sheet(e.grid, sheet_id, spilled.reverse, back);
                    assert(after.with_code_runs(ran.code_runs) == ran);
                    lemma_replay_one(g1, undo, back);
                } else {
                    assert(e.forward =~= seq![apply]);
                    assert(e.reverse =~= seq![undo]);
                    lemma_replay_one(e.grid, undo, back);
                }
            },
            _ => {
                lemma_nothing_invertible(g, e);
            },
        }
    }
}

/// Changing formats is invertible.
pub proof fn lemma_set_formats_invertible(
    g: GridView,
    selection: crate::selection::SelectionView,
    formats: Seq<crate::formats::FormatUpdate>,
    source: TransactionSource,
    transaction_id: u64,
)
    requires
        grid_wf(g),
    ensures
        invertible(g, crate::model::set_formats_effect(g, selection, formats, source, transaction_id)),
{
    reveal(step);
    let e = crate::model::set_formats_effect(g, selection, formats, source, transaction_id);
    let sheet_id = selection.sheet_id;
    let targets = selection.targets();
    if !has_sheet(g, sheet_id) || targets.len() != formats.len() || targets.len()
        > crate::selection::MAX_PARTS {
        lemma_nothing_invertible(g, e);
    } else {
        let s = sheet_of(g, sheet_id);
        lemma_position(g, sheet_id);
        crate::sheet_formatting::lemma_pass_back(s.formats, targets, formats);
        let changed = s.with_formats(
            crate::sheet_formatting::pass(s.formats, targets, formats, targets.len() as int),
        );
        lemma_with_sheet_twice(g, changed, changed);
        assert(changed.with_formats(s.formats) == s);
        lemma_with_sheet_twice(g, changed, s);
        lemma_restore_sheet(g, sheet_id);
        assert(e.forward =~= seq![e.forward[0]]);
        assert(e.reverse =~= seq![e.reverse[0]]);
        lemma_replay_one(g, e.forward[0], TransactionSource::Redo);
        lemma_replay_one(e.grid, e.reverse[0], TransactionSource::Undo);
    }
}

/// Every operation is invertible: it keeps the grid well-formed, replaying
/// its inverses undoes it, and replaying what it logged as done repeats it.
pub proof fn lemma_step_invertible(
    g: GridView,
    op: OperationView,
    source: TransactionSource,
    transaction_id: u64,
    spare: SheetId,
)
    requires
        grid_wf(g),
        op.wf(),
    ensures
        invertible(g, step(g, op, source, transaction_id, spare)),
{
    reveal(step);
    let e = step(g, op, source, transaction_id, spare);
    match op {
        OperationView::AddSheet { sheet } => {
            lemma_add_sheet_invertible(g, sheet, op, source);
        },
        OperationView::AddSheetSchema { schema } => {
            match schema.latest() {
                Some(sheet) => {
                    lemma_add_sheet_invertible(g, sheet, op, source);
                },
                None => {
                    lemma_nothing_invertible(g, e);
                },
            }
        },
        OperationView::DeleteSheet { sheet_id } => {
            lemma_delete_sheet_invertible(g, sheet_id, source, spare);
        },
        OperationView::SetCellValues { sheet_pos, values } => {
            lemma_set_cell_values_invertible(g, sheet_pos, values, source, transaction_id);
        },
        OperationView::ComputeCode { sheet_pos } => {
            lemma_compute_code_invertible(g, sheet_pos, source);
        },
        OperationView::SetCodeRun { sheet_pos, code_run } => {
            lemma_set_code_run_invertible(g, sheet_pos, code_run, source);
        },
        OperationView::SetCellFormatsSelection { selection, formats } => {
            lemma_set_formats_invertible(g, selection, formats, source, transaction_id);
        },
        _ => {
            lemma_sheet_step_invertible(g, op, source, transaction_id, spare);
        },
    }
}

/// The inverses that applying up to `steps` queued operations logs, the
/// latest first.
pub open spec fn logged_reverse(s: State, steps: nat) -> Seq<OperationView>
    decreases steps,
{
    if steps == 0 || s.transaction.operations.len() == 0 {
        Seq::empty()
    } else {
        logged_reverse(advance(s), (steps - 1) as nat) + step(
            s.grid,
            s.transaction.operations[0],
            s.transaction.source,
            s.transaction.id,
            s.spare(),
        ).reverse
    }
}

/// What applying up to `steps` queued operations logs as done.
pub open spec fn logged_forward(s: State, steps: nat) -> Seq<OperationView>
    decreases steps,
{
    if steps == 0 || s.transaction.operations.len() == 0 {
        Seq::empty()
    } else {
        step(
            s.grid,
            s.transaction.operations[0],
            s.transaction.source,
            s.transaction.id,
            s.spare(),
        ).forward + logged_forward(advance(s), (steps - 1) as nat)
    }
}

pub proof fn lemma_all_wf_skip(ops: Seq<OperationView>)
    requires
        all_wf(ops),
        ops.len() > 0,
    ensures
        all_wf(ops.skip(1)),
        ops[0].wf(),
{
    assert forall|i: int| 0 <= i < ops.skip(1).len() implies (#[trigger] ops.skip(1)[i]).wf() by {
        assert(ops.skip(1)[i] == ops[i + 1]);
    }
}

/// Whatever a transaction applies, its logs invert and repeat it: the
/// inverses that it logged, replayed on the grid it led to, lead back to the
/// grid it started from; and what it logged as done, replayed on the grid it
/// started from, leads to the grid it led to.
pub proof fn lemma_drain_invertible(s: State, steps: nat)
    requires
        grid_wf(s.grid),
        all_wf(s.transaction.operations),
    ensures
        grid_wf(drain(s, steps).grid),
        all_wf(drain(s, steps).transaction.operations),
        drain(s, steps).transaction.reverse_operations == logged_reverse(s, steps)
            + s.transaction.reverse_operations,
        drain(s, steps).transaction.forward_operations == s.transaction.forward_operations
            + logged_forward(s, steps),
        replay(drain(s, steps).grid, logged_reverse(s, steps), TransactionSource::Undo) == s.grid,
        replay(s.grid, logged_forward(s, steps), TransactionSource::Redo) == drain(s, steps).grid,
        drain(s, steps).transaction.source == s.transaction.source,
        drain(s, steps).transaction.id == s.transaction.id,
    decreases steps,
{
    if steps == 0 || s.transaction.operations.len() == 0 {
        lemma_replay_none(s.grid, TransactionSource::Undo);
        lemma_replay_none(s.grid, TransactionSource::Redo);
        assert(logged_reverse(s, steps) + s.transaction.reverse_operations
            =~= s.transaction.reverse_operations);
        assert(s.transaction.forward_operations + logged_forward(s, steps)
            =~= s.transaction.forward_operations);
    } else {
        let op = s.transaction.operations[0];
        let e = step(s.grid, op, s.transaction.source, s.transaction.id, s.spare());
        let s1 = advance(s);
        lemma_all_wf_skip(s.transaction.operations);
        lemma_step_invertible(s.grid, op, s.transaction.source, s.transaction.id, s.spare());
        lemma_all_wf_concat(s.transaction.operations.skip(1), e.queued);
        lemma_drain_invertible(s1, (steps - 1) as nat);
        let rest_reverse = logged_reverse(s1, (steps - 1) as nat);
        let rest_forward = logged_forward(s1, (steps - 1) as nat);
        let end = drain(s, steps);
        assert(end.transaction.reverse_operations =~= (rest_reverse + e.reverse)
            + s.transaction.reverse_operations);
        assert(end.transaction.forward_operations =~= s.transaction.forward_operations + (e.forward
            + rest_forward));
        lemma_replay_concat(end.grid, rest_reverse, e.reverse, TransactionSource::Undo);
        lemma_replay_concat(s.grid, e.forward, rest_forward, TransactionSource::Redo);
    }
}

/// **Undo round trip.** Apply any operations to a grid, as a transaction of
/// any source does, with all that they queue. Replaying the inverses that
/// the transaction logged on the grid that it led to gives exactly the grid
/// that it started from.
pub proof fn law_undo_round_trip(
    g: GridView,
    source: TransactionSource,
    operations: Seq<OperationView>,
    steps: nat,
    next_sheet_id: u64,
)
    requires
        grid_wf(g),
        all_wf(operations),
    ensures
        ({
            let end = drain(
                State {
                    grid: g,
                    notifications: Seq::empty(),
                    transaction: started(0, source, operations, None),
                    next_sheet_id,
                },
                steps,
            );
            grid_wf(end.grid) && replay(
                end.grid,
                end.transaction.reverse_operations,
                TransactionSource::Undo,
            ) == g
        }),
{
    let s = State {
        grid: g,
        notifications: Seq::empty(),
        transaction: started(0, source, operations, None),
        next_sheet_id,
    };
    lemma_drain_invertible(s, steps);
    assert(logged_reverse(s, steps) + Seq::<OperationView>::empty() =~= logged_reverse(s, steps));
}

/// **Redo round trip.** After a transaction is undone, replaying what it
/// logged as done gives the grid that it led to again.
pub proof fn law_redo_round_trip(
    g: GridView,
    source: TransactionSource,
    operations: Seq<OperationView>,
    steps: nat,
    next_sheet_id: u64,
)
    requires
        grid_wf(g),
        all_wf(operations),
    ensures
        ({
            let end = drain(
                State {
                    grid: g,
                    notifications: Seq::empty(),
                    transaction: started(0, source, operations, None),
                    next_sheet_id,
                },
                steps,
            );
            let undone = replay(
                end.grid,
                end.transaction.reverse_operations,
                TransactionSource::Undo,
            );
            replay(undone, end.transaction.forward_operations, TransactionSource::Redo) == end.grid
        }),
{
    let s = State {
        grid: g,
        notifications: Seq::empty(),
        transaction: started(0, source, operations, None),
        next_sheet_id,
    };
    lemma_drain_invertible(s, steps);
    assert(logged_reverse(s, steps) + Seq::<OperationView>::empty() =~= logged_reverse(s, steps));
    assert(Seq::<OperationView>::empty() + logged_forward(s, steps) =~= logged_forward(s, steps));
}

/// A transaction that does not come from a user queues nothing.
pub proof fn lemma_replays_queue_nothing(
    g: GridView,
    op: OperationView,
    source: TransactionSource,
    transaction_id: u64,
    spare: SheetId,
)
    requires
        !source.spec_is_user(),
    ensures
        step(g, op, source, transaction_id, spare).queued == Seq::<OperationView>::empty(),
{
    reveal(step);
}

/// The execution loop, run on a replay, replays: where the steps suffice,
/// it leads to the grid that `replay` gives.
pub proof fn lemma_drain_replays(s: State, steps: nat)
    requires
        !s.transaction.source.spec_is_user(),
        s.transaction.operations.len() <= steps,
    ensures
        drain(s, steps).grid == replay(s.grid, s.transaction.operations, s.transaction.source),
    decreases steps,
{
    reveal(replay);
    if steps == 0 || s.transaction.operations.len() == 0 {
    } else {
        let op = s.transaction.operations[0];
        lemma_replays_queue_nothing(s.grid, op, s.transaction.source, s.transaction.id, s.spare());
        lemma_step_spare(
            s.grid,
            op,
            s.transaction.source,
            s.transaction.id,
            s.spare(),
            any_spare(),
        );
        lemma_step_grid(s.grid, op, s.transaction.source, s.transaction.id, 0, any_spare());
        let e = step(s.grid, op, s.transaction.source, s.transaction.id, s.spare());
        assert(s.transaction.operations.skip(1) + e.queued =~= s.transaction.operations.skip(1));
        lemma_drain_replays(advance(s), (steps - 1) as nat);
    }
}

/// **Undo and redo of a user's transaction.** After a transaction of a user
/// that applied something, `undo` leads back to the grid from before, and
/// `redo` after it to the grid from after, provided that the logs are no
/// longer than the steps that one replay takes.
pub proof fn law_undo_then_redo(
    c: ControllerView,
    operations: Seq<OperationView>,
    cursor: Option<Seq<char>>,
    undo_cursor: Option<Seq<char>>,
    redo_cursor: Option<Seq<char>>,
)
    requires
        grid_wf(c.grid),
        all_wf(operations),
        transacted(c, operations, cursor).undo_stack.len() == c.undo_stack.len() + 1,
        transacted(c, operations, cursor).undo_stack.last().reverse.operations.len() <= MAX_STEPS,
        transacted(c, operations, cursor).undo_stack.last().forward.operations.len() <= MAX_STEPS,
    ensures
        undone(transacted(c, operations, cursor), undo_cursor).grid == c.grid,
        redone(
            undone(transacted(c, operations, cursor), undo_cursor),
            redo_cursor,
        ).grid == transacted(c, operations, cursor).grid,
{
    let s0 = entering(c, TransactionSource::User, operations, cursor);
    let end = drain(s0, MAX_STEPS as nat);
    let c1 = transacted(c, operations, cursor);
    lemma_drain_invertible(s0, MAX_STEPS as nat);
    assert(logged_reverse(s0, MAX_STEPS as nat) + Seq::<OperationView>::empty()
        =~= logged_reverse(s0, MAX_STEPS as nat));
    assert(Seq::<OperationView>::empty() + logged_forward(s0, MAX_STEPS as nat)
        =~= logged_forward(s0, MAX_STEPS as nat));
    assert(end.transaction.forward_operations.len() > 0);
    assert(c1.undo_stack.last() == kept(end.transaction));
    let u = entering(
        c1,
        TransactionSource::Undo,
        c1.undo_stack.last().reverse.operations,
        undo_cursor,
    );
    lemma_drain_replays(u, MAX_STEPS as nat);
    let c2 = undone(c1, undo_cursor);
    assert(c2.redo_stack.last() == kept(end.transaction));
    let r = entering(
        c2,
        TransactionSource::Redo,
        c2.redo_stack.last().forward.operations,
        redo_cursor,
    );
    lemma_drain_replays(r, MAX_STEPS as nat);
}

/// **Adding a sheet twice.** Applying `AddSheet` a second time changes
/// nothing and logs nothing.
pub proof fn law_add_sheet_idempotent(
    g: GridView,
    sheet: SheetView,
    source: TransactionSource,
    transaction_id: u64,
    spare: SheetId,
)
    requires
        grid_wf(g),
        sheet.wf(),
    ensures
        ({
            let op = OperationView::AddSheet { sheet };
            let once = step(g, op, source, transaction_id, spare).grid;
            step(once, op, source, transaction_id, spare) == nothing(once)
        }),
{
    reveal(step);
    lemma_with_sheet(g, sheet);
}

/// **Deleting a sheet that is not there** changes nothing and logs nothing.
pub proof fn law_delete_absent_sheet(
    g: GridView,
    sheet_id: SheetId,
    source: TransactionSource,
    transaction_id: u64,
    spare: SheetId,
)
    requires
        !has_sheet(g, sheet_id),
    ensures
        step(g, OperationView::DeleteSheet { sheet_id }, source, transaction_id, spare) == nothing(g),
{
    reveal(step);
}

/// **Deleting a sheet twice.** After a sheet is deleted, deleting it again
/// changes nothing and logs nothing, also where the first deletion put a new
/// sheet in its place: its identity is a spare one, which no sheet had.
pub proof fn law_delete_sheet_idempotent(
    g: GridView,
    sheet_id: SheetId,
    source: TransactionSource,
    transaction_id: u64,
    spare: SheetId,
)
    requires
        grid_wf(g),
        !has_sheet(g, spare),
    ensures
        ({
            let op = OperationView::DeleteSheet { sheet_id };
            let once = step(g, op, source, transaction_id, spare).grid;
            step(once, op, source, transaction_id, spare) == nothing(once)
        }),
{
    reveal(step);
    lemma_without(g, sheet_id);
    if has_sheet(g, sheet_id) {
        let rest = without(g, sheet_id);
        if source.spec_is_user() && rest.len() == 0 {
            let fresh = replacement_sheet(spare);
            assert(fresh.wf());
            lemma_with_sheet(rest, fresh);
        }
    }
}

/// **The last sheet.** When a user deletes the only sheet, the grid has
/// exactly one sheet afterwards, of the spare identity, which is another
/// than that of the deleted sheet; and replaying the inverses gives the grid
/// with the deleted sheet alone.
pub proof fn law_last_sheet(
    g: GridView,
    source: TransactionSource,
    transaction_id: u64,
    spare: SheetId,
)
    requires
        grid_wf(g),
        g.len() == 1,
        source.spec_is_user(),
        !has_sheet(g, spare),
    ensures
        ({
            let e = step(
                g,
                OperationView::DeleteSheet { sheet_id: g[0].id },
                source,
                transaction_id,
                spare,
            );
            &&& e.grid.len() == 1
            &&& e.grid[0].id == spare
            &&& e.grid[0].id != g[0].id
            &&& replay(e.grid, e.reverse, TransactionSource::Undo) == g
            &&& replay(e.grid, e.reverse, TransactionSource::Undo)[0] == g[0]
        }),
{
    reveal(step);
    let sheet_id = g[0].id;
    crate::grid::lemma_position_of_sheet(g, 0);
    lemma_without(g, sheet_id);
    let rest = without(g, sheet_id);
    let fresh = replacement_sheet(spare);
    assert(fresh.wf());
    lemma_with_sheet(rest, fresh);
    lemma_position(with_sheet(rest, fresh), fresh.id);
    lemma_delete_sheet_invertible(g, sheet_id, source, spare);
}

/// **A sheet stays.** An operation of a user never leaves a grid that has a
/// sheet without one.
pub proof fn law_user_keeps_a_sheet(
    g: GridView,
    op: OperationView,
    transaction_id: u64,
    spare: SheetId,
)
    requires
        grid_wf(g),
        op.wf(),
        g.len() >= 1,
    ensures
        step(g, op, TransactionSource::User, transaction_id, spare).grid.len() >= 1,
{
    reveal(step);
    match op {
        OperationView::DeleteSheet { sheet_id } => {
            lemma_without(g, sheet_id);
            if has_sheet(g, sheet_id) && without(g, sheet_id).len() == 0 {
                let fresh = replacement_sheet(spare);
                assert(fresh.wf());
                lemma_with_sheet(without(g, sheet_id), fresh);
            }
        },
        _ => {
            // Every other operation puts a sheet in, or in the place of
            // one, or changes nothing.
            lemma_grid_not_smaller(g, op, TransactionSource::User, transaction_id, spare);
        },
    }
}

/// An operation other than the deletion of a sheet leaves the grid with as
/// many sheets as it had, or more.
pub proof fn lemma_grid_not_smaller(
    g: GridView,
    op: OperationView,
    source: TransactionSource,
    transaction_id: u64,
    spare: SheetId,
)
    requires
        grid_wf(g),
        !(op is DeleteSheet),
    ensures
        step(g, op, source, transaction_id, spare).grid.len() >= g.len(),
{
    reveal(step);
    crate::grid::lemma_with_sheet_len(g);
}

/// **Names of copies.** The name that a copy of a sheet gets is the name of
/// no sheet of the grid.
pub proof fn law_duplicate_name_is_new(g: GridView, sheet_id: SheetId, new_sheet_id: SheetId)
    ensures
        !crate::grid::names(g).contains(duplicate_of(g, sheet_id, new_sheet_id).name),
        forall|i: int|
            0 <= i < g.len() ==> (#[trigger] g[i]).name != duplicate_of(
                g,
                sheet_id,
                new_sheet_id,
            ).name,
{
    let used = crate::grid::names(g);
    let copy = sheet_of(g, sheet_id).name + " Copy"@;
    crate::names::lemma_unused_name(copy, used);
    assert forall|i: int| 0 <= i < g.len() implies (#[trigger] g[i]).name != duplicate_of(
        g,
        sheet_id,
        new_sheet_id,
    ).name by {
        assert(used[i] == g[i].name);
    }
}

/// **The place of a copy.** Where a key is given between a sheet and its
/// right neighbour, the copy of the sheet gets it, and so sorts after the
/// sheet and before the neighbour; else it gets the key of the sheet.
pub proof fn law_duplicate_order_is_between(g: GridView, sheet_id: SheetId)
    ensures
        ({
            let own = sheet_of(g, sheet_id).order;
            let copy = crate::model::duplicate_order(g, sheet_id);
            copy == own || (crate::text::lex_lt(own, copy) && (crate::grid::next_order(g, sheet_id)
                matches Some(right) ==> crate::text::lex_lt(copy, right)))
        }),
{
}

/// **The forward log holds the operation as applied.** Whatever an
/// operation logs as done begins with the operation itself. The one
/// exception is `ComputeCode`, which logs the run that it set.
pub proof fn law_forward_log_is_as_applied(
    g: GridView,
    op: OperationView,
    source: TransactionSource,
    transaction_id: u64,
    spare: SheetId,
)
    requires
        !(op is ComputeCode),
    ensures
        step(g, op, source, transaction_id, spare).forward.len() > 0 ==> step(
            g,
            op,
            source,
            transaction_id,
            spare,
        ).forward[0] == op,
{
    reveal(step);
}

/// **A copy stands right behind its sheet.** Where the sheet is there, the
/// new identity is free and a key is given between the sheet and its right
/// neighbour, duplicating puts in one sheet more, with that key: it sorts
/// after the sheet and before the neighbour, and stands in the tab order
/// right behind the sheet. Every other sheet is as it was.
pub proof fn law_duplicate_lands_behind(
    g: GridView,
    sheet_id: SheetId,
    new_sheet_id: SheetId,
    source: TransactionSource,
    transaction_id: u64,
    spare: SheetId,
)
    requires
        grid_wf(g),
        has_sheet(g, sheet_id),
        !has_sheet(g, new_sheet_id),
        spec_key_between(Some(sheet_of(g, sheet_id).order), next_order(g, sheet_id)) is Some,
    ensures
        ({
            let after = step(
                g,
                OperationView::DuplicateSheet { sheet_id, new_sheet_id },
                source,
                transaction_id,
                spare,
            ).grid;
            let own = sheet_of(g, sheet_id).order;
            let key = spec_key_between(Some(own), next_order(g, sheet_id))->0;
            &&& after.len() == g.len() + 1
            &&& has_sheet(after, new_sheet_id)
            &&& sheet_of(after, new_sheet_id).order == key
            &&& lex_lt(own, key)
            &&& next_order(g, sheet_id) matches Some(right) ==> lex_lt(key, right)
            &&& position(after, sheet_id) == position(g, sheet_id)
            &&& position(after, new_sheet_id) == position(g, sheet_id) + 1
            &&& forall|other: SheetId|
                other != new_sheet_id ==> has_sheet(after, other) == has_sheet(g, other) && (
                has_sheet(g, other) ==> sheet_of(after, other) == sheet_of(g, other))
        }),
{
    reveal(step);
    let p = position(g, sheet_id);
    let own = g[p].order;
    let key = spec_key_between(Some(own), next_order(g, sheet_id))->0;
    let copy = duplicate_of(g, sheet_id, new_sheet_id);
    lemma_position(g, sheet_id);
    lemma_position(g, new_sheet_id);
    assert(g[p].wf());
    assert(copy.wf());
    lemma_with_sheet(g, copy);
    let t = with_sheet(g, copy);
    assert forall|i: int| 0 <= i < p + 1 implies SheetView::key_lt(
        (#[trigger] g[i]).key(),
        copy.key(),
    ) by {
        if i < p {
            SheetView::lemma_key_order(g[i].key(), g[p].key(), copy.key());
        }
    }
    if p + 1 < g.len() {
        crate::text::lemma_lex_asymmetric(key, g[p + 1].order);
        crate::text::lemma_lex_irreflexive(key);
    }
    lemma_rank_unique(g, copy.key(), p + 1);
    assert(t == g.insert(p + 1, copy));
    assert forall|i: int| 0 <= i < p + 1 implies (#[trigger] t[i]).id != new_sheet_id by {
        assert(t[i] == g[i]);
    }
    assert forall|i: int| 0 <= i < p implies (#[trigger] t[i]).id != sheet_id by {
        assert(t[i] == g[i]);
    }
    assert(t[p] == g[p]);
    lemma_position_unique(t, sheet_id, p);
    lemma_position_unique(t, new_sheet_id, p + 1);
}

/// **Names stay distinct.** Where no two sheets have the same name, the
/// sheet is there and the new identity is free, no two sheets have the same
/// name after the sheet is duplicated, and no sheet but the copy has another
/// name than before. The name of the copy is the name of the sheet and
/// ` Copy`, or where a sheet has that name, that and the smallest number from
/// 1 on with which no sheet has it.
pub proof fn law_duplicate_keeps_names_distinct(
    g: GridView,
    sheet_id: SheetId,
    new_sheet_id: SheetId,
    source: TransactionSource,
    transaction_id: u64,
    spare: SheetId,
)
    requires
        grid_wf(g),
        distinct_names(g),
        has_sheet(g, sheet_id),
        !has_sheet(g, new_sheet_id),
    ensures
        ({
            let after = step(
                g,
                OperationView::DuplicateSheet { sheet_id, new_sheet_id },
                source,
                transaction_id,
                spare,
            ).grid;
            let used = crate::grid::names(g);
            let base = sheet_of(g, sheet_id).name + " Copy"@;
            let name = sheet_of(after, new_sheet_id).name;
            &&& distinct_names(after)
            &&& has_sheet(after, new_sheet_id)
            &&& !used.contains(name)
            &&& !used.contains(base) ==> name == base
            &&& used.contains(base) ==> exists|n: nat|
                {
                    &&& n >= 1
                    &&& name == #[trigger] candidate(base, n)
                    &&& forall|m: nat| 1 <= m < n ==> used.contains(#[trigger] candidate(base, m))
                }
            &&& forall|other: SheetId|
                other != new_sheet_id && has_sheet(g, other) ==> has_sheet(after, other)
                    && sheet_of(after, other).name == sheet_of(g, other).name
        }),
{
    reveal(step);
    let p = position(g, sheet_id);
    let copy = duplicate_of(g, sheet_id, new_sheet_id);
    let used = crate::grid::names(g);
    let base = sheet_of(g, sheet_id).name + " Copy"@;
    lemma_position(g, sheet_id);
    lemma_position(g, new_sheet_id);
    assert(g[p].wf());
    assert(copy.wf());
    lemma_with_sheet(g, copy);
    law_duplicate_name_is_new(g, sheet_id, new_sheet_id);
    crate::names::lemma_unused_name(base, used);
    let t = with_sheet(g, copy);
    let r = rank(g, copy.key());
    lemma_rank(g, copy.key());
    assert(t == g.insert(r, copy));
    assert forall|i: int, j: int| 0 <= i < j < t.len() implies (#[trigger] t[i]).name != (
    #[trigger] t[j]).name by {
        let gi = if i < r { i } else { i - 1 };
        let gj = if j < r { j } else { j - 1 };
        if i != r {
            assert(t[i] == g[gi]);
        }
        if j != r {
            assert(t[j] == g[gj]);
        }
    }
    if used.contains(base) {
        let n = crate::names::first_free(base, used, 1);
        assert(copy.name == candidate(base, n));
    }
}

} // verus!
