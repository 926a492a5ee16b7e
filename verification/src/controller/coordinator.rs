//! The coordination of code runs with the cells they depend on: retiring
//! runs whose code cell is gone, queuing the recomputation of runs that read
//! a changed cell, and finding out which outputs are blocked.

use crate::grid::{Grid, GridView};
use crate::model::{
    blocked, dependents, on_sheet, orphans, reads, respill, respilled, retire, set_run_op,
    sheet_dependents, spill_forward, spill_reverse, spill_runs, without_runs,
};
use crate::operation::{Operation, OperationView};
use crate::pos::{Pos, Rect, SheetId, SheetPos, SheetRect};
use crate::sheet::{output_rect, read, Sheet, SheetView};
use crate::sorted::{lemma_put, lemma_rank_of_element, put, sorted, Keyed};
use crate::store::value_at;
use crate::transaction::{PendingTransaction, TransactionView};
use crate::values::{CodeRun, CodeRunResult, CodeRunView};
use vstd::prelude::*;

verus! {

/// The rectangle that the output of a run would take up if nothing stood in
/// its way.
pub fn full_output_rect(at: Pos, run: &CodeRun) -> (r: Rect)
    ensures
        r == output_rect(at, run@.with_spill(false)),
{
    let (w, h) = match &run.result {
        CodeRunResult::Values(v) => {
            if v.w() == 0 || v.h() == 0 {
                (1, 1)
            } else {
                (v.w(), v.h())
            }
        },
        CodeRunResult::Failed(_) => (1, 1),
    };
    let x: i128 = at.x as i128 + w as i128 - 1;
    let y: i128 = at.y as i128 + h as i128 - 1;
    Rect {
        min: at,
        max: Pos {
            x: if x > i64::MAX as i128 { i64::MAX } else { x as i64 },
            y: if y > i64::MAX as i128 { i64::MAX } else { y as i64 },
        },
    }
}

/// Whether a stored value stands in the way of a run's output.
pub fn is_blocked(sheet: &Sheet, at: Pos, run: &CodeRun) -> (r: bool)
    ensures
        r == blocked(sheet@.cells, at, run@),
{
    let rect = full_output_rect(at, run);
    let mut i: usize = 0;
    while i < sheet.cell_count()
        invariant
            i <= sheet@.cells.len(),
            rect == output_rect(at, run@.with_spill(false)),
            forall|j: int|
                0 <= j < i ==> !((#[trigger] sheet@.cells[j]).0 != at && rect.spec_contains(
                    sheet@.cells[j].0,
                )),
        decreases sheet@.cells.len() - i,
    {
        let p = sheet.cell_pos_at(i);
        if (p.x != at.x || p.y != at.y) && rect.contains(p) {
            assert(sheet@.cells[i as int].0 != at);
            return true;
        }
        i = i + 1;
    }
    false
}

/// Whether a run read a cell of the rectangle.
pub fn run_reads(run: &CodeRun, target: SheetRect) -> (r: bool)
    ensures
        r == reads(run@, target),
{
    let mut i: usize = 0;
    while i < run.cells_accessed.len()
        invariant
            i <= run.cells_accessed.len(),
            forall|j: int|
                0 <= j < i ==> !((#[trigger] run@.cells_accessed[j]).sheet_id == target.sheet_id
                    && run@.cells_accessed[j].spec_rect().spec_intersects(target.spec_rect())),
        decreases run.cells_accessed.len() - i,
    {
        let a = run.cells_accessed[i];
        if a.sheet_id == target.sheet_id && a.rect().intersects(target.rect()) {
            assert(run@.cells_accessed[i as int] == a);
            return true;
        }
        i = i + 1;
    }
    false
}

/// Copies a run with another spill flag.
pub fn with_spill_error(run: &CodeRun, spill_error: bool) -> (r: CodeRun)
    ensures
        r@ == run@.with_spill(spill_error),
{
    let mut r = run.clone();
    r.spill_error = spill_error;
    r
}

/// The transaction with more in its two logs.
pub open spec fn with_logs(
    t: TransactionView,
    forward: Seq<OperationView>,
    reverse: Seq<OperationView>,
) -> TransactionView {
    TransactionView {
        forward_operations: t.forward_operations + forward,
        reverse_operations: reverse + t.reverse_operations,
        ..t
    }
}

/// Retires the code runs in `rect` whose cell no longer holds code, and logs
/// each removal with its inverse.
pub fn check_deleted_code_runs(
    sheet: &mut Sheet,
    rect: Rect,
    transaction: &mut PendingTransaction,
)
    ensures
        final(sheet)@ == old(sheet)@.with_code_runs(retire(old(sheet)@, rect).runs),
        final(transaction)@ == with_logs(
            old(transaction)@,
            retire(old(sheet)@, rect).forward,
            retire(old(sheet)@, rect).reverse,
        ),
{
    sheet.note_wf();
    let ghost start = sheet@;
    let ghost t0 = transaction@;
    let sheet_id = sheet.id();
    let count: usize = sheet.code_run_count();
    // Find the runs to retire, with a copy of each for the inverse.
    let mut found: Vec<(Pos, CodeRun)> = Vec::new();
    let mut k: usize = 0;
    while k < count
        invariant
            k <= count,
            count == start.code_runs.len(),
            sheet@ == start,
            sorted(start.code_runs),
            found@.len() == orphans(start, rect, k as int).len(),
            forall|j: int|
                0 <= j < found@.len() ==> (#[trigger] found@[j]).0 == orphans(start, rect, k as int)[j]
                    && start.run_at(found@[j].0) == Some(found@[j].1@),
        decreases count - k,
    {
        let pos = sheet.code_run_pos(k);
        let holds_code = match sheet.cell_value(pos) {
            Some(v) => v.is_code(),
            None => false,
        };
        if rect.contains(pos) && !holds_code {
            let run = sheet.code_run_at_index(k).clone();
            proof {
                lemma_rank_of_element(start.code_runs, k as int);
            }
            found.push((pos, run));
        }
        k = k + 1;
    }
    let ghost targets = orphans(start, rect, count as int);
    let n: usize = found.len();
    let mut j: usize = 0;
    while j < n
        invariant
            j <= n,
            n == found@.len(),
            n == targets.len(),
            sheet_id == start.id,
            forall|i: int|
                0 <= i < n ==> (#[trigger] found@[i]).0 == targets[i] && start.run_at(found@[i].0)
                    == Some(found@[i].1@),
            sheet@ == start.with_code_runs(without_runs(start.code_runs, targets, j as int)),
            transaction@ == with_logs(
                t0,
                Seq::new(j as nat, |i: int| set_run_op(targets[i], start.id, None)),
                Seq::new(
                    j as nat,
                    |i: int|
                        set_run_op(targets[j - 1 - i], start.id, start.run_at(targets[j - 1 - i])),
                ),
            ),
        decreases n - j,
    {
        let ghost before = transaction@;
        let pos = found[j].0;
        let run = found[j].1.clone();
        sheet.set_code_run(pos, None);
        transaction.push_forward(
            Operation::SetCodeRun { sheet_pos: pos.to_sheet_pos(sheet_id), code_run: None },
        );
        transaction.push_reverse(
            Operation::SetCodeRun { sheet_pos: pos.to_sheet_pos(sheet_id), code_run: Some(run) },
        );
        proof {
            let f0 = Seq::new(j as nat, |i: int| set_run_op(targets[i], start.id, None));
            let f1 = Seq::new((j + 1) as nat, |i: int| set_run_op(targets[i], start.id, None));
            let r0 = Seq::new(
                j as nat,
                |i: int| set_run_op(targets[j - 1 - i], start.id, start.run_at(targets[j - 1 - i])),
            );
            let r1 = Seq::new(
                (j + 1) as nat,
                |i: int| set_run_op(targets[j - i], start.id, start.run_at(targets[j - i])),
            );
            assert(f1 =~= f0.push(set_run_op(targets[j as int], start.id, None)));
            assert(r1 =~= seq![
                set_run_op(targets[j as int], start.id, start.run_at(targets[j as int])),
            ] + r0);
            assert(transaction@.forward_operations =~= t0.forward_operations + f1);
            assert(transaction@.reverse_operations =~= r1 + t0.reverse_operations);
        }
        j = j + 1;
    }
    proof {
        let r = retire(start, rect);
        assert(transaction@.forward_operations =~= t0.forward_operations + r.forward);
        assert(transaction@.reverse_operations =~= r.reverse + t0.reverse_operations);
    }
}

/// Sets the spill flag of every run of the sheet to what its cells say, and
/// logs each change with its inverse.
pub fn check_all_spills(sheet: &mut Sheet, transaction: &mut PendingTransaction)
    ensures
        final(sheet)@ == old(sheet)@.with_code_runs(respill(old(sheet)@).runs),
        final(transaction)@ == with_logs(
            old(transaction)@,
            respill(old(sheet)@).forward,
            respill(old(sheet)@).reverse,
        ),
{
    sheet.note_wf();
    let ghost start = sheet@;
    let ghost t0 = transaction@;
    let ghost cells = start.cells;
    let ghost runs = start.code_runs;
    let sheet_id = sheet.id();
    let count: usize = sheet.code_run_count();
    let mut k: usize = 0;
    proof {
        assert(spill_runs(cells, runs, 0) =~= runs);
        assert(t0.forward_operations + spill_forward(cells, runs, sheet_id, 0)
            =~= t0.forward_operations);
        assert(spill_reverse(cells, runs, sheet_id, 0) + t0.reverse_operations
            =~= t0.reverse_operations);
    }
    while k < count
        invariant
            k <= count,
            count == runs.len(),
            sheet_id == start.id,
            cells == start.cells,
            runs == start.code_runs,
            sorted(runs),
            sheet@ == start.with_code_runs(spill_runs(cells, runs, k as int)),
            transaction@ == with_logs(
                t0,
                spill_forward(cells, runs, sheet_id, k as int),
                spill_reverse(cells, runs, sheet_id, k as int),
            ),
        decreases count - k,
    {
        let ghost current = sheet@.code_runs;
        assert(current[k as int] == runs[k as int]);
        let pos = sheet.code_run_pos(k);
        let run = sheet.code_run_at_index(k);
        let now_blocked = is_blocked(sheet, pos, run);
        if now_blocked != run.spill_error {
            let changed = with_spill_error(run, now_blocked);
            let unchanged = run.clone();
            proof {
                // The runs stay at their positions, so the changed run
                // replaces the run at index `k`.
                assert(sorted(current)) by {
                    assert forall|a: int, b: int| 0 <= a < b < current.len() implies <(
                        Pos,
                        CodeRunView,
                    ) as Keyed>::key_lt(#[trigger] current[a].key(), #[trigger] current[b].key()) by {
                        assert(current[a].0 == runs[a].0 && current[b].0 == runs[b].0);
                        assert(<(Pos, CodeRunView) as Keyed>::key_lt(runs[a].key(), runs[b].key()));
                    }
                }
                lemma_rank_of_element(current, k as int);
                assert(put(current, (pos, changed@)) =~= spill_runs(cells, runs, k + 1));
            }
            sheet.set_code_run(pos, Some(changed.clone()));
            transaction.push_forward(
                Operation::SetCodeRun {
                    sheet_pos: pos.to_sheet_pos(sheet_id),
                    code_run: Some(changed),
                },
            );
            transaction.push_reverse(
                Operation::SetCodeRun {
                    sheet_pos: pos.to_sheet_pos(sheet_id),
                    code_run: Some(unchanged),
                },
            );
            proof {
                assert(transaction@.forward_operations =~= t0.forward_operations + spill_forward(
                    cells,
                    runs,
                    sheet_id,
                    k + 1,
                ));
                assert(transaction@.reverse_operations =~= spill_reverse(
                    cells,
                    runs,
                    sheet_id,
                    k + 1,
                ) + t0.reverse_operations);
            }
        } else {
            proof {
                assert(respilled(cells, runs, k as int) == runs[k as int]);
                assert(spill_runs(cells, runs, k + 1) =~= spill_runs(cells, runs, k as int));
            }
        }
        k = k + 1;
    }
}

/// The transaction with more in its queue.
pub open spec fn with_queued(t: TransactionView, queued: Seq<OperationView>) -> TransactionView {
    TransactionView { operations: t.operations + queued, ..t }
}

/// Queues the recomputation of every run that read a cell of `target`, but
/// for the code cell `skip`.
pub fn add_compute_operations(
    grid: &Grid,
    target: SheetRect,
    skip: Option<SheetPos>,
    transaction: &mut PendingTransaction,
)
    ensures
        final(transaction)@ == with_queued(
            old(transaction)@,
            dependents(grid@, target, skip, grid@.len() as int),
        ),
{
    let ghost t0 = transaction@;
    let sheets = grid.sheets();
    let mut n: usize = 0;
    proof {
        assert(t0.operations + dependents(grid@, target, skip, 0) =~= t0.operations);
    }
    while n < sheets.len()
        invariant
            n <= sheets.len(),
            sheets.deep_view() == grid@,
            transaction@ == with_queued(t0, dependents(grid@, target, skip, n as int)),
        decreases sheets.len() - n,
    {
        let sheet = &sheets[n];
        let ghost sv = grid@[n as int];
        assert(sheet@ == sv);
        let ghost t1 = transaction@;
        let count: usize = sheet.code_run_count();
        let mut k: usize = 0;
        proof {
            assert(t1.operations + sheet_dependents(sv, target, skip, 0) =~= t1.operations);
        }
        while k < count
            invariant
                k <= count,
                count == sv.code_runs.len(),
                sheet@ == sv,
                transaction@ == with_queued(t1, sheet_dependents(sv, target, skip, k as int)),
            decreases count - k,
        {
            let pos = sheet.code_run_pos(k);
            let at = pos.to_sheet_pos(sheet.id());
            let skipped = match skip {
                Some(s) => s == at,
                None => false,
            };
            if run_reads(sheet.code_run_at_index(k), target) && !skipped {
                transaction.enqueue(Operation::ComputeCode { sheet_pos: at });
                assert(transaction@.operations =~= t1.operations + sheet_dependents(
                    sv,
                    target,
                    skip,
                    k + 1,
                ));
            }
            k = k + 1;
        }
        proof {
            assert(transaction@.operations =~= t0.operations + dependents(
                grid@,
                target,
                skip,
                n + 1,
            ));
        }
        n = n + 1;
    }
}

} // verus!
