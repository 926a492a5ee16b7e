//! What the passes over the code runs of a sheet log, replayed: the proofs
//! that their logs repeat and invert them.

use crate::model::{
    orphans, respill, respilled, retire, set_run_op, spill_forward, spill_reverse, spill_runs,
    without_runs, Sweep,
};
use crate::operation::{all_wf, OperationView};
use crate::pos::{Pos, Rect, SheetId};
use crate::sheet::{CellsView, RunsView, SheetView};
use crate::sorted::{
    contains_key, del, lemma_del, lemma_del_after_put, lemma_put, lemma_put_after_del,
    lemma_put_after_put, lemma_rank, lemma_rank_of_element, lemma_rank_sorted, lookup, put, rank,
    sorted, Keyed,
};
use crate::store::value_at;
use crate::values::CodeRunView;
use vstd::prelude::*;

verus! {

/// The runs after one operation that sets a run is applied to them.
pub open spec fn set_in(runs: RunsView, op: OperationView) -> RunsView {
    match op {
        OperationView::SetCodeRun { sheet_pos, code_run } => match code_run {
            Some(run) => put(runs, (sheet_pos.spec_pos(), run)),
            None => del(runs, sheet_pos.spec_pos()),
        },
        _ => runs,
    }
}

/// The runs after the operations, which set runs, are applied in order.
pub open spec fn replay_runs(runs: RunsView, ops: Seq<OperationView>) -> RunsView
    decreases ops.len(),
{
    if ops.len() == 0 {
        runs
    } else {
        replay_runs(set_in(runs, ops[0]), ops.skip(1))
    }
}

/// All the operations set runs of the sheet `sheet_id`.
pub open spec fn sets_runs_of(ops: Seq<OperationView>, sheet_id: SheetId) -> bool {
    forall|i: int|
        0 <= i < ops.len() ==> ((#[trigger] ops[i]) matches OperationView::SetCodeRun {
            sheet_pos,
            ..
        } && sheet_pos.sheet_id == sheet_id)
}

pub proof fn lemma_set_in_sorted(runs: RunsView, op: OperationView)
    requires
        sorted(runs),
    ensures
        sorted(set_in(runs, op)),
{
    match op {
        OperationView::SetCodeRun { sheet_pos, code_run } => match code_run {
            Some(run) => {
                lemma_put(runs, (sheet_pos.spec_pos(), run));
            },
            None => {
                lemma_del(runs, sheet_pos.spec_pos());
            },
        },
        _ => {},
    }
}

pub proof fn lemma_replay_runs_concat(runs: RunsView, a: Seq<OperationView>, b: Seq<OperationView>)
    ensures
        replay_runs(runs, a + b) == replay_runs(replay_runs(runs, a), b),
    decreases a.len(),
{
    if a.len() == 0 {
        assert(a + b =~= b);
    } else {
        assert((a + b)[0] == a[0]);
        assert((a + b).skip(1) =~= a.skip(1) + b);
        lemma_replay_runs_concat(set_in(runs, a[0]), a.skip(1), b);
    }
}

pub proof fn lemma_replay_runs_one(runs: RunsView, op: OperationView)
    ensures
        replay_runs(runs, seq![op]) == set_in(runs, op),
{
    assert(seq![op].skip(1) =~= Seq::<OperationView>::empty());
    assert(seq![op][0] == op);
    assert(replay_runs(set_in(runs, op), Seq::<OperationView>::empty()) == set_in(runs, op));
}

pub proof fn lemma_replay_runs_push(runs: RunsView, a: Seq<OperationView>, op: OperationView)
    ensures
        replay_runs(runs, a.push(op)) == set_in(replay_runs(runs, a), op),
{
    assert(a.push(op) =~= a + seq![op]);
    lemma_replay_runs_concat(runs, a, seq![op]);
    lemma_replay_runs_one(replay_runs(runs, a), op);
}

pub proof fn lemma_replay_runs_front(runs: RunsView, op: OperationView, a: Seq<OperationView>)
    ensures
        replay_runs(runs, seq![op] + a) == replay_runs(set_in(runs, op), a),
{
    lemma_replay_runs_concat(runs, seq![op], a);
    lemma_replay_runs_one(runs, op);
}

/// An element that has the key of the element at an index takes its place.
pub proof fn lemma_put_at<E: Keyed>(s: Seq<E>, i: int, e: E)
    requires
        sorted(s),
        0 <= i < s.len(),
        e.key() == s[i].key(),
    ensures
        put(s, e) == s.update(i, e),
{
    lemma_rank_of_element(s, i);
}

/// The positions given are those of runs, each once, in rising order.
pub open spec fn rising_positions_of(runs: RunsView, targets: Seq<Pos>) -> bool {
    &&& forall|a: int, b: int|
        0 <= a < b < targets.len() ==> (#[trigger] targets[a]).precedes(#[trigger] targets[b])
    &&& forall|a: int| 0 <= a < targets.len() ==> value_at(runs, #[trigger] targets[a]) is Some
}

/// The orphans among the first `k` runs are positions of runs among those
/// `k`, in rising order.
pub proof fn lemma_orphans(sheet: SheetView, rect: Rect, k: int)
    requires
        sorted(sheet.code_runs),
        0 <= k <= sheet.code_runs.len(),
    ensures
        rising_positions_of(sheet.code_runs, orphans(sheet, rect, k)),
        forall|a: int|
            0 <= a < orphans(sheet, rect, k).len() ==> exists|i: int|
                0 <= i < k && #[trigger] orphans(sheet, rect, k)[a] == sheet.code_runs[i].0,
    decreases k,
{
    if k > 0 {
        lemma_orphans(sheet, rect, k - 1);
        let prev = orphans(sheet, rect, k - 1);
        let t = orphans(sheet, rect, k);
        let pos = sheet.code_runs[k - 1].0;
        lemma_rank_of_element(sheet.code_runs, k - 1);
        assert forall|a: int| 0 <= a < t.len() implies exists|i: int|
            0 <= i < k && #[trigger] t[a] == sheet.code_runs[i].0 by {
            if a < prev.len() {
                let i = choose|i: int| 0 <= i < k - 1 && prev[a] == sheet.code_runs[i].0;
                assert(0 <= i < k && t[a] == sheet.code_runs[i].0);
            } else {
                assert(0 <= k - 1 < k && t[a] == sheet.code_runs[k - 1].0);
            }
        }
        assert forall|a: int, b: int| 0 <= a < b < t.len() implies (#[trigger] t[a]).precedes(
            #[trigger] t[b],
        ) by {
            if b < prev.len() {
                assert(prev[a].precedes(prev[b]));
            } else {
                let i = choose|i: int| 0 <= i < k - 1 && prev[a] == sheet.code_runs[i].0;
                assert(<(Pos, CodeRunView) as Keyed>::key_lt(
                    sheet.code_runs[i].key(),
                    sheet.code_runs[k - 1].key(),
                ));
            }
        }
        assert forall|a: int| 0 <= a < t.len() implies value_at(sheet.code_runs, #[trigger] t[a])
            is Some by {
            if a < prev.len() {
                assert(t[a] == prev[a]);
            }
        }
    }
}

/// What the runs hold after those at the first `j` targets are removed.
pub proof fn lemma_without_runs(runs: RunsView, targets: Seq<Pos>, j: int)
    requires
        sorted(runs),
        0 <= j <= targets.len(),
    ensures
        sorted(without_runs(runs, targets, j)),
        forall|p: Pos|
            lookup(without_runs(runs, targets, j), p) == if exists|i: int|
                0 <= i < j && targets[i] == p {
                None
            } else {
                lookup(runs, p)
            },
    decreases j,
{
    if j > 0 {
        lemma_without_runs(runs, targets, j - 1);
        let prev = without_runs(runs, targets, j - 1);
        lemma_del(prev, targets[j - 1]);
        let t = without_runs(runs, targets, j);
        assert forall|p: Pos|
            lookup(t, p) == if exists|i: int| 0 <= i < j && targets[i] == p {
                None
            } else {
                lookup(runs, p)
            } by {
            if p == targets[j - 1] {
                assert(0 <= j - 1 < j && targets[j - 1] == p);
            } else {
                if exists|i: int| 0 <= i < j && targets[i] == p {
                    let i = choose|i: int| 0 <= i < j && targets[i] == p;
                    assert(0 <= i < j - 1 && targets[i] == p);
                }
            }
        }
    }
}

/// The first `j` removals that `retire` logs.
pub open spec fn removals(targets: Seq<Pos>, sheet_id: SheetId, j: int) -> Seq<OperationView> {
    Seq::new(j as nat, |i: int| set_run_op(targets[i], sheet_id, None))
}

/// The inverses of the first `j` removals, the latest first.
pub open spec fn restorals(runs: RunsView, targets: Seq<Pos>, sheet_id: SheetId, j: int) -> Seq<
    OperationView,
> {
    Seq::new(
        j as nat,
        |i: int| set_run_op(targets[j - 1 - i], sheet_id, value_at(runs, targets[j - 1 - i])),
    )
}

/// Replaying the removals removes, and replaying their inverses restores.
pub proof fn lemma_removals(runs: RunsView, targets: Seq<Pos>, sheet_id: SheetId, j: int)
    requires
        sorted(runs),
        rising_positions_of(runs, targets),
        0 <= j <= targets.len(),
    ensures
        replay_runs(runs, removals(targets, sheet_id, j)) == without_runs(runs, targets, j),
        replay_runs(without_runs(runs, targets, j), restorals(runs, targets, sheet_id, j)) == runs,
    decreases j,
{
    if j == 0 {
        assert(removals(targets, sheet_id, 0) =~= Seq::<OperationView>::empty());
        assert(restorals(runs, targets, sheet_id, 0) =~= Seq::<OperationView>::empty());
    } else {
        lemma_removals(runs, targets, sheet_id, j - 1);
        let p = targets[j - 1];
        let prev = without_runs(runs, targets, j - 1);
        let now = without_runs(runs, targets, j);
        // forward
        let f0 = removals(targets, sheet_id, j - 1);
        let f1 = removals(targets, sheet_id, j);
        assert(f1 =~= f0.push(set_run_op(p, sheet_id, None)));
        lemma_replay_runs_push(runs, f0, set_run_op(p, sheet_id, None));
        // backward
        let r0 = restorals(runs, targets, sheet_id, j - 1);
        let r1 = restorals(runs, targets, sheet_id, j);
        let back = set_run_op(p, sheet_id, value_at(runs, p));
        assert(r1 =~= seq![back] + r0);
        lemma_replay_runs_front(now, back, r0);
        lemma_without_runs(runs, targets, j - 1);
        // The run at `p` is still there before the `j`-th removal.
        assert(!(exists|i: int| 0 <= i < j - 1 && targets[i] == p)) by {
            if exists|i: int| 0 <= i < j - 1 && targets[i] == p {
                let i = choose|i: int| 0 <= i < j - 1 && targets[i] == p;
                assert(targets[i].precedes(targets[j - 1]));
            }
        }
        assert(lookup(prev, p) == lookup(runs, p));
        assert(value_at(runs, p) is Some);
        lemma_rank(prev, p);
        let i = rank(prev, p);
        assert(prev[i].0 == p);
        lemma_put_after_del(prev, i);
        assert(set_in(now, back) == prev);
    }
}

/// `retire` keeps the runs sorted; replaying what it logs retires, and
/// replaying its inverses brings the retired runs back.
pub proof fn lemma_retire(sheet: SheetView, rect: Rect)
    requires
        sorted(sheet.code_runs),
    ensures
        sorted(retire(sheet, rect).runs),
        sets_runs_of(retire(sheet, rect).forward, sheet.id),
        sets_runs_of(retire(sheet, rect).reverse, sheet.id),
        replay_runs(sheet.code_runs, retire(sheet, rect).forward) == retire(sheet, rect).runs,
        replay_runs(retire(sheet, rect).runs, retire(sheet, rect).reverse) == sheet.code_runs,
{
    let n = sheet.code_runs.len() as int;
    let targets = orphans(sheet, rect, n);
    lemma_orphans(sheet, rect, n);
    lemma_without_runs(sheet.code_runs, targets, targets.len() as int);
    lemma_removals(sheet.code_runs, targets, sheet.id, targets.len() as int);
    assert(retire(sheet, rect).forward =~= removals(targets, sheet.id, targets.len() as int));
    assert(retire(sheet, rect).reverse =~= restorals(
        sheet.code_runs,
        targets,
        sheet.id,
        targets.len() as int,
    ));
}

/// Setting spill flags anew keeps the runs at their positions.
pub proof fn lemma_spill_runs(cells: CellsView, runs: RunsView, k: int)
    requires
        sorted(runs),
        0 <= k <= runs.len(),
    ensures
        sorted(spill_runs(cells, runs, k)),
        spill_runs(cells, runs, k).len() == runs.len(),
        forall|i: int|
            0 <= i < runs.len() ==> (#[trigger] spill_runs(cells, runs, k)[i]).0 == runs[i].0,
{
    let t = spill_runs(cells, runs, k);
    assert forall|a: int, b: int|
        0 <= a < b < t.len() implies <(Pos, CodeRunView) as Keyed>::key_lt(
        #[trigger] t[a].key(),
        #[trigger] t[b].key(),
    ) by {
        assert(t[a].0 == runs[a].0 && t[b].0 == runs[b].0);
        assert(<(Pos, CodeRunView) as Keyed>::key_lt(runs[a].key(), runs[b].key()));
    }
}

/// Replaying what `respill` logs for the first `k` runs sets their flags,
/// and replaying the inverses sets them back.
pub proof fn lemma_spill_logs(cells: CellsView, runs: RunsView, sheet_id: SheetId, k: int)
    requires
        sorted(runs),
        0 <= k <= runs.len(),
    ensures
        sets_runs_of(spill_forward(cells, runs, sheet_id, k), sheet_id),
        sets_runs_of(spill_reverse(cells, runs, sheet_id, k), sheet_id),
        replay_runs(runs, spill_forward(cells, runs, sheet_id, k)) == spill_runs(cells, runs, k),
        replay_runs(spill_runs(cells, runs, k), spill_reverse(cells, runs, sheet_id, k)) == runs,
    decreases k,
{
    if k == 0 {
        assert(spill_runs(cells, runs, 0) =~= runs);
    } else {
        lemma_spill_logs(cells, runs, sheet_id, k - 1);
        lemma_spill_runs(cells, runs, k - 1);
        lemma_spill_runs(cells, runs, k);
        let prev = spill_runs(cells, runs, k - 1);
        let now = spill_runs(cells, runs, k);
        let new = respilled(cells, runs, k - 1);
        if new.1.spill_error != runs[k - 1].1.spill_error {
            let f0 = spill_forward(cells, runs, sheet_id, k - 1);
            let set = set_run_op(runs[k - 1].0, sheet_id, Some(new.1));
            lemma_replay_runs_push(runs, f0, set);
            lemma_put_at(prev, k - 1, new);
            assert(prev.update(k - 1, new) =~= now);
            let r0 = spill_reverse(cells, runs, sheet_id, k - 1);
            let back = set_run_op(runs[k - 1].0, sheet_id, Some(runs[k - 1].1));
            lemma_replay_runs_front(now, back, r0);
            lemma_put_at(now, k - 1, runs[k - 1]);
            assert(now.update(k - 1, runs[k - 1]) =~= prev);
        } else {
            assert(new == runs[k - 1]);
            assert(now =~= prev);
        }
    }
}

/// `respill` keeps the runs sorted; replaying what it logs sets the flags,
/// and replaying its inverses sets them back.
pub proof fn lemma_respill(sheet: SheetView)
    requires
        sorted(sheet.code_runs),
    ensures
        sorted(respill(sheet).runs),
        sets_runs_of(respill(sheet).forward, sheet.id),
        sets_runs_of(respill(sheet).reverse, sheet.id),
        replay_runs(sheet.code_runs, respill(sheet).forward) == respill(sheet).runs,
        replay_runs(respill(sheet).runs, respill(sheet).reverse) == sheet.code_runs,
{
    let n = sheet.code_runs.len() as int;
    lemma_spill_runs(sheet.cells, sheet.code_runs, n);
    lemma_spill_logs(sheet.cells, sheet.code_runs, sheet.id, n);
}

/// Setting a run and then setting the run that was there before changes
/// nothing.
pub proof fn lemma_set_run_back(runs: RunsView, pos: Pos, run: Option<CodeRunView>)
    requires
        sorted(runs),
    ensures
        ({
            let set = match run {
                Some(r) => put(runs, (pos, r)),
                None => del(runs, pos),
            };
            let back = match value_at(runs, pos) {
                Some(r) => put(set, (pos, r)),
                None => del(set, pos),
            };
            sorted(set) && back == runs
        }),
{
    lemma_rank(runs, pos);
    lemma_rank_sorted(runs, pos);
    let i = rank(runs, pos);
    match run {
        Some(r) => {
            lemma_put(runs, (pos, r));
            if contains_key(runs, pos) {
                lemma_put_after_put(runs, i, (pos, r));
            } else {
                lemma_del_after_put(runs, (pos, r));
            }
        },
        None => {
            lemma_del(runs, pos);
            if contains_key(runs, pos) {
                lemma_put_after_del(runs, i);
            } else {
                lemma_del(del(runs, pos), pos);
            }
        },
    }
}

} // verus!
