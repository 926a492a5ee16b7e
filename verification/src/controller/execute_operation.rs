//! The execution loop: one operation is taken off the queue of a transaction
//! and applied, and the host is told how many are left.

use crate::controller::{
    following, logged, next_after, performed, same_history, same_stacks, GridController,
};
use crate::grid::{has_sheet, unused_id, GridView};
use crate::model::{step, told};
use crate::operation::Operation;
use crate::pos::SheetId;
use crate::transaction::{
    Notification, NotificationView, PendingTransaction, TransactionSource, TransactionView,
};
use vstd::prelude::*;

verus! {

/// The state that the execution loop works on.
pub struct State {
    pub grid: GridView,
    pub notifications: Seq<NotificationView>,
    pub transaction: TransactionView,
    /// Where the search for the identity of a new sheet starts.
    pub next_sheet_id: u64,
}

impl State {
    /// The spare identity: the first from `next_sheet_id` on that no sheet
    /// of the grid has.
    pub open spec fn spare(self) -> SheetId {
        unused_id(self.grid, self.next_sheet_id)
    }
}

/// Where the search for a new identity starts after an operation: behind the
/// spare identity where a sheet has got it, and where it started before
/// elsewhere.
pub open spec fn search_from(after: GridView, spare: SheetId, next_sheet_id: u64) -> u64 {
    if has_sheet(after, spare) {
        following(spare.id)
    } else {
        next_sheet_id
    }
}

/// What the host is told after an operation of the transaction was applied.
pub open spec fn progress(t: TransactionView) -> NotificationView {
    NotificationView::TransactionProgress {
        transaction_id: t.id,
        operations_remaining: t.operations.len() as usize,
    }
}

/// The state after the next queued operation is applied; the same state if
/// nothing is queued.
pub open spec fn advance(s: State) -> State {
    if s.transaction.operations.len() == 0 {
        s
    } else {
        let op = s.transaction.operations[0];
        let popped = TransactionView { operations: s.transaction.operations.skip(1), ..s.transaction };
        let e = step(s.grid, op, s.transaction.source, s.transaction.id, s.spare());
        let t = logged(popped, e);
        State {
            grid: e.grid,
            notifications: s.notifications + e.notifications + told(t.source, seq![progress(t)]),
            transaction: t,
            next_sheet_id: search_from(e.grid, s.spare(), s.next_sheet_id),
        }
    }
}

/// The state after up to `steps` queued operations are applied.
pub open spec fn drain(s: State, steps: nat) -> State
    decreases steps,
{
    if steps == 0 || s.transaction.operations.len() == 0 {
        s
    } else {
        drain(advance(s), (steps - 1) as nat)
    }
}

impl GridController {
    /// The state of the controller together with a transaction.
    pub open spec fn state(&self, transaction: TransactionView) -> State {
        State {
            grid: self.grid@,
            notifications: self.notifications.deep_view(),
            transaction,
            next_sheet_id: self.next_sheet_id,
        }
    }

    /// Takes the next operation off the queue of the transaction and applies
    /// it. Unless the transaction came from the server, the host is told how
    /// many operations are left. Gives the number of operations left.
    pub fn execute_operation(&mut self, transaction: &mut PendingTransaction) -> (remaining: usize)
        ensures
            final(self).state(final(transaction)@) == advance(old(self).state(old(transaction)@)),
            same_stacks(old(self), final(self)),
            remaining == final(transaction)@.operations.len(),
    {
        let ghost s0 = self.state(transaction@);
        match transaction.next_operation() {
            Some(op) => {
                let ghost popped = transaction@;
                let spare = self.grid.unused_id(self.next_sheet_id);
                let ghost e = step(s0.grid, op@, transaction.source, transaction.id, spare);
                match op {
                    Operation::SetCellValues { .. } => self.execute_set_cell_values(transaction, op),
                    Operation::SetCodeRun { .. } => self.execute_set_code_run(transaction, op),
                    Operation::ComputeCode { .. } => self.execute_compute_code(transaction, op),
                    Operation::AddSheet { .. } => self.execute_add_sheet(transaction, op),
                    Operation::AddSheetSchema { .. } => self.execute_add_sheet_schema(
                        transaction,
                        op,
                    ),
                    Operation::DeleteSheet { .. } => self.execute_delete_sheet(transaction, op),
                    Operation::ReorderSheet { .. } => self.execute_reorder_sheet(transaction, op),
                    Operation::SetSheetName { .. } => self.execute_set_sheet_name(transaction, op),
                    Operation::SetSheetColor { .. } => self.execute_set_sheet_color(
                        transaction,
                        op,
                    ),
                    Operation::DuplicateSheet { .. } => self.execute_duplicate_sheet(
                        transaction,
                        op,
                    ),
                    Operation::SetCellFormatsSelection {
                        ..
                    } => self.execute_set_cell_formats_selection(transaction, op),
                }
                assert(transaction@ == logged(popped, e));
                if self.grid.try_sheet(spare).is_some() {
                    self.next_sheet_id = next_after(spare.id);
                }
                let remaining = transaction.operations.len();
                self.tell(
                    transaction,
                    Notification::TransactionProgress {
                        transaction_id: transaction.id,
                        operations_remaining: remaining,
                    },
                );
                assert(self.state(transaction@).notifications =~= advance(s0).notifications);
                remaining
            },
            None => 0,
        }
    }

    /// Applies queued operations of the transaction until none is left, but
    /// no more than `steps` of them. Tells whether none is left.
    pub fn run(&mut self, transaction: &mut PendingTransaction, steps: usize) -> (complete: bool)
        ensures
            final(self).state(final(transaction)@) == drain(
                old(self).state(old(transaction)@),
                steps as nat,
            ),
            same_stacks(old(self), final(self)),
            complete == (final(transaction)@.operations.len() == 0),
    {
        let ghost s0 = self.state(transaction@);
        let mut left: usize = steps;
        while left > 0 && !transaction.is_complete()
            invariant
                same_stacks(old(self), self),
                drain(s0, steps as nat) == drain(self.state(transaction@), left as nat),
            decreases left,
        {
            self.execute_operation(transaction);
            left = left - 1;
        }
        transaction.is_complete()
    }
}

} // verus!
