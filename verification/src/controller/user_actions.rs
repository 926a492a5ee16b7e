//! What a user does: each action is one transaction, applied in full and
//! kept for undo. Undo and redo replay the logs of a kept transaction.

use crate::controller::execute_operation::{drain, State};
use crate::controller::{
    following, next_after, ControllerView, GridController, ReplayView, Transaction, UnsavedTransaction,
    UnsavedTransactionView,
};
use crate::grid::{end_order, has_sheet, names, previous_order, sheet_of, unused_id, GridView};
use crate::names::{spec_unused_name, unused_name};
use crate::operation::{clone_operations, Operation, OperationView};
use crate::order::{key_between, spec_key_between};
use crate::pos::{SheetId, SheetPos};
use crate::sheet::{clone_option_string, Sheet, SheetView};
use crate::transaction::{
    Notification, NotificationView, PendingTransaction, TransactionSource, TransactionView,
};
use crate::values::{
    spec_value_of_text, value_of_text, CellValue, CellValueView, CellValues, CellValuesView,
    CodeCellLanguage, CodeCellValue, CodeCellValueView,
};
use vstd::prelude::*;

verus! {

/// The most operations that one transaction applies. What is still queued
/// then is abandoned, which the host is told.
///
/// A recomputation queues the recomputation of every code cell that read
/// what it changed. Code cells that read each other's output would queue
/// each other without end, so the number of operations of one transaction
/// has to have a bound; this one is far above what an edit of a sheet
/// queues.
pub const MAX_STEPS: usize = 1000000;

/// A transaction that has the given operations to apply.
pub open spec fn started(
    id: u64,
    source: TransactionSource,
    operations: Seq<OperationView>,
    cursor: Option<Seq<char>>,
) -> TransactionView {
    TransactionView {
        id,
        source,
        operations,
        forward_operations: Seq::empty(),
        reverse_operations: Seq::empty(),
        generate_thumbnail: false,
        dirty_rects: Seq::empty(),
        cursor,
    }
}

/// The logs of a transaction, as kept for undo and redo: each with the
/// identity and the cursor of the transaction.
pub open spec fn kept(t: TransactionView) -> UnsavedTransactionView {
    UnsavedTransactionView {
        forward: ReplayView { id: t.id, cursor: t.cursor, operations: t.forward_operations },
        reverse: ReplayView { id: t.id, cursor: t.cursor, operations: t.reverse_operations },
    }
}

/// The logs of a transaction, as kept until the server confirms it: each
/// with the identity of the transaction, and without a cursor.
pub open spec fn unconfirmed(t: TransactionView) -> UnsavedTransactionView {
    UnsavedTransactionView {
        forward: ReplayView { id: t.id, cursor: None, operations: t.forward_operations },
        reverse: ReplayView { id: t.id, cursor: None, operations: t.reverse_operations },
    }
}

/// The state in which a controller starts a transaction.
pub open spec fn entering(
    c: ControllerView,
    source: TransactionSource,
    operations: Seq<OperationView>,
    cursor: Option<Seq<char>>,
) -> State {
    State {
        grid: c.grid,
        notifications: c.notifications,
        transaction: started(c.next_transaction_id, source, operations, cursor),
        next_sheet_id: c.next_sheet_id,
    }
}

/// What the host has been told when a transaction ends: all that its
/// operations told, and where operations are left in the queue, that the
/// transaction was cut short and how many were abandoned.
pub open spec fn closing(s: State) -> Seq<NotificationView> {
    if s.transaction.operations.len() == 0 {
        s.notifications
    } else {
        s.notifications.push(
            NotificationView::TransactionCut {
                transaction_id: s.transaction.id,
                operations_abandoned: s.transaction.operations.len() as usize,
            },
        )
    }
}

/// The controller after a user transaction with the given operations: they
/// are applied, with all that they queue; if anything was applied, the logs
/// are kept for undo, and what could be redone is forgotten.
pub open spec fn transacted(
    c: ControllerView,
    operations: Seq<OperationView>,
    cursor: Option<Seq<char>>,
) -> ControllerView {
    let s = drain(entering(c, TransactionSource::User, operations, cursor), MAX_STEPS as nat);
    if s.transaction.forward_operations.len() == 0 {
        ControllerView {
            grid: s.grid,
            notifications: closing(s),
            next_transaction_id: following(c.next_transaction_id),
            next_sheet_id: s.next_sheet_id,
            ..c
        }
    } else {
        ControllerView {
            grid: s.grid,
            notifications: closing(s),
            undo_stack: c.undo_stack.push(kept(s.transaction)),
            redo_stack: Seq::empty(),
            unsaved_transactions: c.unsaved_transactions.push(unconfirmed(s.transaction)),
            next_transaction_id: following(c.next_transaction_id),
            next_sheet_id: s.next_sheet_id,
        }
    }
}

/// The controller after the latest kept transaction is undone: its inverses
/// are replayed as a transaction with the given cursor, and it can be redone
/// from then on.
pub open spec fn undone(c: ControllerView, cursor: Option<Seq<char>>) -> ControllerView {
    if c.undo_stack.len() == 0 {
        c
    } else {
        let s = drain(
            entering(c, TransactionSource::Undo, c.undo_stack.last().reverse.operations, cursor),
            MAX_STEPS as nat,
        );
        ControllerView {
            grid: s.grid,
            notifications: closing(s),
            undo_stack: c.undo_stack.drop_last(),
            redo_stack: c.redo_stack.push(c.undo_stack.last()),
            next_transaction_id: following(c.next_transaction_id),
            next_sheet_id: s.next_sheet_id,
            ..c
        }
    }
}

/// The controller after the latest undone transaction is redone: its
/// operations are replayed as they were applied, and it can be undone again.
pub open spec fn redone(c: ControllerView, cursor: Option<Seq<char>>) -> ControllerView {
    if c.redo_stack.len() == 0 {
        c
    } else {
        let s = drain(
            entering(c, TransactionSource::Redo, c.redo_stack.last().forward.operations, cursor),
            MAX_STEPS as nat,
        );
        ControllerView {
            grid: s.grid,
            notifications: closing(s),
            undo_stack: c.undo_stack.push(c.redo_stack.last()),
            redo_stack: c.redo_stack.drop_last(),
            next_transaction_id: following(c.next_transaction_id),
            next_sheet_id: s.next_sheet_id,
            ..c
        }
    }
}

/// The controller after a transaction from the server: its operations are
/// applied, and nothing is kept.
pub open spec fn received(c: ControllerView, operations: Seq<OperationView>) -> ControllerView {
    let s = drain(entering(c, TransactionSource::Server, operations, None), MAX_STEPS as nat);
    ControllerView {
        grid: s.grid,
        notifications: closing(s),
        next_transaction_id: following(c.next_transaction_id),
        next_sheet_id: s.next_sheet_id,
        ..c
    }
}

/// The sheet that `add_sheet` adds: it has an identity and a name that no
/// sheet has, and stands behind the last sheet.
pub open spec fn new_sheet(c: ControllerView) -> SheetView {
    SheetView::empty(
        unused_id(c.grid, c.next_sheet_id),
        spec_unused_name("Sheet"@, names(c.grid)),
        end_order(c.grid),
    )
}

/// The controller with the search for new identities moved behind `id`.
pub open spec fn having_used(c: ControllerView, id: SheetId) -> ControllerView {
    ControllerView { next_sheet_id: following(id.id), ..c }
}

/// The order key that moves a sheet in front of the sheet `to_before`, or
/// behind the last sheet where that sheet is not given or not there.
pub open spec fn order_before(g: GridView, to_before: Option<SheetId>) -> Option<Seq<char>> {
    match to_before {
        Some(id) => if has_sheet(g, id) {
            spec_key_between(previous_order(g, id), Some(sheet_of(g, id).order))
        } else {
            Some(end_order(g))
        },
        None => Some(end_order(g)),
    }
}

fn single_operation(op: Operation) -> (r: Vec<Operation>)
    ensures
        r.deep_view() == seq![op@],
{
    let mut r: Vec<Operation> = Vec::new();
    r.push(op);
    assert(r.deep_view() =~= seq![op@]);
    r
}

impl GridController {
    /// A controller of a grid with one empty sheet, `Sheet 1`.
    pub fn test() -> (r: GridController)
        ensures
            r@ == (ControllerView {
                grid: seq![SheetView::empty(SheetId { id: 0 }, "Sheet 1"@, end_order(Seq::empty()))],
                notifications: Seq::empty(),
                undo_stack: Seq::empty(),
                redo_stack: Seq::empty(),
                unsaved_transactions: Seq::empty(),
                next_transaction_id: 0,
                next_sheet_id: 1,
            }),
    {
        let mut r = GridController::new();
        let order = r.grid.end_order();
        let sheet = Sheet::new(SheetId { id: 0 }, String::from_str("Sheet 1"), order);
        sheet.note_wf();
        proof {
            crate::grid::lemma_with_sheet(Seq::empty(), sheet@);
            crate::grid::lemma_position(Seq::empty(), sheet@.id);
            crate::sorted::lemma_rank::<SheetView>(Seq::empty(), crate::sorted::Keyed::key(sheet@));
        }
        r.grid.add_sheet(sheet);
        r.next_sheet_id = 1;
        assert(r.grid@ =~= seq![sheet@]);
        r
    }

    /// The identities of the sheets, in tab order.
    pub fn sheet_ids(&self) -> (r: Vec<SheetId>)
        ensures
            r@ == Seq::new(self.grid@.len(), |i: int| self.grid@[i].id),
    {
        self.grid.sheet_ids()
    }

    /// The sheet with identity `id`.
    pub fn try_sheet(&self, id: SheetId) -> (r: Option<&Sheet>)
        ensures
            r.is_some() == has_sheet(self.grid@, id),
            r matches Some(s) ==> s@ == sheet_of(self.grid@, id),
    {
        self.grid.try_sheet(id)
    }

    /// The sheet with identity `id`, which the grid must have.
    pub fn sheet(&self, id: SheetId) -> (r: &Sheet)
        requires
            has_sheet(self.grid@, id),
        ensures
            r@ == sheet_of(self.grid@, id),
    {
        self.grid.try_sheet(id).unwrap()
    }

    /// The transactions made here that the server has not yet confirmed.
    pub fn active_transactions(&self) -> (r: &crate::controller::ActiveTransactions)
        ensures
            r.unsaved_transactions.deep_view() == self@.unsaved_transactions,
    {
        &self.transactions
    }

    /// Applies the operations as one transaction of the given source, and
    /// gives back the transaction as it is then.
    fn apply(&mut self, source: TransactionSource, operations: Vec<Operation>, cursor: Option<
        String,
    >) -> (r: PendingTransaction)
        ensures
            ({
                let s = drain(
                    entering(old(self)@, source, operations.deep_view(), cursor.deep_view()),
                    MAX_STEPS as nat,
                );
                &&& final(self)@.grid == s.grid
                &&& final(self)@.notifications == closing(s)
                &&& final(self)@.next_sheet_id == s.next_sheet_id
                &&& r@ == s.transaction
            }),
            final(self)@ == (ControllerView {
                grid: final(self)@.grid,
                notifications: final(self)@.notifications,
                next_transaction_id: following(old(self)@.next_transaction_id),
                next_sheet_id: final(self)@.next_sheet_id,
                ..old(self)@
            }),
    {
        let mut transaction = PendingTransaction::new(
            self.next_transaction_id,
            source,
            operations,
            cursor,
        );
        self.next_transaction_id = next_after(self.next_transaction_id);
        let complete = self.run(&mut transaction, MAX_STEPS);
        if !complete {
            self.tell_always(
                Notification::TransactionCut {
                    transaction_id: transaction.id,
                    operations_abandoned: transaction.operations.len(),
                },
            );
        }
        transaction
    }

    /// Applies the operations as a transaction of the user, and keeps its
    /// logs for undo if anything was applied.
    pub fn start_user_transaction(&mut self, operations: Vec<Operation>, cursor: Option<String>)
        ensures
            final(self)@ == transacted(old(self)@, operations.deep_view(), cursor.deep_view()),
    {
        let transaction = self.apply(TransactionSource::User, operations, cursor);
        if transaction.forward_operations.len() > 0 {
            let id = transaction.id;
            let cursor_copy = clone_option_string(&transaction.cursor);
            let cursor_again = clone_option_string(&transaction.cursor);
            let done = UnsavedTransaction {
                forward: Transaction {
                    id,
                    cursor: cursor_copy,
                    operations: clone_operations(&transaction.forward_operations),
                },
                reverse: Transaction {
                    id,
                    cursor: cursor_again,
                    operations: clone_operations(&transaction.reverse_operations),
                },
            };
            let unsaved = UnsavedTransaction {
                forward: Transaction {
                    id,
                    cursor: None,
                    operations: transaction.forward_operations,
                },
                reverse: Transaction {
                    id,
                    cursor: None,
                    operations: transaction.reverse_operations,
                },
            };
            let ghost u0 = self.undo_stack.deep_view();
            let ghost a0 = self.transactions.unsaved_transactions.deep_view();
            self.undo_stack.push(done);
            self.redo_stack = Vec::new();
            self.transactions.unsaved_transactions.push(unsaved);
            assert(self.undo_stack.deep_view() =~= u0.push(kept(transaction@)));
            assert(self.redo_stack.deep_view() =~= Seq::empty());
            assert(self.transactions.unsaved_transactions.deep_view() =~= a0.push(
                unconfirmed(transaction@),
            ));
        }
    }

    /// Applies the operations of a transaction that came from the server.
    pub fn received_transaction(&mut self, operations: Vec<Operation>)
        ensures
            final(self)@ == received(old(self)@, operations.deep_view()),
    {
        let _ = self.apply(TransactionSource::Server, operations, None);
    }

    /// Undoes the latest kept transaction, if there is one.
    pub fn undo(&mut self, cursor: Option<String>)
        ensures
            final(self)@ == undone(old(self)@, cursor.deep_view()),
    {
        let ghost u0 = self.undo_stack.deep_view();
        let ghost r0 = self.redo_stack.deep_view();
        match self.undo_stack.pop() {
            Some(entry) => {
                assert(self.undo_stack.deep_view() =~= u0.drop_last());
                assert(entry@ == u0.last());
                let operations = clone_operations(&entry.reverse.operations);
                let _ = self.apply(TransactionSource::Undo, operations, cursor);
                self.redo_stack.push(entry);
                assert(self.redo_stack.deep_view() =~= r0.push(entry@));
            },
            None => {
                assert(self.undo_stack.deep_view() =~= u0);
            },
        }
    }

    /// Redoes the latest undone transaction, if there is one.
    pub fn redo(&mut self, cursor: Option<String>)
        ensures
            final(self)@ == redone(old(self)@, cursor.deep_view()),
    {
        let ghost u0 = self.undo_stack.deep_view();
        let ghost r0 = self.redo_stack.deep_view();
        match self.redo_stack.pop() {
            Some(entry) => {
                assert(self.redo_stack.deep_view() =~= r0.drop_last());
                assert(entry@ == r0.last());
                let operations = clone_operations(&entry.forward.operations);
                let _ = self.apply(TransactionSource::Redo, operations, cursor);
                self.undo_stack.push(entry);
                assert(self.undo_stack.deep_view() =~= u0.push(entry@));
            },
            None => {
                assert(self.redo_stack.deep_view() =~= r0);
            },
        }
    }

    /// Writes what the user typed into a cell.
    pub fn set_cell_value(&mut self, sheet_pos: SheetPos, value: String, cursor: Option<String>)
        ensures
            final(self)@ == transacted(
                old(self)@,
                seq![
                    OperationView::SetCellValues {
                        sheet_pos,
                        values: CellValuesView {
                            w: 1,
                            h: 1,
                            values: seq![spec_value_of_text(value@)],
                        },
                    },
                ],
                cursor.deep_view(),
            ),
    {
        let values = CellValues::single(value_of_text(value));
        self.start_user_transaction(
            single_operation(Operation::SetCellValues { sheet_pos, values }),
            cursor,
        );
    }

    /// Makes a cell a code cell with the given code, and runs it.
    pub fn set_code_cell(
        &mut self,
        sheet_pos: SheetPos,
        language: CodeCellLanguage,
        code: String,
        cursor: Option<String>,
    )
        ensures
            final(self)@ == transacted(
                old(self)@,
                seq![
                    OperationView::SetCellValues {
                        sheet_pos,
                        values: CellValuesView {
                            w: 1,
                            h: 1,
                            values: seq![
                                CellValueView::Code(CodeCellValueView { language, code: code@ }),
                            ],
                        },
                    },
                    OperationView::ComputeCode { sheet_pos },
                ],
                cursor.deep_view(),
            ),
    {
        let values = CellValues::single(CellValue::Code(CodeCellValue { language, code }));
        let mut operations = single_operation(Operation::SetCellValues { sheet_pos, values });
        let ghost first = operations.deep_view();
        operations.push(Operation::ComputeCode { sheet_pos });
        assert(operations.deep_view() =~= first.push(OperationView::ComputeCode { sheet_pos }));
        assert(operations.deep_view() =~= seq![
            OperationView::SetCellValues {
                sheet_pos,
                values: CellValuesView {
                    w: 1,
                    h: 1,
                    values: seq![CellValueView::Code(CodeCellValueView { language, code: code@ })],
                },
            },
            OperationView::ComputeCode { sheet_pos },
        ]);
        self.start_user_transaction(operations, cursor);
    }

    /// Adds an empty sheet behind the last one.
    pub fn add_sheet(&mut self, cursor: Option<String>)
        ensures
            final(self)@ == transacted(
                having_used(old(self)@, new_sheet(old(self)@).id),
                seq![OperationView::AddSheet { sheet: new_sheet(old(self)@) }],
                cursor.deep_view(),
            ),
    {
        let id = self.grid.unused_id(self.next_sheet_id);
        let name = unused_name("Sheet", &self.sheet_names());
        let sheet = Sheet::new(id, name, self.grid.end_order());
        self.next_sheet_id = next_after(id.id);
        self.start_user_transaction(single_operation(Operation::AddSheet { sheet }), cursor);
    }

    /// Deletes a sheet.
    pub fn delete_sheet(&mut self, sheet_id: SheetId, cursor: Option<String>)
        ensures
            final(self)@ == transacted(
                old(self)@,
                seq![OperationView::DeleteSheet { sheet_id }],
                cursor.deep_view(),
            ),
    {
        self.start_user_transaction(single_operation(Operation::DeleteSheet { sheet_id }), cursor);
    }

    /// Renames a sheet.
    pub fn set_sheet_name(&mut self, sheet_id: SheetId, name: String, cursor: Option<String>)
        ensures
            final(self)@ == transacted(
                old(self)@,
                seq![OperationView::SetSheetName { sheet_id, name: name@ }],
                cursor.deep_view(),
            ),
    {
        self.start_user_transaction(
            single_operation(Operation::SetSheetName { sheet_id, name }),
            cursor,
        );
    }

    /// Recolors a sheet.
    pub fn set_sheet_color(&mut self, sheet_id: SheetId, color: Option<String>, cursor: Option<
        String,
    >)
        ensures
            final(self)@ == transacted(
                old(self)@,
                seq![OperationView::SetSheetColor { sheet_id, color: color.deep_view() }],
                cursor.deep_view(),
            ),
    {
        self.start_user_transaction(
            single_operation(Operation::SetSheetColor { sheet_id, color }),
            cursor,
        );
    }

    /// Moves a sheet in front of the sheet `to_before`, or behind the last
    /// sheet where that sheet is not given or not there. Nothing is done
    /// where no order key is given for the place.
    pub fn move_sheet(&mut self, sheet_id: SheetId, to_before: Option<SheetId>, cursor: Option<
        String,
    >)
        ensures
            final(self)@ == (match order_before(old(self)@.grid, to_before) {
                Some(order) => transacted(
                    old(self)@,
                    seq![OperationView::ReorderSheet { target: sheet_id, order }],
                    cursor.deep_view(),
                ),
                None => old(self)@,
            }),
    {
        let order = match to_before {
            Some(id) => match self.grid.try_sheet(id) {
                Some(after_sheet) => {
                    let before = self.grid.previous_sheet_order(id);
                    key_between(&before, &Some(after_sheet.order().clone()))
                },
                None => Some(self.grid.end_order()),
            },
            None => Some(self.grid.end_order()),
        };
        match order {
            Some(order) => {
                self.start_user_transaction(
                    single_operation(Operation::ReorderSheet { target: sheet_id, order }),
                    cursor,
                );
            },
            None => {},
        }
    }

    /// Copies a sheet; the copy stands right behind it.
    pub fn duplicate_sheet(&mut self, sheet_id: SheetId, cursor: Option<String>)
        ensures
            final(self)@ == transacted(
                having_used(old(self)@, unused_id(old(self)@.grid, old(self)@.next_sheet_id)),
                seq![
                    OperationView::DuplicateSheet {
                        sheet_id,
                        new_sheet_id: unused_id(old(self)@.grid, old(self)@.next_sheet_id),
                    },
                ],
                cursor.deep_view(),
            ),
    {
        let new_sheet_id = self.grid.unused_id(self.next_sheet_id);
        self.next_sheet_id = next_after(new_sheet_id.id);
        self.start_user_transaction(
            single_operation(Operation::DuplicateSheet { sheet_id, new_sheet_id }),
            cursor,
        );
    }
}

} // verus!
