//! The controller: the owner of the grid, which applies operations to it one
//! at a time and keeps what is needed to undo and redo finished transactions.

use crate::grid::{Grid, GridView};
use crate::model::{told, Effect};
use crate::operation::{Operation, OperationView};
use crate::pos::SheetId;
use crate::transaction::{
    Notification, NotificationView, PendingTransaction, TransactionSource, TransactionView,
};
use vstd::prelude::*;

pub mod cells;
pub mod coordinator;
pub mod execute_code;
pub mod execute_formats;
pub mod execute_operation;
pub mod execute_sheets;
pub mod execute_values;
pub mod formatting;
pub mod user_actions;

verus! {

/// The operations of a finished transaction, to replay.
#[derive(Debug, PartialEq)]
pub struct Transaction {
    pub id: u64,
    pub cursor: Option<String>,
    pub operations: Vec<Operation>,
}

/// A finished transaction: what it applied, and the inverses that undo it.
#[derive(Debug, PartialEq)]
pub struct UnsavedTransaction {
    pub forward: Transaction,
    pub reverse: Transaction,
}

/// The content of a [`Transaction`].
pub struct ReplayView {
    pub id: u64,
    pub cursor: Option<Seq<char>>,
    pub operations: Seq<OperationView>,
}

impl View for Transaction {
    type V = ReplayView;

    open spec fn view(&self) -> ReplayView {
        ReplayView {
            id: self.id,
            cursor: self.cursor.deep_view(),
            operations: self.operations.deep_view(),
        }
    }
}

/// The content of an [`UnsavedTransaction`].
pub struct UnsavedTransactionView {
    pub forward: ReplayView,
    pub reverse: ReplayView,
}

impl View for UnsavedTransaction {
    type V = UnsavedTransactionView;

    open spec fn view(&self) -> UnsavedTransactionView {
        UnsavedTransactionView { forward: self.forward@, reverse: self.reverse@ }
    }
}

impl DeepView for UnsavedTransaction {
    type V = UnsavedTransactionView;

    open spec fn deep_view(&self) -> UnsavedTransactionView {
        self@
    }
}

/// The transactions made here that the server has not yet confirmed.
#[derive(Debug, PartialEq)]
pub struct ActiveTransactions {
    pub unsaved_transactions: Vec<UnsavedTransaction>,
}

/// The grid and its history.
#[derive(Debug, PartialEq)]
pub struct GridController {
    pub grid: Grid,
    /// What the host has not yet been told.
    pub notifications: Vec<Notification>,
    /// The finished transactions that can be undone, the latest last.
    pub undo_stack: Vec<UnsavedTransaction>,
    /// The undone transactions that can be redone, the latest last.
    pub redo_stack: Vec<UnsavedTransaction>,
    pub transactions: ActiveTransactions,
    /// The identity of the next transaction started here.
    pub next_transaction_id: u64,
    /// Where the search for the identity of a new sheet starts.
    pub next_sheet_id: u64,
}

pub struct ControllerView {
    pub grid: GridView,
    pub notifications: Seq<NotificationView>,
    pub undo_stack: Seq<UnsavedTransactionView>,
    pub redo_stack: Seq<UnsavedTransactionView>,
    pub unsaved_transactions: Seq<UnsavedTransactionView>,
    pub next_transaction_id: u64,
    pub next_sheet_id: u64,
}

impl View for GridController {
    type V = ControllerView;

    open spec fn view(&self) -> ControllerView {
        ControllerView {
            grid: self.grid@,
            notifications: self.notifications.deep_view(),
            undo_stack: self.undo_stack.deep_view(),
            redo_stack: self.redo_stack.deep_view(),
            unsaved_transactions: self.transactions.unsaved_transactions.deep_view(),
            next_transaction_id: self.next_transaction_id,
            next_sheet_id: self.next_sheet_id,
        }
    }
}

/// The number after `id`; after the largest number, 0.
pub open spec fn following(id: u64) -> u64 {
    if id == u64::MAX {
        0
    } else {
        (id + 1) as u64
    }
}

pub fn next_after(id: u64) -> (r: u64)
    ensures
        r == following(id),
{
    if id == u64::MAX {
        0
    } else {
        id + 1
    }
}

/// The kept transactions and the identity of the next transaction are the
/// same.
pub open spec fn same_stacks(c0: &GridController, c1: &GridController) -> bool {
    &&& c1.undo_stack.deep_view() == c0.undo_stack.deep_view()
    &&& c1.redo_stack.deep_view() == c0.redo_stack.deep_view()
    &&& c1.transactions.unsaved_transactions.deep_view()
        == c0.transactions.unsaved_transactions.deep_view()
    &&& c1.next_transaction_id == c0.next_transaction_id
}

/// Nothing but the grid and what the host is to be told differs.
pub open spec fn same_history(c0: &GridController, c1: &GridController) -> bool {
    &&& same_stacks(c0, c1)
    &&& c1.next_sheet_id == c0.next_sheet_id
}

/// The transaction after an effect is logged in it.
pub open spec fn logged(t: TransactionView, e: Effect) -> TransactionView {
    TransactionView {
        operations: t.operations + e.queued,
        forward_operations: t.forward_operations + e.forward,
        reverse_operations: e.reverse + t.reverse_operations,
        generate_thumbnail: t.generate_thumbnail || e.thumbnail,
        dirty_rects: t.dirty_rects + e.dirty,
        ..t
    }
}

/// A transaction whose queue and logs have grown by what an effect holds is
/// the transaction after the effect is logged in it.
pub proof fn lemma_logged(t0: TransactionView, t1: TransactionView, e: Effect)
    requires
        t1.operations =~= t0.operations + e.queued,
        t1.forward_operations =~= t0.forward_operations + e.forward,
        t1.reverse_operations =~= e.reverse + t0.reverse_operations,
        t1.dirty_rects =~= t0.dirty_rects + e.dirty,
        t1.generate_thumbnail == (t0.generate_thumbnail || e.thumbnail),
        t1.id == t0.id,
        t1.source == t0.source,
        t1.cursor == t0.cursor,
    ensures
        t1 == logged(t0, e),
{
}

/// The controller and the transaction went from `c0` and `t0` to `c1` and
/// `t1` by the effect `e`, and by nothing else.
pub open spec fn performed(
    c0: &GridController,
    t0: TransactionView,
    e: Effect,
    c1: &GridController,
    t1: TransactionView,
) -> bool {
    &&& c1.grid@ == e.grid
    &&& c1.notifications.deep_view() == c0.notifications.deep_view() + e.notifications
    &&& same_history(c0, c1)
    &&& t1 == logged(t0, e)
}

/// The effect, if the operation is of the handler's kind; else none.
pub open spec fn only_if(mine: bool, e: Effect, g: GridView) -> Effect {
    if mine {
        e
    } else {
        crate::model::nothing(g)
    }
}

impl GridController {
    /// The spare identity: the first from `next_sheet_id` on that no sheet
    /// of the grid has. A sheet that an operation has to make of its own
    /// accord gets it.
    pub open spec fn spare(&self) -> SheetId {
        crate::grid::unused_id(self.grid@, self.next_sheet_id)
    }

    /// A controller of a grid without sheets.
    pub fn new() -> (r: GridController)
        ensures
            r@ == (ControllerView {
                grid: Seq::empty(),
                notifications: Seq::empty(),
                undo_stack: Seq::empty(),
                redo_stack: Seq::empty(),
                unsaved_transactions: Seq::empty(),
                next_transaction_id: 0,
                next_sheet_id: 0,
            }),
    {
        let r = GridController {
            grid: Grid::new(),
            notifications: Vec::new(),
            undo_stack: Vec::new(),
            redo_stack: Vec::new(),
            transactions: ActiveTransactions { unsaved_transactions: Vec::new() },
            next_transaction_id: 0,
            next_sheet_id: 0,
        };
        assert(r@.notifications =~= Seq::empty());
        assert(r@.undo_stack =~= Seq::empty());
        assert(r@.redo_stack =~= Seq::empty());
        assert(r@.unsaved_transactions =~= Seq::empty());
        r
    }

    /// Tells the host of a change, unless the transaction came from the
    /// server.
    pub fn tell(&mut self, transaction: &PendingTransaction, notification: Notification)
        ensures
            final(self).grid@ == old(self).grid@,
            same_history(old(self), final(self)),
            final(self).notifications.deep_view() == old(self).notifications.deep_view() + told(
                transaction.source,
                seq![notification@],
            ),
    {
        let ghost before = self.notifications.deep_view();
        if !transaction.is_server() {
            self.notifications.push(notification);
            assert(self.notifications.deep_view() =~= before + seq![notification@]);
        } else {
            assert(self.notifications.deep_view() =~= before + Seq::<NotificationView>::empty());
        }
    }

    /// Tells the host of something, whatever the source of the transaction.
    pub fn tell_always(&mut self, notification: Notification)
        ensures
            final(self).grid@ == old(self).grid@,
            same_history(old(self), final(self)),
            final(self).notifications.deep_view() == old(self).notifications.deep_view().push(
                notification@,
            ),
    {
        let ghost before = self.notifications.deep_view();
        self.notifications.push(notification);
        assert(self.notifications.deep_view() =~= before.push(notification@));
    }

    /// Hands over what the host has not yet been told.
    pub fn take_notifications(&mut self) -> (r: Vec<Notification>)
        ensures
            r.deep_view() == old(self).notifications.deep_view(),
            final(self).notifications@.len() == 0,
            final(self).grid@ == old(self).grid@,
            same_history(old(self), final(self)),
    {
        let mut r: Vec<Notification> = Vec::new();
        std::mem::swap(&mut self.notifications, &mut r);
        r
    }
}

/// A transaction is unchanged by an effect that logs nothing.
pub proof fn lemma_logged_nothing(t: TransactionView, g: GridView)
    ensures
        logged(t, crate::model::nothing(g)) == t,
{
    let e = crate::model::nothing(g);
    assert(t.operations + e.queued =~= t.operations);
    assert(t.forward_operations + e.forward =~= t.forward_operations);
    assert(e.reverse + t.reverse_operations =~= t.reverse_operations);
    assert(t.dirty_rects + e.dirty =~= t.dirty_rects);
}

} // verus!
