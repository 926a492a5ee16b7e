//! Transactions: a queue of operations still to apply, the log of what was
//! applied and the log of its inverses; and what is told to the host.

use crate::operation::{Operation, OperationView};
use crate::pos::{SheetId, SheetRect};
use crate::sheet::{Sheet, SheetView};
use std::collections::VecDeque;
use vstd::prelude::*;

verus! {

/// Where a transaction comes from.
#[derive(Clone, Copy, Debug, PartialEq, Eq, Hash, Structural)]
pub enum TransactionSource {
    /// An edit made here.
    User,
    /// The echo of an edit made elsewhere.
    Server,
    /// The replay of a finished transaction's inverses.
    Undo,
    /// The replay of an undone transaction's operations.
    Redo,
}

impl TransactionSource {
    pub open spec fn spec_is_user(&self) -> bool {
        *self == TransactionSource::User
    }

    pub open spec fn spec_is_server(&self) -> bool {
        *self == TransactionSource::Server
    }

    pub open spec fn spec_is_undo_redo(&self) -> bool {
        *self == TransactionSource::Undo || *self == TransactionSource::Redo
    }

    #[verifier::when_used_as_spec(spec_is_user)]
    pub fn is_user(&self) -> (r: bool)
        ensures
            r == self.spec_is_user(),
    {
        match self {
            TransactionSource::User => true,
            _ => false,
        }
    }

    #[verifier::when_used_as_spec(spec_is_server)]
    pub fn is_server(&self) -> (r: bool)
        ensures
            r == self.spec_is_server(),
    {
        match self {
            TransactionSource::Server => true,
            _ => false,
        }
    }

    #[verifier::when_used_as_spec(spec_is_undo_redo)]
    pub fn is_undo_redo(&self) -> (r: bool)
        ensures
            r == self.spec_is_undo_redo(),
    {
        match self {
            TransactionSource::Undo => true,
            TransactionSource::Redo => true,
            _ => false,
        }
    }
}

/// The labels of a sheet, as told to the host.
#[derive(Debug, PartialEq)]
pub struct SheetInfo {
    pub sheet_id: SheetId,
    pub name: String,
    pub order: String,
    pub color: Option<String>,
}

pub struct SheetInfoView {
    pub sheet_id: SheetId,
    pub name: Seq<char>,
    pub order: Seq<char>,
    pub color: Option<Seq<char>>,
}

impl SheetInfoView {
    /// The labels of a sheet.
    pub open spec fn of(sheet: SheetView) -> SheetInfoView {
        SheetInfoView {
            sheet_id: sheet.id,
            name: sheet.name,
            order: sheet.order,
            color: sheet.color,
        }
    }
}

impl View for SheetInfo {
    type V = SheetInfoView;

    open spec fn view(&self) -> SheetInfoView {
        SheetInfoView {
            sheet_id: self.sheet_id,
            name: self.name@,
            order: self.order@,
            color: self.color.deep_view(),
        }
    }
}

impl SheetInfo {
    /// The labels of a sheet.
    pub fn from(sheet: &Sheet) -> (r: SheetInfo)
        ensures
            r@ == SheetInfoView::of(sheet@),
    {
        SheetInfo {
            sheet_id: sheet.id(),
            name: sheet.name().clone(),
            order: sheet.order().clone(),
            color: crate::sheet::clone_option_string(sheet.color()),
        }
    }
}

/// What the host is told after a change. Nothing is told of the changes that
/// a server transaction makes, but that an operation was dropped or that the
/// transaction was cut short.
#[derive(Debug, PartialEq)]
pub enum Notification {
    /// A sheet was added; `user` tells whether the change was made here.
    SheetAdded { sheet: SheetInfo, user: bool },
    /// A sheet was deleted.
    SheetDeleted { sheet_id: SheetId, user: bool },
    /// A sheet got another name, color or place.
    SheetInfoUpdated { sheet: SheetInfo },
    /// The cells of a rectangle changed.
    CellsUpdated { rect: SheetRect },
    /// The extent of a sheet's content may have changed.
    BoundsUpdated { sheet_id: SheetId },
    /// Formats of a sheet changed.
    FormatsUpdated { sheet_id: SheetId },
    /// An operation of the transaction was applied; so many are still queued.
    TransactionProgress { transaction_id: u64, operations_remaining: usize },
    /// An operation could not be read and was dropped.
    OperationDropped { transaction_id: u64 },
    /// The transaction was ended before its queue was empty; so many
    /// operations were abandoned.
    TransactionCut { transaction_id: u64, operations_abandoned: usize },
}

pub enum NotificationView {
    SheetAdded { sheet: SheetInfoView, user: bool },
    SheetDeleted { sheet_id: SheetId, user: bool },
    SheetInfoUpdated { sheet: SheetInfoView },
    CellsUpdated { rect: SheetRect },
    BoundsUpdated { sheet_id: SheetId },
    FormatsUpdated { sheet_id: SheetId },
    TransactionProgress { transaction_id: u64, operations_remaining: usize },
    OperationDropped { transaction_id: u64 },
    TransactionCut { transaction_id: u64, operations_abandoned: usize },
}

impl View for Notification {
    type V = NotificationView;

    open spec fn view(&self) -> NotificationView {
        match self {
            Notification::SheetAdded { sheet, user } => NotificationView::SheetAdded {
                sheet: sheet@,
                user: *user,
            },
            Notification::SheetDeleted { sheet_id, user } => NotificationView::SheetDeleted {
                sheet_id: *sheet_id,
                user: *user,
            },
            Notification::SheetInfoUpdated { sheet } => NotificationView::SheetInfoUpdated {
                sheet: sheet@,
            },
            Notification::CellsUpdated { rect } => NotificationView::CellsUpdated { rect: *rect },
            Notification::BoundsUpdated { sheet_id } => NotificationView::BoundsUpdated {
                sheet_id: *sheet_id,
            },
            Notification::FormatsUpdated { sheet_id } => NotificationView::FormatsUpdated {
                sheet_id: *sheet_id,
            },
            Notification::TransactionProgress {
                transaction_id,
                operations_remaining,
            } => NotificationView::TransactionProgress {
                transaction_id: *transaction_id,
                operations_remaining: *operations_remaining,
            },
            Notification::OperationDropped { transaction_id } => NotificationView::OperationDropped {
                transaction_id: *transaction_id,
            },
            Notification::TransactionCut {
                transaction_id,
                operations_abandoned,
            } => NotificationView::TransactionCut {
                transaction_id: *transaction_id,
                operations_abandoned: *operations_abandoned,
            },
        }
    }
}

impl DeepView for Notification {
    type V = NotificationView;

    open spec fn deep_view(&self) -> NotificationView {
        self@
    }
}

/// A transaction in progress.
#[derive(Debug, PartialEq)]
pub struct PendingTransaction {
    pub id: u64,
    pub source: TransactionSource,
    /// The operations still to apply, first in first out.
    pub operations: VecDeque<Operation>,
    /// The operations as they were applied, in that order.
    pub forward_operations: Vec<Operation>,
    /// The inverses of what was applied, the latest first: replayed in this
    /// order they undo the transaction.
    pub reverse_operations: Vec<Operation>,
    /// Whether the thumbnail of the first sheet has to be drawn again.
    pub generate_thumbnail: bool,
    /// The rectangles whose cells changed.
    pub dirty_rects: Vec<SheetRect>,
    /// The cursor to go back to when the transaction is undone.
    pub cursor: Option<String>,
}

pub struct TransactionView {
    pub id: u64,
    pub source: TransactionSource,
    pub operations: Seq<OperationView>,
    pub forward_operations: Seq<OperationView>,
    pub reverse_operations: Seq<OperationView>,
    pub generate_thumbnail: bool,
    pub dirty_rects: Seq<SheetRect>,
    pub cursor: Option<Seq<char>>,
}

impl View for PendingTransaction {
    type V = TransactionView;

    open spec fn view(&self) -> TransactionView {
        TransactionView {
            id: self.id,
            source: self.source,
            operations: self.operations.deep_view(),
            forward_operations: self.forward_operations.deep_view(),
            reverse_operations: self.reverse_operations.deep_view(),
            generate_thumbnail: self.generate_thumbnail,
            dirty_rects: self.dirty_rects@,
            cursor: self.cursor.deep_view(),
        }
    }
}

impl PendingTransaction {
    /// A transaction that has the given operations to apply.
    pub fn new(id: u64, source: TransactionSource, operations: Vec<Operation>, cursor: Option<
        String,
    >) -> (r: PendingTransaction)
        ensures
            r@ == (TransactionView {
                id,
                source,
                operations: operations.deep_view(),
                forward_operations: Seq::empty(),
                reverse_operations: Seq::empty(),
                generate_thumbnail: false,
                dirty_rects: Seq::empty(),
                cursor: cursor.deep_view(),
            }),
    {
        let mut queue: VecDeque<Operation> = VecDeque::new();
        let mut operations = operations;
        let ghost all = operations.deep_view();
        // Move the operations over from the back, so that the first stays first.
        while operations.len() > 0
            invariant
                all == operations.deep_view() + queue.deep_view(),
            decreases operations.len(),
        {
            let ghost before = operations.deep_view();
            let ghost queued = queue.deep_view();
            let op = operations.pop().unwrap();
            queue.push_front(op);
            assert(queue.deep_view() =~= seq![op@] + queued);
            assert(before =~= operations.deep_view() + seq![op@]);
            assert(operations.deep_view() + queue.deep_view() =~= before + queued);
        }
        assert(queue.deep_view() =~= all);
        let r = PendingTransaction {
            id,
            source,
            operations: queue,
            forward_operations: Vec::new(),
            reverse_operations: Vec::new(),
            generate_thumbnail: false,
            dirty_rects: Vec::new(),
            cursor,
        };
        assert(r@.forward_operations =~= Seq::empty());
        assert(r@.reverse_operations =~= Seq::empty());
        r
    }

    pub open spec fn spec_is_user(&self) -> bool {
        self.source.spec_is_user()
    }

    pub open spec fn spec_is_server(&self) -> bool {
        self.source.spec_is_server()
    }

    pub open spec fn spec_is_undo_redo(&self) -> bool {
        self.source.spec_is_undo_redo()
    }

    #[verifier::when_used_as_spec(spec_is_user)]
    pub fn is_user(&self) -> (r: bool)
        ensures
            r == self.spec_is_user(),
    {
        self.source.is_user()
    }

    #[verifier::when_used_as_spec(spec_is_server)]
    pub fn is_server(&self) -> (r: bool)
        ensures
            r == self.spec_is_server(),
    {
        self.source.is_server()
    }

    #[verifier::when_used_as_spec(spec_is_undo_redo)]
    pub fn is_undo_redo(&self) -> (r: bool)
        ensures
            r == self.spec_is_undo_redo(),
    {
        self.source.is_undo_redo()
    }

    /// Whether every queued operation has been applied.
    pub fn is_complete(&self) -> (r: bool)
        ensures
            r == (self@.operations.len() == 0),
    {
        self.operations.len() == 0
    }

    /// Logs an operation as applied.
    pub fn push_forward(&mut self, op: Operation)
        ensures
            final(self)@ == (TransactionView {
                forward_operations: old(self)@.forward_operations.push(op@),
                ..old(self)@
            }),
    {
        let ghost before = self.forward_operations.deep_view();
        self.forward_operations.push(op);
        assert(self.forward_operations.deep_view() =~= before.push(op@));
    }

    /// Logs an inverse, in front of the inverses logged so far.
    pub fn push_reverse(&mut self, op: Operation)
        ensures
            final(self)@ == (TransactionView {
                reverse_operations: seq![op@] + old(self)@.reverse_operations,
                ..old(self)@
            }),
    {
        let ghost before = self.reverse_operations.deep_view();
        self.reverse_operations.insert(0, op);
        assert(self.reverse_operations.deep_view() =~= seq![op@] + before);
    }

    /// Queues an operation behind those already queued.
    pub fn enqueue(&mut self, op: Operation)
        ensures
            final(self)@ == (TransactionView {
                operations: old(self)@.operations.push(op@),
                ..old(self)@
            }),
    {
        let ghost before = self.operations.deep_view();
        self.operations.push_back(op);
        assert(self.operations.deep_view() =~= before.push(op@));
    }

    /// Takes the next operation off the queue.
    pub fn next_operation(&mut self) -> (r: Option<Operation>)
        ensures
            match r {
                Some(op) => old(self)@.operations.len() > 0 && op@ == old(self)@.operations[0]
                    && final(self)@ == (TransactionView {
                    operations: old(self)@.operations.skip(1),
                    ..old(self)@
                }),
                None => old(self)@.operations.len() == 0 && final(self)@ == old(self)@,
            },
    {
        let ghost before = self.operations.deep_view();
        let r = self.operations.pop_front();
        proof {
            if r.is_some() {
                assert(self.operations.deep_view() =~= before.skip(1));
            } else {
                assert(self.operations.deep_view() =~= before);
            }
        }
        r
    }
}

} // verus!
