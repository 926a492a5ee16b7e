//! The handlers of the operations on whole sheets.

use crate::controller::{
    lemma_logged, lemma_logged_nothing, logged, only_if, performed, GridController,
};
use crate::grid::{
    has_sheet, lemma_position, lemma_with_sheet, lemma_without, names, sheet_of, with_sheet, without,
};
use crate::model::{
    add_sheet_effect, add_sheet_schema_effect, delete_sheet_effect, duplicate_name, duplicate_of,
    duplicate_order, duplicate_sheet_effect, first_order, reorder_sheet_effect, replacement_sheet,
    room_behind, set_sheet_color_effect, set_sheet_name_effect, sheet_added, sheet_deleted,
    sheet_info_updated, stands_behind, step, told, Effect,
};
use crate::names::{name_in, unused_name};
use crate::operation::{export_sheet, Operation, OperationView, SheetSchemaView};
use crate::order::key_between;
use crate::pos::SheetId;
use crate::sheet::{Sheet, SheetView};
use crate::text::joined;
use crate::transaction::{
    Notification, NotificationView, PendingTransaction, SheetInfo, TransactionView,
};
use vstd::prelude::*;

verus! {

/// The order key of the first sheet of an empty grid.
pub fn first_sheet_order() -> (r: String)
    ensures
        r@ == first_order(),
{
    match key_between(&None, &None) {
        Some(k) => k,
        None => String::from_str("a0"),
    }
}

impl GridController {
    /// The names of the sheets, in tab order.
    pub fn sheet_names(&self) -> (r: Vec<String>)
        ensures
            r.deep_view() == names(self.grid@),
    {
        let sheets = self.grid.sheets();
        let mut r: Vec<String> = Vec::new();
        let mut i: usize = 0;
        while i < sheets.len()
            invariant
                i <= sheets.len(),
                sheets.deep_view() == self.grid@,
                r.len() == i,
                forall|j: int| 0 <= j < i ==> r@[j]@ == self.grid@[j].name,
            decreases sheets.len() - i,
        {
            r.push(sheets[i].name().clone());
            i = i + 1;
        }
        assert(r.deep_view() =~= names(self.grid@));
        r
    }

    /// Adds the sheet that the operation carries, unless the grid has a sheet
    /// of that identity.
    pub fn execute_add_sheet(&mut self, transaction: &mut PendingTransaction, op: Operation)
        ensures
            performed(
                old(self),
                old(transaction)@,
                only_if(
                    op@ is AddSheet,
                    step(
                        old(self).grid@,
                        op@,
                        old(transaction).source,
                        old(transaction).id,
                        old(self).spare(),
                    ),
                    old(self).grid@,
                ),
                final(self),
                final(transaction)@,
            ),
    {
        proof {
            reveal(step);
        }
        proof {
            lemma_logged_nothing(transaction@, self.grid@);
        }
        if let Operation::AddSheet { sheet } = op {
            let logged_as = Operation::AddSheet { sheet: sheet.clone() };
            self.add_logged(transaction, sheet, logged_as);
        }
        assert(self.notifications.deep_view() =~= old(self).notifications.deep_view() + only_if(
            op@ is AddSheet,
            step(
                        old(self).grid@,
                        op@,
                        old(transaction).source,
                        old(transaction).id,
                        old(self).spare(),
                    ),
            old(self).grid@,
        ).notifications);
    }

    /// Adds a sheet and logs the addition as `logged_as`.
    fn add_logged(
        &mut self,
        transaction: &mut PendingTransaction,
        sheet: Sheet,
        logged_as: Operation,
    )
        ensures
            performed(
                old(self),
                old(transaction)@,
                add_sheet_effect(old(self).grid@, sheet@, logged_as@, old(transaction).source),
                final(self),
                final(transaction)@,
            ),
    {
        let ghost g = self.grid@;
        let ghost t0 = transaction@;
        let ghost e = add_sheet_effect(g, sheet@, logged_as@, transaction.source);
        proof {
            lemma_logged_nothing(t0, g);
        }
        let sheet_id = sheet.id();
        if self.grid.try_sheet(sheet_id).is_some() {
            assert(self.notifications.deep_view() =~= old(self).notifications.deep_view()
                + e.notifications);
            return ;
        }
        let info = SheetInfo::from(&sheet);
        let user = !transaction.is_server();
        self.grid.add_sheet(sheet);
        self.tell(transaction, Notification::SheetAdded { sheet: info, user });
        transaction.push_forward(logged_as);
        transaction.push_reverse(Operation::DeleteSheet { sheet_id });
        proof {
            lemma_logged(t0, transaction@, e);
        }
    }

    /// Adds the sheet of the snapshot that the operation carries, unless the
    /// grid has a sheet of that identity. A snapshot that cannot be read is
    /// dropped, which the host is told.
    pub fn execute_add_sheet_schema(&mut self, transaction: &mut PendingTransaction, op: Operation)
        ensures
            performed(
                old(self),
                old(transaction)@,
                only_if(
                    op@ is AddSheetSchema,
                    step(
                        old(self).grid@,
                        op@,
                        old(transaction).source,
                        old(transaction).id,
                        old(self).spare(),
                    ),
                    old(self).grid@,
                ),
                final(self),
                final(transaction)@,
            ),
    {
        proof {
            reveal(step);
        }
        let ghost g = self.grid@;
        let ghost t0 = transaction@;
        proof {
            lemma_logged_nothing(t0, g);
        }
        if let Operation::AddSheetSchema { schema } = op {
            let logged_as = Operation::AddSheetSchema { schema: schema.clone() };
            match schema.into_latest() {
                Ok(sheet) => {
                    self.add_logged(transaction, sheet, logged_as);
                },
                Err(_) => {
                    self.tell_always(
                        Notification::OperationDropped { transaction_id: transaction.id },
                    );
                    proof {
                        let e = crate::model::dropped(g, t0.id);
                        assert(self.notifications.deep_view() =~= old(self).notifications.deep_view()
                            + e.notifications);
                        lemma_logged(t0, transaction@, e);
                    }
                },
            }
        } else {
            assert(self.notifications.deep_view() =~= old(self).notifications.deep_view()
                + crate::model::nothing(g).notifications);
        }
    }

    /// Deletes a sheet, if the grid has it. Where a user deletes the last
    /// sheet, a new first sheet takes its place.
    pub fn execute_delete_sheet(&mut self, transaction: &mut PendingTransaction, op: Operation)
        ensures
            performed(
                old(self),
                old(transaction)@,
                only_if(
                    op@ is DeleteSheet,
                    step(
                        old(self).grid@,
                        op@,
                        old(transaction).source,
                        old(transaction).id,
                        old(self).spare(),
                    ),
                    old(self).grid@,
                ),
                final(self),
                final(transaction)@,
            ),
    {
        proof {
            reveal(step);
        }
        self.grid.note_wf();
        let ghost g = self.grid@;
        let ghost t0 = transaction@;
        let ghost n0 = self.notifications.deep_view();
        proof {
            lemma_logged_nothing(t0, g);
        }
        if let Operation::DeleteSheet { sheet_id } = op {
            let spare = self.grid.unused_id(self.next_sheet_id);
            let ghost e = delete_sheet_effect(g, sheet_id, transaction.source, spare);
            let deleted_sheet = match self.grid.remove_sheet(sheet_id) {
                Some(sheet) => sheet,
                None => {
                    assert(self.notifications.deep_view() =~= n0 + e.notifications);
                    return ;
                },
            };
            let user = !transaction.is_server();
            let restore = Operation::AddSheetSchema { schema: export_sheet(&deleted_sheet) };
            if transaction.is_user() && self.grid.len() == 0 {
                let new_first_sheet = Sheet::new(
                    spare,
                    String::from_str("Sheet 1"),
                    first_sheet_order(),
                );
                let new_first_sheet_id = new_first_sheet.id();
                let info = SheetInfo::from(&new_first_sheet);
                self.grid.add_sheet(new_first_sheet.clone());
                transaction.push_forward(Operation::DeleteSheet { sheet_id });
                transaction.push_forward(Operation::AddSheet { sheet: new_first_sheet });
                transaction.push_reverse(restore);
                transaction.push_reverse(Operation::DeleteSheet { sheet_id: new_first_sheet_id });
                self.tell(transaction, Notification::SheetAdded { sheet: info, user });
            } else {
                transaction.push_forward(Operation::DeleteSheet { sheet_id });
                transaction.push_reverse(restore);
            }
            self.tell(transaction, Notification::SheetDeleted { sheet_id, user });
            proof {
                assert(self.notifications.deep_view() =~= n0 + e.notifications);
                lemma_logged(t0, transaction@, e);
            }
        } else {
            assert(self.notifications.deep_view() =~= n0 + crate::model::nothing(g).notifications);
        }
    }

    /// Gives a sheet another order key, if the grid has the sheet.
    pub fn execute_reorder_sheet(&mut self, transaction: &mut PendingTransaction, op: Operation)
        ensures
            performed(
                old(self),
                old(transaction)@,
                only_if(
                    op@ is ReorderSheet,
                    step(
                        old(self).grid@,
                        op@,
                        old(transaction).source,
                        old(transaction).id,
                        old(self).spare(),
                    ),
                    old(self).grid@,
                ),
                final(self),
                final(transaction)@,
            ),
    {
        proof {
            reveal(step);
        }
        self.grid.note_wf();
        let ghost g = self.grid@;
        let ghost t0 = transaction@;
        let ghost n0 = self.notifications.deep_view();
        proof {
            lemma_logged_nothing(t0, g);
        }
        if let Operation::ReorderSheet { target, order } = op {
            let ghost e = reorder_sheet_effect(g, target, order@, transaction.source);
            let old_first = self.grid.first_sheet_id();
            let old_order = match self.grid.move_sheet(target, order.clone()) {
                Some(old_order) => old_order,
                None => {
                    assert(self.notifications.deep_view() =~= n0 + e.notifications);
                    return ;
                },
            };
            proof {
                lemma_position(g, target);
                lemma_with_sheet(g, sheet_of(g, target).with_order(order@));
            }
            let info = match self.grid.try_sheet(target) {
                Some(sheet) => SheetInfo::from(sheet),
                None => {
                    assert(false);
                    return ;
                },
            };
            if old_first != self.grid.first_sheet_id() {
                transaction.generate_thumbnail = true;
            }
            transaction.push_forward(Operation::ReorderSheet { target, order });
            transaction.push_reverse(Operation::ReorderSheet { target, order: old_order });
            self.tell(transaction, Notification::SheetInfoUpdated { sheet: info });
            proof {
                assert(self.notifications.deep_view() =~= n0 + e.notifications);
                lemma_logged(t0, transaction@, e);
            }
        } else {
            assert(self.notifications.deep_view() =~= n0 + crate::model::nothing(g).notifications);
        }
    }

    /// Renames a sheet, if the grid has it.
    pub fn execute_set_sheet_name(&mut self, transaction: &mut PendingTransaction, op: Operation)
        ensures
            performed(
                old(self),
                old(transaction)@,
                only_if(
                    op@ is SetSheetName,
                    step(
                        old(self).grid@,
                        op@,
                        old(transaction).source,
                        old(transaction).id,
                        old(self).spare(),
                    ),
                    old(self).grid@,
                ),
                final(self),
                final(transaction)@,
            ),
    {
        proof {
            reveal(step);
        }
        self.grid.note_wf();
        let ghost g = self.grid@;
        let ghost t0 = transaction@;
        let ghost n0 = self.notifications.deep_view();
        proof {
            lemma_logged_nothing(t0, g);
        }
        if let Operation::SetSheetName { sheet_id, name } = op {
            let ghost e = set_sheet_name_effect(g, sheet_id, name@, transaction.source);
            let mut sheet = match self.grid.remove_sheet(sheet_id) {
                Some(sheet) => sheet,
                None => {
                    assert(self.notifications.deep_view() =~= n0 + e.notifications);
                    return ;
                },
            };
            let old_name = sheet.set_name(name.clone());
            let info = SheetInfo::from(&sheet);
            self.grid.add_sheet(sheet);
            proof {
                lemma_without(g, sheet_id);
                lemma_position(g, sheet_id);
            }
            transaction.push_forward(Operation::SetSheetName { sheet_id, name });
            transaction.push_reverse(Operation::SetSheetName { sheet_id, name: old_name });
            self.tell(transaction, Notification::SheetInfoUpdated { sheet: info });
            proof {
                assert(self.notifications.deep_view() =~= n0 + e.notifications);
                lemma_logged(t0, transaction@, e);
            }
        } else {
            assert(self.notifications.deep_view() =~= n0 + crate::model::nothing(g).notifications);
        }
    }

    /// Recolors a sheet, if the grid has it.
    pub fn execute_set_sheet_color(&mut self, transaction: &mut PendingTransaction, op: Operation)
        ensures
            performed(
                old(self),
                old(transaction)@,
                only_if(
                    op@ is SetSheetColor,
                    step(
                        old(self).grid@,
                        op@,
                        old(transaction).source,
                        old(transaction).id,
                        old(self).spare(),
                    ),
                    old(self).grid@,
                ),
                final(self),
                final(transaction)@,
            ),
    {
        proof {
            reveal(step);
        }
        self.grid.note_wf();
        let ghost g = self.grid@;
        let ghost t0 = transaction@;
        let ghost n0 = self.notifications.deep_view();
        proof {
            lemma_logged_nothing(t0, g);
        }
        if let Operation::SetSheetColor { sheet_id, color } = op {
            let ghost e = set_sheet_color_effect(
                g,
                sheet_id,
                color.deep_view(),
                transaction.source,
            );
            let mut sheet = match self.grid.remove_sheet(sheet_id) {
                Some(sheet) => sheet,
                None => {
                    assert(self.notifications.deep_view() =~= n0 + e.notifications);
                    return ;
                },
            };
            let old_color = sheet.set_color(crate::sheet::clone_option_string(&color));
            let info = SheetInfo::from(&sheet);
            self.grid.add_sheet(sheet);
            proof {
                lemma_without(g, sheet_id);
                lemma_position(g, sheet_id);
            }
            transaction.push_forward(Operation::SetSheetColor { sheet_id, color });
            transaction.push_reverse(Operation::SetSheetColor { sheet_id, color: old_color });
            self.tell(transaction, Notification::SheetInfoUpdated { sheet: info });
            proof {
                assert(self.notifications.deep_view() =~= n0 + e.notifications);
                lemma_logged(t0, transaction@, e);
            }
        } else {
            assert(self.notifications.deep_view() =~= n0 + crate::model::nothing(g).notifications);
        }
    }

    /// Copies a sheet under a new identity, if the grid has the sheet and no
    /// sheet of the new identity. Where the keys of the sheet and of its
    /// right neighbour leave room, the copy stands right behind the sheet,
    /// with a key between the two; else it gets the key of the sheet.
    pub fn execute_duplicate_sheet(&mut self, transaction: &mut PendingTransaction, op: Operation)
        ensures
            performed(
                old(self),
                old(transaction)@,
                only_if(
                    op@ is DuplicateSheet,
                    step(
                        old(self).grid@,
                        op@,
                        old(transaction).source,
                        old(transaction).id,
                        old(self).spare(),
                    ),
                    old(self).grid@,
                ),
                final(self),
                final(transaction)@,
            ),
            op@ matches OperationView::DuplicateSheet { sheet_id, new_sheet_id } ==> (has_sheet(
                old(self).grid@,
                sheet_id,
            ) && !has_sheet(old(self).grid@, new_sheet_id) && room_behind(
                old(self).grid@,
                sheet_id,
            ) ==> stands_behind(old(self).grid@, final(self).grid@, sheet_id, new_sheet_id)),
    {
        proof {
            reveal(step);
        }
        self.grid.note_wf();
        let ghost g = self.grid@;
        let ghost t0 = transaction@;
        let ghost n0 = self.notifications.deep_view();
        proof {
            lemma_logged_nothing(t0, g);
        }
        if let Operation::DuplicateSheet { sheet_id, new_sheet_id } = op {
            let ghost e = duplicate_sheet_effect(g, sheet_id, new_sheet_id, transaction.source);
            if self.grid.try_sheet(new_sheet_id).is_some() {
                assert(self.notifications.deep_view() =~= n0 + e.notifications);
                return ;
            }
            let sheet = match self.grid.try_sheet(sheet_id) {
                Some(sheet) => sheet,
                None => {
                    assert(self.notifications.deep_view() =~= n0 + e.notifications);
                    return ;
                },
            };
            let mut new_sheet = sheet.clone();
            new_sheet.set_id(new_sheet_id);
            let right_order = match self.grid.next_sheet(sheet_id) {
                Some(right) => Some(right.order().clone()),
                None => None,
            };
            match key_between(&Some(sheet.order().clone()), &right_order) {
                Some(order) => {
                    new_sheet.set_order(order);
                },
                None => {},
            }
            proof {
                if room_behind(g, sheet_id) {
                    crate::laws::law_duplicate_lands_behind(
                        g,
                        sheet_id,
                        new_sheet_id,
                        transaction.source,
                        transaction.id,
                        old(self).spare(),
                    );
                }
            }
            let name = joined(sheet.name().as_str(), " Copy");
            let sheet_names = self.sheet_names();
            if !name_in(&sheet_names, name.as_str()) {
                new_sheet.set_name(name);
            } else {
                new_sheet.set_name(unused_name(name.as_str(), &sheet_names));
            }
            assert(new_sheet@ == duplicate_of(g, sheet_id, new_sheet_id));
            let info = SheetInfo::from(&new_sheet);
            let user = !transaction.is_server();
            self.grid.add_sheet(new_sheet);
            self.tell(transaction, Notification::SheetAdded { sheet: info, user });
            transaction.push_forward(Operation::DuplicateSheet { sheet_id, new_sheet_id });
            transaction.push_reverse(Operation::DeleteSheet { sheet_id: new_sheet_id });
            proof {
                assert(self.notifications.deep_view() =~= n0 + e.notifications);
                lemma_logged(t0, transaction@, e);
            }
        } else {
            assert(self.notifications.deep_view() =~= n0 + crate::model::nothing(g).notifications);
        }
    }
}

} // verus!
