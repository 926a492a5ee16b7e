//! The handler of the operation that changes formats.

use crate::controller::{
    lemma_logged, lemma_logged_nothing, logged, only_if, performed, GridController,
};
use crate::grid::{lemma_position, lemma_without};
use crate::model::{dropped, nothing, set_formats_effect, step};
use crate::operation::Operation;
use crate::transaction::{Notification, PendingTransaction};
use vstd::prelude::*;

verus! {

impl GridController {
    /// Changes the formats of what is selected, part by part, if the grid
    /// has the sheet, and logs it with the changes that restore the formats
    /// as its inverse. An operation without one change for each part, or
    /// with too many parts, is dropped.
    pub fn execute_set_cell_formats_selection(
        &mut self,
        transaction: &mut PendingTransaction,
        op: Operation,
    )
        ensures
            performed(
                old(self),
                old(transaction)@,
                only_if(
                    op@ is SetCellFormatsSelection,
                    step(
                        old(self).grid@,
                        op@,
                        old(transaction).source,
                        old(transaction).id,
                        old(self).spare(),
                    ),
                    old(self).grid@,
                ),
                final(self),
                final(transaction)@,
            ),
    {
        proof {
            reveal(step);
        }
        self.grid.note_wf();
        let ghost g = self.grid@;
        let ghost t0 = transaction@;
        let ghost n0 = self.notifications.deep_view();
        proof {
            lemma_logged_nothing(t0, g);
        }
        if let Operation::SetCellFormatsSelection { selection, formats } = op {
            let ghost e = set_formats_effect(
                g,
                selection@,
                formats@,
                transaction.source,
                transaction.id,
            );
            let sheet_id = selection.sheet_id;
            if self.grid.try_sheet(sheet_id).is_none() {
                assert(self.notifications.deep_view() =~= n0 + e.notifications);
                return ;
            }
            let found = selection.targets();
            let fits = match &found {
                Some(targets) => targets.len() == formats.size(),
                None => false,
            };
            if !fits {
                self.tell_always(Notification::OperationDropped { transaction_id: transaction.id });
                proof {
                    assert(self.notifications.deep_view() =~= n0 + e.notifications);
                    lemma_logged(t0, transaction@, e);
                }
                return ;
            }
            let targets = found.unwrap();
            let is_first = match self.grid.first_sheet_id() {
                Some(first) => first == sheet_id,
                None => false,
            };
            let mut sheet = self.grid.remove_sheet(sheet_id).unwrap();
            proof {
                lemma_without(g, sheet_id);
                lemma_position(g, sheet_id);
            }
            let back = sheet.update_formats(&targets, &formats).unwrap();
            self.grid.add_sheet(sheet);
            if is_first {
                transaction.generate_thumbnail = true;
            }
            transaction.push_forward(
                Operation::SetCellFormatsSelection { selection: selection.clone(), formats },
            );
            transaction.push_reverse(
                Operation::SetCellFormatsSelection { selection, formats: back },
            );
            self.tell(transaction, Notification::FormatsUpdated { sheet_id });
            proof {
                assert(self.notifications.deep_view() =~= n0 + e.notifications);
                lemma_logged(t0, transaction@, e);
            }
        } else {
            assert(self.notifications.deep_view() =~= n0 + nothing(g).notifications);
        }
    }
}

} // verus!
