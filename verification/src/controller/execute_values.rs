//! The handler of the operation that writes cell values.

use crate::controller::coordinator::{
    add_compute_operations, check_all_spills, check_deleted_code_runs,
};
use crate::controller::{
    lemma_logged, lemma_logged_nothing, logged, only_if, performed, GridController,
};
use crate::grid::{lemma_position, lemma_without};
use crate::model::{dropped, nothing, respill, retire, set_cell_values_effect, step};
use crate::operation::Operation;
use crate::pos::{Pos, Rect};
use crate::sheet::{block_fits, block_rect};
use crate::transaction::{Notification, PendingTransaction};
use vstd::prelude::*;

verus! {

/// Whether a block of the given size can be laid out from `origin`.
pub fn fits(origin: Pos, w: u32, h: u32) -> (r: bool)
    ensures
        r == block_fits(origin, w, h),
{
    let right: i128 = origin.x as i128 + w as i128 - 1;
    let bottom: i128 = origin.y as i128 + h as i128 - 1;
    i64::MIN as i128 <= right && right <= i64::MAX as i128 && i64::MIN as i128 <= bottom && bottom
        <= i64::MAX as i128
}

/// The rectangle that a block covers.
pub fn rect_of_block(origin: Pos, w: u32, h: u32) -> (r: Rect)
    requires
        block_fits(origin, w, h),
    ensures
        r == block_rect(origin, w, h),
{
    Rect {
        min: origin,
        max: Pos {
            x: (origin.x as i128 + w as i128 - 1) as i64,
            y: (origin.y as i128 + h as i128 - 1) as i64,
        },
    }
}

impl GridController {
    /// Writes a block of values into a sheet, if the grid has the sheet, and
    /// logs it with the block of the values that were there as its inverse. A
    /// block that does not fit into the grid is dropped. For a user the code
    /// runs are brought in line with the new values.
    pub fn execute_set_cell_values(&mut self, transaction: &mut PendingTransaction, op: Operation)
        ensures
            performed(
                old(self),
                old(transaction)@,
                only_if(
                    op@ is SetCellValues,
                    step(
                        old(self).grid@,
                        op@,
                        old(transaction).source,
                        old(transaction).id,
                        old(self).spare(),
                    ),
                    old(self).grid@,
                ),
                final(self),
                final(transaction)@,
            ),
    {
        proof {
            reveal(step);
        }
        self.grid.note_wf();
        let ghost g = self.grid@;
        let ghost t0 = transaction@;
        let ghost n0 = self.notifications.deep_view();
        proof {
            lemma_logged_nothing(t0, g);
        }
        if let Operation::SetCellValues { sheet_pos, values } = op {
            let ghost e = set_cell_values_effect(
                g,
                sheet_pos,
                values@,
                transaction.source,
                transaction.id,
            );
            let sheet_id = sheet_pos.sheet_id;
            let origin = sheet_pos.pos();
            if self.grid.try_sheet(sheet_id).is_none() {
                assert(self.notifications.deep_view() =~= n0 + e.notifications);
                return ;
            }
            if !fits(origin, values.w(), values.h()) {
                self.tell_always(Notification::OperationDropped { transaction_id: transaction.id });
                proof {
                    assert(self.notifications.deep_view() =~= n0 + e.notifications);
                    lemma_logged(t0, transaction@, e);
                }
                return ;
            }
            let is_first = match self.grid.first_sheet_id() {
                Some(first) => first == sheet_id,
                None => false,
            };
            let rect = rect_of_block(origin, values.w(), values.h());
            let area = rect.to_sheet_rect(sheet_id);
            let user = transaction.is_user();
            let mut sheet = self.grid.remove_sheet(sheet_id).unwrap();
            proof {
                lemma_without(g, sheet_id);
                lemma_position(g, sheet_id);
            }
            let old_values = sheet.merge_cell_values(origin, &values);
            let ghost written = sheet@;
            transaction.push_forward(Operation::SetCellValues { sheet_pos, values });
            if user {
                check_deleted_code_runs(&mut sheet, rect, transaction);
                check_all_spills(&mut sheet, transaction);
            }
            transaction.push_reverse(Operation::SetCellValues { sheet_pos, values: old_values });
            self.grid.add_sheet(sheet);
            if user {
                add_compute_operations(&self.grid, area, None, transaction);
            }
            if is_first {
                transaction.generate_thumbnail = true;
            }
            let ghost d0 = transaction.dirty_rects@;
            transaction.dirty_rects.push(area);
            self.tell(transaction, Notification::BoundsUpdated { sheet_id });
            self.tell(transaction, Notification::CellsUpdated { rect: area });
            proof {
                assert(self.notifications.deep_view() =~= n0 + e.notifications);
                lemma_logged(t0, transaction@, e);
            }
        } else {
            assert(self.notifications.deep_view() =~= n0 + nothing(g).notifications);
        }
    }
}

} // verus!
