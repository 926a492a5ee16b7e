//! The handlers of the operations on code runs.

use crate::controller::coordinator::{add_compute_operations, check_all_spills};
use crate::controller::{
    lemma_logged, lemma_logged_nothing, logged, only_if, performed, GridController,
};
use crate::formula::evaluate;
use crate::grid::{lemma_position, lemma_without};
use crate::model::{
    cell_area, compute_code_effect, nothing, run_of, set_code_run_effect, step,
};
use crate::operation::Operation;
use crate::pos::{Rect, SheetRect};
use crate::sheet::{run_output_rect, Sheet};
use crate::transaction::{Notification, PendingTransaction};
use crate::values::{CellValue, CodeCellLanguage, CodeCellValue, CodeRun, CodeRunResult};
use vstd::prelude::*;

verus! {

/// Runs a code cell. Formulas are evaluated on the sheet; code in another
/// language is run by the host, and gets a run here that says so.
pub fn run_code(sheet: &Sheet, code: &CodeCellValue) -> (r: CodeRun)
    ensures
        r@ == run_of(sheet@, code@),
{
    match code.language {
        CodeCellLanguage::Formula => evaluate(sheet, code.code.as_str()),
        CodeCellLanguage::Python => CodeRun {
            cells_accessed: Vec::new(),
            result: CodeRunResult::Failed(String::from_str("not run here")),
            spill_error: false,
        },
    }
}

/// Copies an optional run.
pub fn clone_option_run(run: &Option<CodeRun>) -> (r: Option<CodeRun>)
    ensures
        r.deep_view() == run.deep_view(),
{
    match run {
        Some(run) => Some(run.clone()),
        None => None,
    }
}

impl GridController {
    /// Runs the code cell at a position, if the grid has the sheet and the
    /// cell holds code, and logs the new run as set, with the old run in the
    /// inverse. For a user the runs that read the output are queued for
    /// recomputation, and the spill flags of the sheet are set anew.
    pub fn execute_compute_code(&mut self, transaction: &mut PendingTransaction, op: Operation)
        ensures
            performed(
                old(self),
                old(transaction)@,
                only_if(
                    op@ is ComputeCode,
                    step(
                        old(self).grid@,
                        op@,
                        old(transaction).source,
                        old(transaction).id,
                        old(self).spare(),
                    ),
                    old(self).grid@,
                ),
                final(self),
                final(transaction)@,
            ),
    {
        proof {
            reveal(step);
        }
        self.grid.note_wf();
        let ghost g = self.grid@;
        let ghost t0 = transaction@;
        let ghost n0 = self.notifications.deep_view();
        proof {
            lemma_logged_nothing(t0, g);
        }
        if let Operation::ComputeCode { sheet_pos } = op {
            let ghost e = compute_code_effect(g, sheet_pos, transaction.source);
            let sheet_id = sheet_pos.sheet_id;
            let pos = sheet_pos.pos();
            let run = match self.grid.try_sheet(sheet_id) {
                Some(sheet) => match sheet.cell_value(pos) {
                    Some(CellValue::Code(code)) => run_code(sheet, code),
                    _ => {
                        assert(self.notifications.deep_view() =~= n0 + e.notifications);
                        return ;
                    },
                },
                None => {
                    assert(self.notifications.deep_view() =~= n0 + e.notifications);
                    return ;
                },
            };
            let out = run_output_rect(pos, &run);
            let area = out.to_sheet_rect(sheet_id);
            let user = transaction.is_user();
            let mut sheet = self.grid.remove_sheet(sheet_id).unwrap();
            proof {
                lemma_without(g, sheet_id);
                lemma_position(g, sheet_id);
            }
            let old_run = sheet.set_code_run(pos, Some(run.clone()));
            transaction.push_forward(Operation::SetCodeRun { sheet_pos, code_run: Some(run) });
            transaction.push_reverse(Operation::SetCodeRun { sheet_pos, code_run: old_run });
            if user {
                check_all_spills(&mut sheet, transaction);
            }
            self.grid.add_sheet(sheet);
            if user {
                add_compute_operations(&self.grid, area, Some(sheet_pos), transaction);
            }
            transaction.dirty_rects.push(area);
            self.tell(transaction, Notification::CellsUpdated { rect: area });
            proof {
                assert(self.notifications.deep_view() =~= n0 + e.notifications);
                lemma_logged(t0, transaction@, e);
            }
        } else {
            assert(self.notifications.deep_view() =~= n0 + nothing(g).notifications);
        }
    }

    /// Sets or removes the run of a code cell, if the grid has the sheet,
    /// and logs it with the run that was there as its inverse.
    pub fn execute_set_code_run(&mut self, transaction: &mut PendingTransaction, op: Operation)
        ensures
            performed(
                old(self),
                old(transaction)@,
                only_if(
                    op@ is SetCodeRun,
                    step(
                        old(self).grid@,
                        op@,
                        old(transaction).source,
                        old(transaction).id,
                        old(self).spare(),
                    ),
                    old(self).grid@,
                ),
                final(self),
                final(transaction)@,
            ),
    {
        proof {
            reveal(step);
        }
        self.grid.note_wf();
        let ghost g = self.grid@;
        let ghost t0 = transaction@;
        let ghost n0 = self.notifications.deep_view();
        proof {
            lemma_logged_nothing(t0, g);
        }
        if let Operation::SetCodeRun { sheet_pos, code_run } = op {
            let ghost e = set_code_run_effect(
                g,
                sheet_pos,
                code_run.deep_view(),
                transaction.source,
            );
            let sheet_id = sheet_pos.sheet_id;
            let pos = sheet_pos.pos();
            let mut sheet = match self.grid.remove_sheet(sheet_id) {
                Some(sheet) => sheet,
                None => {
                    assert(self.notifications.deep_view() =~= n0 + e.notifications);
                    return ;
                },
            };
            proof {
                lemma_without(g, sheet_id);
                lemma_position(g, sheet_id);
            }
            let old_run = sheet.set_code_run(pos, clone_option_run(&code_run));
            self.grid.add_sheet(sheet);
            transaction.push_forward(Operation::SetCodeRun { sheet_pos, code_run });
            transaction.push_reverse(Operation::SetCodeRun { sheet_pos, code_run: old_run });
            let area = SheetRect { min: pos, max: pos, sheet_id };
            self.tell(transaction, Notification::CellsUpdated { rect: area });
            proof {
                assert(self.notifications.deep_view() =~= n0 + e.notifications);
                lemma_logged(t0, transaction@, e);
            }
        } else {
            assert(self.notifications.deep_view() =~= n0 + nothing(g).notifications);
        }
    }
}

} // verus!
