//! The free (trial) plan: only A1:D5 is translated.
use vstd::prelude::*;

use crate::entry::job_plan_settings::{EXPERIENCE_MAX_COL, EXPERIENCE_MAX_ROW};
use crate::plan::{CellScope, PlanPolicy};

verus! {

#[derive(Debug, Clone, Copy)]
pub struct FreePlan;

impl PlanPolicy for FreePlan {
    open spec fn spec_id(&self) -> Seq<char> {
        "free"@
    }

    open spec fn spec_cell_scope(&self) -> CellScope {
        CellScope::Range { max_row: EXPERIENCE_MAX_ROW, max_col: EXPERIENCE_MAX_COL }
    }

    open spec fn spec_billing_enabled(&self) -> bool {
        false
    }

    fn id(&self) -> (r: &'static str) {
        "free"
    }

    fn cell_scope(&self) -> (r: CellScope) {
        CellScope::Range { max_row: EXPERIENCE_MAX_ROW, max_col: EXPERIENCE_MAX_COL }
    }

    fn billing_enabled(&self) -> (r: bool) {
        false
    }
}

} // verus!
