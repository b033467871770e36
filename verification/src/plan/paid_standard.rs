//! The paid standard plan: every cell is translated.
use vstd::prelude::*;

use crate::plan::{CellScope, PlanPolicy};

verus! {

#[derive(Debug, Clone, Copy)]
pub struct PaidStandardPlan;

impl PlanPolicy for PaidStandardPlan {
    open spec fn spec_id(&self) -> Seq<char> {
        "paid_standard"@
    }

    open spec fn spec_cell_scope(&self) -> CellScope {
        CellScope::Full
    }

    open spec fn spec_billing_enabled(&self) -> bool {
        false
    }

    fn id(&self) -> (r: &'static str) {
        "paid_standard"
    }

    fn cell_scope(&self) -> (r: CellScope) {
        CellScope::Full
    }

    fn billing_enabled(&self) -> (r: bool) {
        false
    }
}

} // verus!
