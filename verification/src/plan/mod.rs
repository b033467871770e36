//! Plans (free / paid) and the range of cells each one translates.
use vstd::prelude::*;

use crate::direction::normalize_id;
use crate::text::{chars_of, lower_vec, trim_vec, eq_vec, string_of};

pub mod free_plan;
pub mod paid_standard;

verus! {

/// The cells a plan translates, by 1-based (col, row).
#[derive(Debug, Clone, Copy, PartialEq, Eq, Structural)]
pub enum CellScope {
    /// Every cell.
    Full,
    /// The rectangle from A1 to column `max_col`, row `max_row`.
    Range { max_row: u32, max_col: u32 },
}

pub open spec fn spec_scope_contains(scope: CellScope, col: u32, row: u32) -> bool {
    match scope {
        CellScope::Full => true,
        CellScope::Range { max_row, max_col } => 1 <= row <= max_row && 1 <= col <= max_col,
    }
}

impl CellScope {
    /// Is the 1-based (col, row) inside the scope?
    pub fn contains(&self, col: u32, row: u32) -> (b: bool)
        ensures
            b == spec_scope_contains(*self, col, row),
    {
        match *self {
            CellScope::Full => true,
            CellScope::Range { max_row, max_col } => row >= 1 && row <= max_row && col >= 1 && col
                <= max_col,
        }
    }
}

pub trait PlanPolicy {
    spec fn spec_id(&self) -> Seq<char>;

    spec fn spec_cell_scope(&self) -> CellScope;

    spec fn spec_billing_enabled(&self) -> bool;

    /// The normalized plan id ("free", "paid_standard").
    fn id(&self) -> (r: &'static str)
        ensures
            r@ == self.spec_id(),
    ;

    fn cell_scope(&self) -> (r: CellScope)
        ensures
            r == self.spec_cell_scope(),
    ;

    /// Whether the plan bills; no plan bills yet.
    fn billing_enabled(&self) -> (r: bool)
        ensures
            r == self.spec_billing_enabled(),
    ;
}

/// A plan that `resolve` can hand out.
#[derive(Debug, Clone, Copy)]
pub enum Plan {
    Free(free_plan::FreePlan),
    PaidStandard(paid_standard::PaidStandardPlan),
}

impl PlanPolicy for Plan {
    open spec fn spec_id(&self) -> Seq<char> {
        match self {
            Plan::Free(p) => p.spec_id(),
            Plan::PaidStandard(p) => p.spec_id(),
        }
    }

    open spec fn spec_cell_scope(&self) -> CellScope {
        match self {
            Plan::Free(p) => p.spec_cell_scope(),
            Plan::PaidStandard(p) => p.spec_cell_scope(),
        }
    }

    open spec fn spec_billing_enabled(&self) -> bool {
        match self {
            Plan::Free(p) => p.spec_billing_enabled(),
            Plan::PaidStandard(p) => p.spec_billing_enabled(),
        }
    }

    fn id(&self) -> (r: &'static str) {
        match self {
            Plan::Free(p) => p.id(),
            Plan::PaidStandard(p) => p.id(),
        }
    }

    fn cell_scope(&self) -> (r: CellScope) {
        match self {
            Plan::Free(p) => p.cell_scope(),
            Plan::PaidStandard(p) => p.cell_scope(),
        }
    }

    fn billing_enabled(&self) -> (r: bool) {
        match self {
            Plan::Free(p) => p.billing_enabled(),
            Plan::PaidStandard(p) => p.billing_enabled(),
        }
    }
}

pub open spec fn unknown_plan_message(normalized: Seq<char>) -> Seq<char> {
    "unknown billing_mode=\""@ + normalized + "\" (サポート: free, paid_standard)"@
}

/// Resolves a billing mode: "free" / "experience" / "trial" give the free
/// plan, "paid_standard" / "paid" / "full" the paid one (after trimming and
/// ASCII lowercasing); any other mode is refused.
pub fn resolve(billing_mode: &str) -> (r: Result<Plan, String>)
    ensures
        ({
            let n = normalize_id(billing_mode@);
            if n == "free"@ || n == "experience"@ || n == "trial"@ {
                r matches Ok(p) && p is Free
            } else if n == "paid_standard"@ || n == "paid"@ || n == "full"@ {
                r matches Ok(p) && p is PaidStandard
            } else {
                r matches Err(m) && m@ == unknown_plan_message(n)
            }
        }),
{
    let raw = chars_of(billing_mode);
    let trimmed = trim_vec(&raw);
    let n = lower_vec(&trimmed);
    if eq_vec(&n, &chars_of("free")) || eq_vec(&n, &chars_of("experience")) || eq_vec(&n, &chars_of("trial")) {
        Ok(Plan::Free(free_plan::FreePlan))
    } else if eq_vec(&n, &chars_of("paid_standard")) || eq_vec(&n, &chars_of("paid")) || eq_vec(&n, &chars_of("full")) {
        Ok(Plan::PaidStandard(paid_standard::PaidStandardPlan))
    } else {
        let mut msg = "unknown billing_mode=\"".to_owned();
        msg.append(string_of(&n).as_str());
        msg.append("\" (サポート: free, paid_standard)");
        Err(msg)
    }
}

} // verus!
