//! The decisions of the estimate step: which cells a plan's range keeps,
//! and what the estimate is made from.
use vstd::prelude::*;

use crate::core2::shared_formula_reader::{col_letters_to_number_msg, col_value, split_cell_ref_msg, split_cell_ref_msg_exec};
use crate::core2::structure_types::LogicalCell;
use crate::entry::job_plan_settings::{JobPlanSettings, EXPERIENCE_MAX_COL, EXPERIENCE_MAX_ROW};
use crate::infra::config_loader::TranslatorConfig;
use crate::plan::{spec_scope_contains, CellScope, Plan, PlanPolicy};
use crate::adapters::types::ProviderKind;
use crate::core1::analyzer::CandidateUsageEstimate;

verus! {

broadcast use vstd::seq_lib::group_seq_properties;

/// An address such as `B3` as 1-based (column, row): letters then digits,
/// both present; `None` otherwise, or when a number does not fit a `u32`.
pub open spec fn spec_split_cell_address(a: Seq<char>) -> Option<(u32, u32)> {
    match split_cell_ref_msg(a, Seq::empty()) {
        Err(_) => None,
        Ok((letters, row)) => if col_value(letters) <= u32::MAX {
            Some((col_value(letters) as u32, row as u32))
        } else {
            None
        },
    }
}

pub fn split_cell_address(address: &str) -> (r: Option<(u32, u32)>)
    ensures
        r == spec_split_cell_address(address@),
{
    proof {
        reveal_strlit("");
        assert(""@ =~= Seq::<char>::empty());
    }
    let a = crate::text::chars_of(address);
    proof {
        crate::core2::shared_formula_reader::lemma_split_letters_alpha(a@, ""@);
    }
    let (letters, row) = match split_cell_ref_msg_exec(&a, "") {
        Ok(x) => x,
        Err(_) => return None,
    };
    match col_letters_to_number_msg(&letters, "") {
        Ok(col) => Some((col, row)),
        Err(_) => None,
    }
}

/// Is the address inside the experience range `A1:D5`?
pub open spec fn spec_in_experience_range(a: Seq<char>) -> bool {
    match spec_split_cell_address(a) {
        Some((col, row)) => 1 <= row <= EXPERIENCE_MAX_ROW && 1 <= col <= EXPERIENCE_MAX_COL,
        None => false,
    }
}

pub fn is_in_experience_range(address: &str) -> (b: bool)
    ensures
        b == spec_in_experience_range(address@),
{
    match split_cell_address(address) {
        Some((col, row)) => row >= 1 && row <= EXPERIENCE_MAX_ROW && col >= 1 && col <= EXPERIENCE_MAX_COL,
        None => false,
    }
}

/// Does the scope hold the cell at `address`?
pub open spec fn scope_holds(scope: CellScope, a: Seq<char>) -> bool {
    match spec_split_cell_address(a) {
        Some((col, row)) => spec_scope_contains(scope, col, row),
        None => false,
    }
}

pub fn contains_address(scope: CellScope, address: &str) -> (b: bool)
    ensures
        b == scope_holds(scope, address@),
{
    match split_cell_address(address) {
        Some((col, row)) => scope.contains(col, row),
        None => false,
    }
}

/// The cells the scope holds, in order.
pub open spec fn cells_in(scope: CellScope, cells: Seq<LogicalCell>) -> Seq<LogicalCell>
    decreases cells.len(),
{
    if cells.len() == 0 {
        Seq::empty()
    } else if scope_holds(scope, cells.last().anchor_address@) {
        cells_in(scope, cells.drop_last()).push(cells.last())
    } else {
        cells_in(scope, cells.drop_last())
    }
}

/// The cells a plan's range keeps: all of them for the full scope, else
/// those whose address is inside the range.
pub fn cells_in_scope(cells: Vec<LogicalCell>, scope: CellScope) -> (r: Vec<LogicalCell>)
    ensures
        r@ == match scope {
            CellScope::Full => cells@,
            CellScope::Range { .. } => cells_in(scope, cells@),
        },
{
    if let CellScope::Full = scope {
        return cells;
    }
    let mut out: Vec<LogicalCell> = Vec::new();
    let mut i: usize = 0;
    while i < cells.len()
        invariant
            i <= cells.len(),
            out@ == cells_in(scope, cells@.take(i as int)),
        decreases cells.len() - i,
    {
        proof {
            assert(cells@.take(i + 1).drop_last() =~= cells@.take(i as int));
            assert(cells@.take(i + 1).last() == cells@[i as int]);
        }
        if contains_address(scope, cells[i].anchor_address.as_str()) {
            out.push(crate::core1::analyzer::copy_cell(&cells[i]));
        }
        i += 1;
    }
    proof {
        assert(cells@.take(cells@.len() as int) =~= cells@);
    }
    out
}

proof fn lemma_cells_in_members(scope: CellScope, cells: Seq<LogicalCell>)
    ensures
        forall|i: int|
            0 <= i < cells_in(scope, cells).len() ==> scope_holds(scope, #[trigger] cells_in(scope, cells)[i].anchor_address@),
        forall|j: int|
            0 <= j < cells.len() && scope_holds(scope, cells[j].anchor_address@) ==> cells_in(scope, cells).contains(
                #[trigger] cells[j],
            ),
    decreases cells.len(),
{
    if cells.len() > 0 {
        let prev = cells.drop_last();
        lemma_cells_in_members(scope, prev);
        let r = cells_in(scope, cells);
        assert forall|j: int|
            0 <= j < cells.len() && scope_holds(scope, cells[j].anchor_address@) implies r.contains(#[trigger] cells[j]) by {
            if j < cells.len() - 1 {
                assert(prev[j] == cells[j]);
                let k = choose|k: int| 0 <= k < cells_in(scope, prev).len() && cells_in(scope, prev)[k] == prev[j];
                assert(r[k] == cells_in(scope, prev)[k]);
            } else {
                assert(r[r.len() - 1] == cells[j]);
            }
        }
    }
}

/// The experience course (the free plan) translates the cells inside
/// A1:D5 and no other: every cell it keeps is inside the range, and every
/// cell inside the range is kept.
pub proof fn law_experience_course_keeps_a1_d5(p: Plan, cells: Seq<LogicalCell>)
    requires
        p is Free,
    ensures
        forall|i: int|
            0 <= i < cells_in(p.spec_cell_scope(), cells).len() ==> spec_in_experience_range(
                #[trigger] cells_in(p.spec_cell_scope(), cells)[i].anchor_address@,
            ),
        forall|j: int|
            0 <= j < cells.len() && spec_in_experience_range(cells[j].anchor_address@) ==> cells_in(
                p.spec_cell_scope(),
                cells,
            ).contains(#[trigger] cells[j]),
{
    lemma_cells_in_members(p.spec_cell_scope(), cells);
}

/// The provider an enabled candidate is estimated with: the plan's, or
/// else the configured one; a disabled candidate has none.
pub open spec fn spec_estimate_provider(enabled: bool, planned: Option<ProviderKind>, configured: ProviderKind) -> Option<
    ProviderKind,
> {
    if enabled {
        match planned {
            Some(p) => Some(p),
            None => Some(configured),
        }
    } else {
        None
    }
}

pub fn estimate_provider(plan: &JobPlanSettings, cfg: &TranslatorConfig, candidate_no: u8) -> (r: Option<ProviderKind>)
    ensures
        r == spec_estimate_provider(
            plan.enabled_candidates@.contains(candidate_no),
            if candidate_no == 1 {
                plan.candidate1_provider
            } else if candidate_no == 2 {
                plan.candidate2_provider
            } else {
                plan.candidate3_provider
            },
            if candidate_no == 1 {
                cfg.candidate1_provider
            } else if candidate_no == 2 {
                cfg.candidate2_provider
            } else {
                cfg.candidate3_provider
            },
        ),
{
    let (planned, configured) = if candidate_no == 1 {
        (plan.candidate1_provider, cfg.candidate1_provider)
    } else if candidate_no == 2 {
        (plan.candidate2_provider, cfg.candidate2_provider)
    } else {
        (plan.candidate3_provider, cfg.candidate3_provider)
    };
    if plan.is_enabled(candidate_no) {
        match planned {
            Some(p) => Some(p),
            None => Some(configured),
        }
    } else {
        None
    }
}

/// The configuration a job runs with: each enabled candidate that the plan
/// gives a provider uses that provider.
pub fn apply_plan_providers(cfg: &mut TranslatorConfig, plan: &JobPlanSettings)
    ensures
        final(cfg).candidate1_provider == (if plan.enabled_candidates@.contains(1) && plan.candidate1_provider is Some {
            plan.candidate1_provider->0
        } else {
            old(cfg).candidate1_provider
        }),
        final(cfg).candidate2_provider == (if plan.enabled_candidates@.contains(2) && plan.candidate2_provider is Some {
            plan.candidate2_provider->0
        } else {
            old(cfg).candidate2_provider
        }),
        final(cfg).candidate3_provider == (if plan.enabled_candidates@.contains(3) && plan.candidate3_provider is Some {
            plan.candidate3_provider->0
        } else {
            old(cfg).candidate3_provider
        }),
        final(cfg).batch_max_items == old(cfg).batch_max_items,
        final(cfg).batch_max_chars == old(cfg).batch_max_chars,
        final(cfg).deepl_api_key == old(cfg).deepl_api_key,
        final(cfg).deepl_use_free_endpoint == old(cfg).deepl_use_free_endpoint,
{
    if plan.is_enabled(1) {
        if let Some(p) = plan.candidate1_provider {
            cfg.candidate1_provider = p;
        }
    }
    if plan.is_enabled(2) {
        if let Some(p) = plan.candidate2_provider {
            cfg.candidate2_provider = p;
        }
    }
    if plan.is_enabled(3) {
        if let Some(p) = plan.candidate3_provider {
            cfg.candidate3_provider = p;
        }
    }
}

/// Whether the usage of two sheets adds up, field by field, within `usize`.
pub open spec fn usage_sum_fits(a: CandidateUsageEstimate, b: CandidateUsageEstimate) -> bool {
    &&& a.translatable_cells + b.translatable_cells <= usize::MAX
    &&& a.candidate_units + b.candidate_units <= usize::MAX
    &&& a.candidate1_requests + b.candidate1_requests <= usize::MAX
    &&& a.candidate1_chars + b.candidate1_chars <= usize::MAX
    &&& a.candidate2_requests + b.candidate2_requests <= usize::MAX
    &&& a.candidate2_chars + b.candidate2_chars <= usize::MAX
    &&& a.candidate3_requests + b.candidate3_requests <= usize::MAX
    &&& a.candidate3_chars + b.candidate3_chars <= usize::MAX
}

/// The job's usage so far plus one more sheet's, field by field; `None`
/// when a total would not fit in `usize`.
pub fn add_sheet_usage(total: &CandidateUsageEstimate, sheet: &CandidateUsageEstimate) -> (r: Option<
    CandidateUsageEstimate,
>)
    ensures
        r is Some <==> usage_sum_fits(*total, *sheet),
        r matches Some(t) ==> {
            &&& t.translatable_cells == total.translatable_cells + sheet.translatable_cells
            &&& t.candidate_units == total.candidate_units + sheet.candidate_units
            &&& t.candidate1_requests == total.candidate1_requests + sheet.candidate1_requests
            &&& t.candidate1_chars == total.candidate1_chars + sheet.candidate1_chars
            &&& t.candidate2_requests == total.candidate2_requests + sheet.candidate2_requests
            &&& t.candidate2_chars == total.candidate2_chars + sheet.candidate2_chars
            &&& t.candidate3_requests == total.candidate3_requests + sheet.candidate3_requests
            &&& t.candidate3_chars == total.candidate3_chars + sheet.candidate3_chars
        },
{
    let translatable_cells = total.translatable_cells.checked_add(sheet.translatable_cells)?;
    let candidate_units = total.candidate_units.checked_add(sheet.candidate_units)?;
    let candidate1_requests = total.candidate1_requests.checked_add(sheet.candidate1_requests)?;
    let candidate1_chars = total.candidate1_chars.checked_add(sheet.candidate1_chars)?;
    let candidate2_requests = total.candidate2_requests.checked_add(sheet.candidate2_requests)?;
    let candidate2_chars = total.candidate2_chars.checked_add(sheet.candidate2_chars)?;
    let candidate3_requests = total.candidate3_requests.checked_add(sheet.candidate3_requests)?;
    let candidate3_chars = total.candidate3_chars.checked_add(sheet.candidate3_chars)?;
    Some(
        CandidateUsageEstimate {
            translatable_cells,
            candidate_units,
            candidate1_requests,
            candidate1_chars,
            candidate2_requests,
            candidate2_chars,
            candidate3_requests,
            candidate3_chars,
        },
    )
}

} // verus!
