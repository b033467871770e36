//! Verified core of the Excel translation-support tool: cell classification,
//! text segmentation, formula literal handling, batching, shared-formula
//! rewriting and the plan / direction rules.
use vstd::prelude::*;

pub mod text;
pub mod adapters;
pub mod audit;
pub mod assoc;
pub mod core1;
pub mod core2;
pub mod decimal;
pub mod direction;
pub mod entry;
pub mod infra;
pub mod plan;
pub mod planning;
pub mod plan_select;
pub mod pricing;
pub mod protect_sanity_check;
pub mod ui_formula_probe;

verus! {
} // verus!
