//! The default choice shown for a cell before the user picks one.
use vstd::prelude::*;

use crate::core1::text_structure_analyzer::TextStructure;
use crate::core1::types::DefaultSelect;
use crate::core2::structure_types::LogicalCellKind;
use crate::direction::DirectionProfile;
use crate::text::{chars_of, trim_vec, eq_vec, trim_seq};

verus! {

pub open spec fn is_formula_kind(kind: LogicalCellKind) -> bool {
    kind == LogicalCellKind::FormulaRaw || kind == LogicalCellKind::SharedFormulaParent
        || kind == LogicalCellKind::SharedFormulaFollower
}

/// Candidate 1 repeats the original (ignoring surrounding white space).
pub open spec fn same_as_original(c1: Option<Seq<char>>, original: Seq<char>) -> bool {
    c1 matches Some(c) && trim_seq(c).len() > 0 && trim_seq(c) == trim_seq(original)
}

/// The rules, in order: no candidates -> Original; formula cells ->
/// Original; candidate 1 equal to the original -> Original; text worth
/// translating in this direction -> Candidate1; otherwise Original.
pub open spec fn spec_default_select<D: DirectionProfile>(
    kind: LogicalCellKind,
    structure: TextStructure,
    translate_candidates: bool,
    c1: Option<Seq<char>>,
    original: Seq<char>,
    direction: D,
) -> DefaultSelect {
    if !translate_candidates {
        DefaultSelect::Original
    } else if is_formula_kind(kind) {
        DefaultSelect::Original
    } else if same_as_original(c1, original) {
        DefaultSelect::Original
    } else if direction.spec_should_translate_structure(structure) {
        DefaultSelect::Candidate1
    } else {
        DefaultSelect::Original
    }
}

pub open spec fn opt_view(o: Option<&str>) -> Option<Seq<char>> {
    match o {
        Some(s) => Some(s@),
        None => None,
    }
}

pub fn decide_default_select<D: DirectionProfile>(
    cell_kind: LogicalCellKind,
    structure: &TextStructure,
    translate_candidates: bool,
    candidate1_text: Option<&str>,
    original_text: &str,
    direction: &D,
) -> (r: DefaultSelect)
    ensures
        r == spec_default_select(
            cell_kind,
            *structure,
            translate_candidates,
            opt_view(candidate1_text),
            original_text@,
            *direction,
        ),
{
    if !translate_candidates {
        return DefaultSelect::Original;
    }
    match cell_kind {
        LogicalCellKind::FormulaRaw | LogicalCellKind::SharedFormulaParent
        | LogicalCellKind::SharedFormulaFollower => {
            return DefaultSelect::Original;
        },
        _ => {},
    }
    if let Some(c1) = candidate1_text {
        let c1_trimmed = trim_vec(&chars_of(c1));
        let orig_trimmed = trim_vec(&chars_of(original_text));
        if c1_trimmed.len() > 0 && eq_vec(&c1_trimmed, &orig_trimmed) {
            return DefaultSelect::Original;
        }
    }
    if direction.should_translate_by_text_structure(structure) {
        return DefaultSelect::Candidate1;
    }
    DefaultSelect::Original
}

/// The default shown for a cell: formula cells (plain, shared-formula
/// master or follower) and cells that get no candidates always show the
/// original; a candidate 1 that only repeats the original never becomes the
/// default; and candidate 1 is shown only for text that the direction
/// translates, and always for such text when candidate 1 differs from the
/// original. No other candidate is ever the default here.
pub proof fn law_default_select_keeps_formulas_original<D: DirectionProfile>(
    kind: LogicalCellKind,
    structure: TextStructure,
    translate_candidates: bool,
    c1: Option<Seq<char>>,
    original: Seq<char>,
    direction: D,
)
    ensures
        (kind == LogicalCellKind::FormulaRaw || kind == LogicalCellKind::SharedFormulaParent || kind
            == LogicalCellKind::SharedFormulaFollower) ==> spec_default_select(
            kind,
            structure,
            translate_candidates,
            c1,
            original,
            direction,
        ) == DefaultSelect::Original,
        !translate_candidates ==> spec_default_select(kind, structure, translate_candidates, c1, original, direction)
            == DefaultSelect::Original,
        (c1 matches Some(c) && trim_seq(c).len() > 0 && trim_seq(c) == trim_seq(original)) ==> spec_default_select(
            kind,
            structure,
            translate_candidates,
            c1,
            original,
            direction,
        ) == DefaultSelect::Original,
        spec_default_select(kind, structure, translate_candidates, c1, original, direction) == DefaultSelect::Candidate1
            ==> direction.spec_should_translate_structure(structure),
        spec_default_select(kind, structure, translate_candidates, c1, original, direction) == DefaultSelect::Original
            || spec_default_select(kind, structure, translate_candidates, c1, original, direction)
            == DefaultSelect::Candidate1,
        (translate_candidates && kind != LogicalCellKind::FormulaRaw && kind != LogicalCellKind::SharedFormulaParent
            && kind != LogicalCellKind::SharedFormulaFollower && !(c1 matches Some(c) && trim_seq(c).len() > 0
            && trim_seq(c) == trim_seq(original)) && direction.spec_should_translate_structure(structure))
            ==> spec_default_select(kind, structure, translate_candidates, c1, original, direction)
            == DefaultSelect::Candidate1,
{
}

} // verus!
