//! The decisions of the generate step after the candidates are made: which
//! text each cell shows by default.
use vstd::prelude::*;

use crate::core1::default_select::{decide_default_select, opt_view, spec_default_select};
use crate::core1::text_structure_analyzer::{analyze_text_structure, spec_text_structure};
use crate::core1::translation_policy::TranslationPolicyDecision;
use crate::core1::types::{CandidateBundle, DefaultSelect};
use crate::core2::structure_types::LogicalCell;
use crate::decimal::{dec, dec_chars};
use crate::direction::DirectionProfile;
use crate::entry::entry_state::EntryError;
use crate::infra::app_error::AppError;
use crate::text::{chars_of, push_all, string_of};

verus! {

pub open spec fn opt_string(o: Option<String>) -> Option<Seq<char>> {
    match o {
        Some(s) => Some(s@),
        None => None,
    }
}

pub open spec fn bundle_mismatch(cells: nat, bundles: nat) -> Seq<char> {
    "candidate bundle count mismatch: cells="@ + dec(cells) + " bundles="@ + dec(bundles)
}

/// The default of each cell, decided again from its candidate 1 now that
/// the bundles are made; as many bundles as cells are expected.
pub fn final_default_selects<D: DirectionProfile>(
    cells: &Vec<LogicalCell>,
    policies: &Vec<TranslationPolicyDecision>,
    bundles: &Vec<CandidateBundle>,
    direction: &D,
) -> (r: Result<Vec<DefaultSelect>, EntryError>)
    requires
        policies@.len() == cells@.len(),
    ensures
        bundles@.len() != cells@.len() ==> (r matches Err(EntryError::Internal(m)) && m@ == bundle_mismatch(
            cells@.len(),
            bundles@.len(),
        )),
        bundles@.len() == cells@.len() ==> (r matches Ok(v) && v@.len() == cells@.len() && forall|i: int|
            0 <= i < cells@.len() ==> #[trigger] v@[i] == spec_default_select(
                cells@[i].cell_kind,
                spec_text_structure(cells@[i].source_text@),
                policies@[i].translate_candidates,
                opt_string(bundles@[i].candidate1),
                cells@[i].source_text@,
                *direction,
            )),
{
    if bundles.len() != cells.len() {
        let mut m = chars_of("candidate bundle count mismatch: cells=");
        push_all(&mut m, &dec_chars(cells.len()));
        push_all(&mut m, &chars_of(" bundles="));
        push_all(&mut m, &dec_chars(bundles.len()));
        return Err(EntryError::Internal(string_of(&m)));
    }
    let mut out: Vec<DefaultSelect> = Vec::new();
    let mut i: usize = 0;
    while i < cells.len()
        invariant
            i <= cells.len(),
            policies@.len() == cells@.len(),
            bundles@.len() == cells@.len(),
            out@.len() == i,
            forall|j: int|
                0 <= j < i ==> #[trigger] out@[j] == spec_default_select(
                    cells@[j].cell_kind,
                    spec_text_structure(cells@[j].source_text@),
                    policies@[j].translate_candidates,
                    opt_string(bundles@[j].candidate1),
                    cells@[j].source_text@,
                    *direction,
                ),
        decreases cells.len() - i,
    {
        let cell = &cells[i];
        let structure = analyze_text_structure(cell.source_text.as_str());
        let c1: Option<&str> = match &bundles[i].candidate1 {
            Some(t) => Some(t.as_str()),
            None => None,
        };
        proof {
            assert(opt_view(c1) == opt_string(bundles@[i as int].candidate1));
        }
        let d = decide_default_select(
            cell.cell_kind,
            &structure,
            policies[i].translate_candidates,
            c1,
            cell.source_text.as_str(),
            direction,
        );
        out.push(d);
        i += 1;
    }
    Ok(out)
}


/// The pipeline error that an entry error becomes: leaving or going back
/// outside the selection loop is reported as an internal error, an
/// internal error keeps its message.
pub fn convert_entry_error(error: EntryError) -> (r: AppError)
    ensures
        match error {
            EntryError::UserExit => r matches AppError::Internal(m) && m@ == "user exited generate pipeline"@,
            EntryError::UserBack => r matches AppError::Internal(m) && m@
                == "unexpected user back outside sheet selection loop"@,
            EntryError::Internal(msg) => r matches AppError::Internal(m) && m@ == msg@,
        },
{
    match error {
        EntryError::UserExit => AppError::Internal("user exited generate pipeline".to_owned()),
        EntryError::UserBack => AppError::Internal("unexpected user back outside sheet selection loop".to_owned()),
        EntryError::Internal(message) => AppError::Internal(message),
    }
}

} // verus!
