//! Whether a cell gets translation candidates at all.
use vstd::prelude::*;

use crate::core1::text_structure_analyzer::{
    kana_count, kanji_count, lemma_count_of_bound, spec_is_cjk, spec_is_kana, spec_text_structure, TextStructure,
};
use crate::core2::structure_types::LogicalCellKind;

verus! {

#[derive(Debug, Clone)]
pub struct TranslationPolicyDecision {
    pub translate_candidates: bool,
    pub note: String,
}

/// Japanese text worth translating: one kanji or three kana.
pub open spec fn has_translatable_jp(s: TextStructure) -> bool {
    s.kanji_count >= 1 || s.kana_kana_count >= 3
}

/// Candidates are generated only for text cells and for (non-follower)
/// formula cells that hold translatable Japanese text.
pub open spec fn spec_translate_candidates(kind: LogicalCellKind, s: TextStructure) -> bool {
    match kind {
        LogicalCellKind::Text | LogicalCellKind::FormulaRaw
        | LogicalCellKind::SharedFormulaParent => has_translatable_jp(s),
        _ => false,
    }
}

pub open spec fn spec_policy_note(kind: LogicalCellKind, s: TextStructure) -> Seq<char> {
    match kind {
        LogicalCellKind::Empty | LogicalCellKind::NonTranslatable => "empty/non-translatable cell"@,
        LogicalCellKind::SharedFormulaFollower => "shared formula follower -> candidate translation skipped (parent/group driven)"@,
        LogicalCellKind::FormulaRaw | LogicalCellKind::SharedFormulaParent => if has_translatable_jp(s) {
            "formula cell -> candidates enabled"@
        } else {
            "formula cell without translatable JP text -> preserve"@
        },
        LogicalCellKind::Date => "date cell -> preserve"@,
        LogicalCellKind::Number => "number cell -> preserve"@,
        LogicalCellKind::HyperlinkText => "hyperlink cell -> preserve"@,
        LogicalCellKind::Text => if has_translatable_jp(s) {
            "text cell -> candidates enabled"@
        } else {
            "text cell without translatable JP text -> preserve"@
        },
    }
}

pub fn decide_translation_policy(cell_kind: LogicalCellKind, structure: &TextStructure) -> (r: TranslationPolicyDecision)
    ensures
        r.translate_candidates == spec_translate_candidates(cell_kind, *structure),
        r.note@ == spec_policy_note(cell_kind, *structure),
{
    let jp = structure.kanji_count >= 1 || structure.kana_kana_count >= 3;
    match cell_kind {
        LogicalCellKind::Empty | LogicalCellKind::NonTranslatable => TranslationPolicyDecision {
            translate_candidates: false,
            note: "empty/non-translatable cell".to_owned(),
        },
        LogicalCellKind::SharedFormulaFollower => TranslationPolicyDecision {
            translate_candidates: false,
            note: "shared formula follower -> candidate translation skipped (parent/group driven)".to_owned(),
        },
        LogicalCellKind::FormulaRaw | LogicalCellKind::SharedFormulaParent => {
            if jp {
                TranslationPolicyDecision {
                    translate_candidates: true,
                    note: "formula cell -> candidates enabled".to_owned(),
                }
            } else {
                TranslationPolicyDecision {
                    translate_candidates: false,
                    note: "formula cell without translatable JP text -> preserve".to_owned(),
                }
            }
        },
        LogicalCellKind::Date => TranslationPolicyDecision {
            translate_candidates: false,
            note: "date cell -> preserve".to_owned(),
        },
        LogicalCellKind::Number => TranslationPolicyDecision {
            translate_candidates: false,
            note: "number cell -> preserve".to_owned(),
        },
        LogicalCellKind::HyperlinkText => TranslationPolicyDecision {
            translate_candidates: false,
            note: "hyperlink cell -> preserve".to_owned(),
        },
        LogicalCellKind::Text => {
            if jp {
                TranslationPolicyDecision {
                    translate_candidates: true,
                    note: "text cell -> candidates enabled".to_owned(),
                }
            } else {
                TranslationPolicyDecision {
                    translate_candidates: false,
                    note: "text cell without translatable JP text -> preserve".to_owned(),
                }
            }
        },
    }
}

/// Only text and (non-follower) formula cells get candidates, and exactly
/// when their text holds a kanji or at least three kana; dates, numbers,
/// hyperlink text, empty cells and shared-formula followers never do.
pub proof fn law_candidates_only_for_japanese_text(kind: LogicalCellKind, t: Seq<char>)
    requires
        t.len() <= usize::MAX,
    ensures
        (kind == LogicalCellKind::Text || kind == LogicalCellKind::FormulaRaw || kind
            == LogicalCellKind::SharedFormulaParent) ==> (spec_translate_candidates(kind, spec_text_structure(t))
            <==> (kanji_count(t) >= 1 || kana_count(t) >= 3)),
        (kind == LogicalCellKind::Date || kind == LogicalCellKind::Number || kind == LogicalCellKind::HyperlinkText
            || kind == LogicalCellKind::Empty || kind == LogicalCellKind::NonTranslatable || kind
            == LogicalCellKind::SharedFormulaFollower) ==> !spec_translate_candidates(kind, spec_text_structure(t)),
{
    lemma_count_of_bound(t, |c: char| spec_is_kana(c));
    lemma_count_of_bound(t, |c: char| spec_is_cjk(c));
}

} // verus!
