//! The vi2ja direction.
use vstd::prelude::*;

use crate::adapters::types::Lang;
use crate::core1::text_structure_analyzer::{
    analyze_text_structure, lemma_count_of_bound, lemma_count_of_pos, spec_text_structure, spec_is_vietnamese_diacritic, TextStructure,
};
use crate::direction::DirectionProfile;

verus! {

#[derive(Debug, Clone, Copy)]
pub struct ViJaProfile;

impl DirectionProfile for ViJaProfile {
    open spec fn spec_id(&self) -> Seq<char> {
        "vi2ja"@
    }

    open spec fn spec_lang_pair(&self) -> (Lang, Lang) {
        (Lang::Vi, Lang::Ja)
    }

    /// At least one Vietnamese-specific letter.
    open spec fn spec_should_translate_structure(&self, s: TextStructure) -> bool {
        s.viet_diacritic_count >= 1
    }

    fn id(&self) -> (r: &'static str) {
        "vi2ja"
    }

    fn lang_pair(&self) -> (r: (Lang, Lang)) {
        (Lang::Vi, Lang::Ja)
    }

    fn should_translate_by_text(&self, text: &str) -> (r: bool) {
        let s = analyze_text_structure(text);
        s.viet_diacritic_count >= 1
    }

    fn should_translate_by_text_structure(&self, s: &TextStructure) -> (r: bool) {
        s.viet_diacritic_count >= 1
    }
}

/// Which texts are sent from Vietnamese into Japanese: exactly those with
/// at least one Vietnamese-specific letter.
pub proof fn law_vi_ja_target_texts(t: Seq<char>)
    requires
        t.len() <= usize::MAX,
    ensures
        ViJaProfile.spec_should_translate_structure(spec_text_structure(t)) <==> exists|i: int|
            0 <= i < t.len() && spec_is_vietnamese_diacritic(t[i]),
{
    lemma_count_of_bound(t, |c: char| spec_is_vietnamese_diacritic(c));
    lemma_count_of_pos(t, |c: char| spec_is_vietnamese_diacritic(c));
}

} // verus!
