//! The zh2ja direction.
use vstd::prelude::*;

use crate::adapters::types::Lang;
use crate::core1::text_structure_analyzer::{
    analyze_text_structure, lemma_count_of_bound, lemma_count_of_pos, spec_is_cjk, spec_text_structure, TextStructure,
};
use crate::direction::DirectionProfile;

verus! {

#[derive(Debug, Clone, Copy)]
pub struct ZhJaProfile;

impl DirectionProfile for ZhJaProfile {
    open spec fn spec_id(&self) -> Seq<char> {
        "zh2ja"@
    }

    open spec fn spec_lang_pair(&self) -> (Lang, Lang) {
        (Lang::Zh, Lang::Ja)
    }

    /// At least one CJK ideograph.
    open spec fn spec_should_translate_structure(&self, s: TextStructure) -> bool {
        s.kanji_count >= 1
    }

    fn id(&self) -> (r: &'static str) {
        "zh2ja"
    }

    fn lang_pair(&self) -> (r: (Lang, Lang)) {
        (Lang::Zh, Lang::Ja)
    }

    fn should_translate_by_text(&self, text: &str) -> (r: bool) {
        let s = analyze_text_structure(text);
        s.kanji_count >= 1
    }

    fn should_translate_by_text_structure(&self, s: &TextStructure) -> (r: bool) {
        s.kanji_count >= 1
    }
}

/// Which texts are sent from Chinese into Japanese: exactly those with at
/// least one CJK ideograph; kana alone never make a text a target.
pub proof fn law_zh_ja_target_texts(t: Seq<char>)
    requires
        t.len() <= usize::MAX,
    ensures
        ZhJaProfile.spec_should_translate_structure(spec_text_structure(t)) <==> exists|i: int|
            0 <= i < t.len() && spec_is_cjk(t[i]),
{
    lemma_count_of_bound(t, |c: char| spec_is_cjk(c));
    lemma_count_of_pos(t, |c: char| spec_is_cjk(c));
}

} // verus!
