//! The ja2zh direction.
use vstd::prelude::*;

use crate::adapters::types::Lang;
use crate::core1::text_structure_analyzer::{
    analyze_text_structure, kana_count, kanji_count, lemma_count_of_bound, lemma_count_of_pos, spec_is_cjk, spec_text_structure, TextStructure,
};
use crate::direction::DirectionProfile;

verus! {

#[derive(Debug, Clone, Copy)]
pub struct JaZhProfile;

impl DirectionProfile for JaZhProfile {
    open spec fn spec_id(&self) -> Seq<char> {
        "ja2zh"@
    }

    open spec fn spec_lang_pair(&self) -> (Lang, Lang) {
        (Lang::Ja, Lang::Zh)
    }

    /// At least one kanji, or at least three kana.
    open spec fn spec_should_translate_structure(&self, s: TextStructure) -> bool {
        s.kanji_count >= 1 || s.kana_kana_count >= 3
    }

    fn id(&self) -> (r: &'static str) {
        "ja2zh"
    }

    fn lang_pair(&self) -> (r: (Lang, Lang)) {
        (Lang::Ja, Lang::Zh)
    }

    fn should_translate_by_text(&self, text: &str) -> (r: bool) {
        let s = analyze_text_structure(text);
        s.kanji_count >= 1 || s.kana_kana_count >= 3
    }

    fn should_translate_by_text_structure(&self, s: &TextStructure) -> (r: bool) {
        s.kanji_count >= 1 || s.kana_kana_count >= 3
    }
}

/// Which texts are sent from Japanese into Chinese: a text with at least one kanji, or with at
/// least three kana (hiragana or katakana) even without any kanji; a text
/// with no kanji and fewer than three kana is not.
pub proof fn law_ja_zh_target_texts(t: Seq<char>)
    requires
        t.len() <= usize::MAX,
    ensures
        kana_count(t) >= 3 ==> JaZhProfile.spec_should_translate_structure(spec_text_structure(t)),
        (exists|i: int| 0 <= i < t.len() && spec_is_cjk(t[i])) ==> JaZhProfile.spec_should_translate_structure(
            spec_text_structure(t),
        ),
        kanji_count(t) == 0 && kana_count(t) < 3 ==> !JaZhProfile.spec_should_translate_structure(
            spec_text_structure(t),
        ),
{
    lemma_count_of_bound(t, |c: char| crate::core1::text_structure_analyzer::spec_is_kana(c));
    lemma_count_of_bound(t, |c: char| spec_is_cjk(c));
    lemma_count_of_pos(t, |c: char| spec_is_cjk(c));
}

} // verus!
