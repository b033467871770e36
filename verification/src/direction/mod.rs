//! Translation directions. A direction fixes the language pair and decides,
//! from the source text, whether a text is worth translating.
use vstd::prelude::*;

use crate::adapters::types::Lang;
use crate::core1::text_structure_analyzer::TextStructure;
use crate::text::{chars_of, lower_vec, lower_seq, trim_vec, trim_seq, eq_vec, string_of};

pub mod ja_vi;
pub mod ja_zh;
pub mod vi_ja;
pub mod zh_ja;

verus! {

pub trait DirectionProfile {
    spec fn spec_id(&self) -> Seq<char>;

    spec fn spec_lang_pair(&self) -> (Lang, Lang);

    /// Whether a text with these measurements is a translation target.
    spec fn spec_should_translate_structure(&self, s: TextStructure) -> bool;

    /// The normalized direction id (for example "ja2zh").
    fn id(&self) -> (r: &'static str)
        ensures
            r@ == self.spec_id(),
    ;

    /// (source language, target language).
    fn lang_pair(&self) -> (r: (Lang, Lang))
        ensures
            r == self.spec_lang_pair(),
    ;

    /// Whether `text` is a translation target in this direction.
    fn should_translate_by_text(&self, text: &str) -> (r: bool)
        ensures
            r == self.spec_should_translate_structure(
                crate::core1::text_structure_analyzer::spec_text_structure(text@),
            ),
    ;

    /// The same decision, from measurements already taken.
    fn should_translate_by_text_structure(&self, s: &TextStructure) -> (r: bool)
        ensures
            r == self.spec_should_translate_structure(*s),
    ;
}

/// A direction that `resolve` can hand out.
#[derive(Debug, Clone, Copy)]
pub enum Direction {
    JaZh(ja_zh::JaZhProfile),
    ZhJa(zh_ja::ZhJaProfile),
}

impl DirectionProfile for Direction {
    open spec fn spec_id(&self) -> Seq<char> {
        match self {
            Direction::JaZh(p) => p.spec_id(),
            Direction::ZhJa(p) => p.spec_id(),
        }
    }

    open spec fn spec_lang_pair(&self) -> (Lang, Lang) {
        match self {
            Direction::JaZh(p) => p.spec_lang_pair(),
            Direction::ZhJa(p) => p.spec_lang_pair(),
        }
    }

    open spec fn spec_should_translate_structure(&self, s: TextStructure) -> bool {
        match self {
            Direction::JaZh(p) => p.spec_should_translate_structure(s),
            Direction::ZhJa(p) => p.spec_should_translate_structure(s),
        }
    }

    fn id(&self) -> (r: &'static str) {
        match self {
            Direction::JaZh(p) => p.id(),
            Direction::ZhJa(p) => p.id(),
        }
    }

    fn lang_pair(&self) -> (r: (Lang, Lang)) {
        match self {
            Direction::JaZh(p) => p.lang_pair(),
            Direction::ZhJa(p) => p.lang_pair(),
        }
    }

    fn should_translate_by_text(&self, text: &str) -> (r: bool) {
        match self {
            Direction::JaZh(p) => p.should_translate_by_text(text),
            Direction::ZhJa(p) => p.should_translate_by_text(text),
        }
    }

    fn should_translate_by_text_structure(&self, s: &TextStructure) -> (r: bool) {
        match self {
            Direction::JaZh(p) => p.should_translate_by_text_structure(s),
            Direction::ZhJa(p) => p.should_translate_by_text_structure(s),
        }
    }
}

/// Trimmed, ASCII-lowercased form of an id, as `resolve` compares it.
pub open spec fn normalize_id(s: Seq<char>) -> Seq<char> {
    lower_seq(trim_seq(s))
}

/// The message `resolve` fails with for an unknown id.
pub open spec fn unknown_direction_message(normalized: Seq<char>) -> Seq<char> {
    "unknown direction_id=\""@ + normalized + "\" (サポートする方向: ja2zh, zh2ja)"@
}

/// Resolves a direction id: "ja2zh" / "ja_zh" / "jazh" give ja2zh,
/// "zh2ja" / "zh_ja" / "zhja" give zh2ja (after trimming and ASCII
/// lowercasing); any other id is refused.
pub fn resolve(direction_id: &str) -> (r: Result<Direction, String>)
    ensures
        ({
            let n = normalize_id(direction_id@);
            if n == "ja2zh"@ || n == "ja_zh"@ || n == "jazh"@ {
                r matches Ok(d) && d is JaZh
            } else if n == "zh2ja"@ || n == "zh_ja"@ || n == "zhja"@ {
                r matches Ok(d) && d is ZhJa
            } else {
                r matches Err(m) && m@ == unknown_direction_message(n)
            }
        }),
{
    let raw = chars_of(direction_id);
    let trimmed = trim_vec(&raw);
    let n = lower_vec(&trimmed);
    if eq_vec(&n, &chars_of("ja2zh")) || eq_vec(&n, &chars_of("ja_zh")) || eq_vec(&n, &chars_of("jazh")) {
        Ok(Direction::JaZh(ja_zh::JaZhProfile))
    } else if eq_vec(&n, &chars_of("zh2ja")) || eq_vec(&n, &chars_of("zh_ja")) || eq_vec(&n, &chars_of("zhja")) {
        Ok(Direction::ZhJa(zh_ja::ZhJaProfile))
    } else {
        let mut msg = "unknown direction_id=\"".to_owned();
        msg.append(string_of(&n).as_str());
        msg.append("\" (サポートする方向: ja2zh, zh2ja)");
        Err(msg)
    }
}

} // verus!
