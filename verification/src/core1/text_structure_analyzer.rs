//! Per-character measurement of a cell text: kana, kanji and Vietnamese letters.
use vstd::prelude::*;

use crate::text::chars_of;

verus! {

pub open spec fn spec_is_hiragana(c: char) -> bool {
    0x3040 <= c as u32 && c as u32 <= 0x309F
}

pub open spec fn spec_is_katakana(c: char) -> bool {
    0x30A0 <= c as u32 && c as u32 <= 0x30FF
}

pub open spec fn spec_is_kana(c: char) -> bool {
    spec_is_hiragana(c) || spec_is_katakana(c)
}

pub open spec fn spec_is_cjk(c: char) -> bool {
    0x4E00 <= c as u32 && c as u32 <= 0x9FFF
}

pub open spec fn spec_is_japanese_like(c: char) -> bool {
    spec_is_kana(c) || spec_is_cjk(c)
}

/// Vietnamese letters: đ ă â ê ô ơ ư (both cases) and the precomposed toned
/// vowels U+1EA0..=U+1EF9.
pub open spec fn spec_is_vietnamese_diacritic(c: char) -> bool {
    ||| c == 'đ' || c == 'Đ' || c == 'ă' || c == 'Ă' || c == 'â' || c == 'Â' || c == 'ê'
    ||| c == 'Ê' || c == 'ô' || c == 'Ô' || c == 'ơ' || c == 'Ơ' || c == 'ư' || c == 'Ư'
    ||| (0x1EA0 <= c as u32 && c as u32 <= 0x1EF9)
}

/// Number of characters of `s` that satisfy `p`.
pub open spec fn count_of(s: Seq<char>, p: spec_fn(char) -> bool) -> nat
    decreases s.len(),
{
    if s.len() == 0 {
        0
    } else {
        count_of(s.drop_last(), p) + if p(s.last()) {
            1nat
        } else {
            0nat
        }
    }
}

pub proof fn lemma_count_of_bound(s: Seq<char>, p: spec_fn(char) -> bool)
    ensures
        count_of(s, p) <= s.len(),
    decreases s.len(),
{
    if s.len() > 0 {
        lemma_count_of_bound(s.drop_last(), p);
    }
}

/// A count is positive exactly when some character satisfies `p`.
pub proof fn lemma_count_of_pos(s: Seq<char>, p: spec_fn(char) -> bool)
    ensures
        count_of(s, p) > 0 <==> exists|i: int| 0 <= i < s.len() && p(s[i]),
    decreases s.len(),
{
    if s.len() > 0 {
        lemma_count_of_pos(s.drop_last(), p);
        if exists|i: int| 0 <= i < s.len() && p(s[i]) {
            let i = choose|i: int| 0 <= i < s.len() && p(s[i]);
            if i < s.len() - 1 {
                assert(s.drop_last()[i] == s[i]);
            }
        }
        if exists|i: int| 0 <= i < s.drop_last().len() && p(s.drop_last()[i]) {
            let i = choose|i: int| 0 <= i < s.drop_last().len() && p(s.drop_last()[i]);
            assert(s[i] == s.drop_last()[i]);
        }
    }
}

pub open spec fn kana_count(s: Seq<char>) -> nat {
    count_of(s, |c: char| spec_is_kana(c))
}

pub open spec fn kanji_count(s: Seq<char>) -> nat {
    count_of(s, |c: char| spec_is_cjk(c))
}

pub open spec fn viet_count(s: Seq<char>) -> nat {
    count_of(s, |c: char| spec_is_vietnamese_diacritic(c))
}

/// Measurements of one text.
#[derive(Debug, Clone, Copy)]
pub struct TextStructure {
    pub kana_kana_count: usize,
    pub kanji_count: usize,
    pub contains_japanese_like: bool,
    /// Count of Vietnamese-specific letters (see `is_vietnamese_diacritic`).
    pub viet_diacritic_count: usize,
}

/// The measurement that `analyze_text_structure` gives for `s`.
pub open spec fn spec_text_structure(s: Seq<char>) -> TextStructure {
    TextStructure {
        kana_kana_count: kana_count(s) as usize,
        kanji_count: kanji_count(s) as usize,
        contains_japanese_like: kana_count(s) + kanji_count(s) > 0,
        viet_diacritic_count: viet_count(s) as usize,
    }
}

/// Counts kana, kanji and Vietnamese letters of `text`; the text is
/// Japanese-like when it holds at least one kana or kanji.
pub fn analyze_text_structure(text: &str) -> (out: TextStructure)
    ensures
        out == spec_text_structure(text@),
        out.contains_japanese_like <==> exists|i: int|
            0 <= i < text@.len() && spec_is_japanese_like(#[trigger] text@[i]),
{
    let v = chars_of(text);
    let mut out = TextStructure {
        kana_kana_count: 0,
        kanji_count: 0,
        contains_japanese_like: false,
        viet_diacritic_count: 0,
    };
    let ghost pk = |c: char| spec_is_kana(c);
    let ghost pj = |c: char| spec_is_cjk(c);
    let ghost pv = |c: char| spec_is_vietnamese_diacritic(c);
    let mut i: usize = 0;
    while i < v.len()
        invariant
            i <= v.len(),
            v@ == text@,
            out.kana_kana_count == count_of(v@.take(i as int), pk),
            out.kanji_count == count_of(v@.take(i as int), pj),
            out.viet_diacritic_count == count_of(v@.take(i as int), pv),
            out.contains_japanese_like == (out.kana_kana_count + out.kanji_count > 0),
            out.kana_kana_count + out.kanji_count <= i,
            out.viet_diacritic_count <= i,
            pk == (|c: char| spec_is_kana(c)),
            pj == (|c: char| spec_is_cjk(c)),
            pv == (|c: char| spec_is_vietnamese_diacritic(c)),
        decreases v.len() - i,
    {
        let ch = v[i];
        proof {
            assert(v@.take(i + 1).drop_last() =~= v@.take(i as int));
            assert(v@.take(i + 1).last() == ch);
        }
        if is_hiragana(ch) || is_katakana(ch) {
            out.kana_kana_count += 1;
            out.contains_japanese_like = true;
        } else if is_cjk(ch) {
            out.kanji_count += 1;
            out.contains_japanese_like = true;
        }
        if is_vietnamese_diacritic(ch) {
            out.viet_diacritic_count += 1;
        }
        i += 1;
    }
    proof {
        assert(v@.take(v@.len() as int) =~= v@);
        lemma_count_of_pos(text@, pk);
        lemma_count_of_pos(text@, pj);
        if exists|i: int| 0 <= i < text@.len() && spec_is_japanese_like(#[trigger] text@[i]) {
            let i = choose|i: int| 0 <= i < text@.len() && spec_is_japanese_like(#[trigger] text@[i]);
            assert(pk(text@[i]) || pj(text@[i]));
        }
    }
    out
}

/// Hiragana, katakana or CJK ideograph.
pub fn is_japanese_like(ch: char) -> (b: bool)
    ensures
        b == spec_is_japanese_like(ch),
{
    is_hiragana(ch) || is_katakana(ch) || is_cjk(ch)
}

/// Letters specific to Vietnamese; plain Latin letters and digits are not.
pub fn is_vietnamese_diacritic(ch: char) -> (b: bool)
    ensures
        b == spec_is_vietnamese_diacritic(ch),
{
    let n = ch as u32;
    ch == 'đ' || ch == 'Đ' || ch == 'ă' || ch == 'Ă' || ch == 'â' || ch == 'Â' || ch == 'ê' || ch
        == 'Ê' || ch == 'ô' || ch == 'Ô' || ch == 'ơ' || ch == 'Ơ' || ch == 'ư' || ch == 'Ư' || (
    0x1EA0 <= n && n <= 0x1EF9)
}

fn is_hiragana(ch: char) -> (b: bool)
    ensures
        b == spec_is_hiragana(ch),
{
    let n = ch as u32;
    0x3040 <= n && n <= 0x309F
}

fn is_katakana(ch: char) -> (b: bool)
    ensures
        b == spec_is_katakana(ch),
{
    let n = ch as u32;
    0x30A0 <= n && n <= 0x30FF
}

fn is_cjk(ch: char) -> (b: bool)
    ensures
        b == spec_is_cjk(ch),
{
    let n = ch as u32;
    0x4E00 <= n && n <= 0x9FFF
}

} // verus!
