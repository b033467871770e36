//! Segmentation of cell text into translatable and kept runs, and the
//! literal-only handling of formulas: string literals are lifted out of a
//! formula into a template, translated, and put back.
use vstd::prelude::*;

use crate::core1::text_structure_analyzer::{is_japanese_like, spec_is_japanese_like};
use crate::core1::types::Segment;
use crate::decimal::{dec, dec_chars, lemma_dec_digits, lemma_parse_dec, parse_unsigned, parse_unsigned_range};
use crate::text::{chars_of, count_char, string_of, trim_start_bound, trim_start_seq};

verus! {

broadcast use vstd::seq_lib::group_seq_properties;

/// Punctuation that joins a Japanese run when it follows a Japanese character.
pub open spec fn spec_is_connector(c: char) -> bool {
    c == '、' || c == '。' || c == '？' || c == '！'
}

/// Whether the character at `i` belongs to a Japanese (translation target) run.
pub open spec fn target_at(s: Seq<char>, i: int) -> bool {
    if spec_is_japanese_like(s[i]) {
        true
    } else if spec_is_connector(s[i]) {
        i > 0 && spec_is_japanese_like(s[i - 1])
    } else {
        false
    }
}

pub open spec fn targets(s: Seq<char>) -> Seq<bool> {
    Seq::new(s.len(), |i: int| target_at(s, i))
}

pub open spec fn seg_texts(v: Seq<Segment>) -> Seq<Seq<char>> {
    Seq::new(v.len(), |k: int| v[k].text@)
}

pub open spec fn seg_flags(v: Seq<Segment>) -> Seq<Seq<bool>> {
    Seq::new(v.len(), |k: int| Seq::new(v[k].text@.len(), |j: int| v[k].target))
}

/// `v` is the split of `s` into maximal runs of equal target flag.
pub open spec fn is_split_of(v: Seq<Segment>, s: Seq<char>) -> bool {
    &&& seg_texts(v).flatten() == s
    &&& seg_flags(v).flatten() == targets(s)
    &&& forall|k: int| 0 <= k < v.len() ==> #[trigger] v[k].text@.len() > 0
    &&& forall|k: int| 0 <= k < v.len() - 1 ==> #[trigger] v[k].target != v[k + 1].target
}

pub open spec fn seg_views(v: Seq<Segment>) -> Seq<(Seq<char>, bool)> {
    Seq::new(v.len(), |k: int| (v[k].text@, v[k].target))
}

/// The runs of `s`, as (text, target) pairs.
pub open spec fn split_views(s: Seq<char>) -> Seq<(Seq<char>, bool)> {
    seg_views(choose|v: Seq<Segment>| is_split_of(v, s))
}

proof fn lemma_flags_drop_first(v: Seq<Segment>)
    requires
        v.len() > 0,
    ensures
        seg_flags(v).drop_first() == seg_flags(v.drop_first()),
        seg_texts(v).drop_first() == seg_texts(v.drop_first()),
{
    assert(seg_flags(v).drop_first() =~= seg_flags(v.drop_first()));
    assert(seg_texts(v).drop_first() =~= seg_texts(v.drop_first()));
}

/// Two run decompositions of the same text with the same flags are equal.
proof fn lemma_split_unique(v1: Seq<Segment>, v2: Seq<Segment>, f: Seq<bool>)
    requires
        seg_texts(v1).flatten() == seg_texts(v2).flatten(),
        seg_flags(v1).flatten() == f,
        seg_flags(v2).flatten() == f,
        forall|k: int| 0 <= k < v1.len() ==> #[trigger] v1[k].text@.len() > 0,
        forall|k: int| 0 <= k < v2.len() ==> #[trigger] v2[k].text@.len() > 0,
        forall|k: int| 0 <= k < v1.len() - 1 ==> #[trigger] v1[k].target != v1[k + 1].target,
        forall|k: int| 0 <= k < v2.len() - 1 ==> #[trigger] v2[k].target != v2[k + 1].target,
    ensures
        seg_views(v1) == seg_views(v2),
    decreases v1.len() + v2.len(),
{
    if v1.len() == 0 || v2.len() == 0 {
        if v1.len() > 0 {
            assert(seg_flags(v1).flatten() == seg_flags(v1)[0] + seg_flags(v1).drop_first().flatten());
            assert(seg_flags(v1)[0].len() > 0);
            assert(seg_flags(v2) =~= Seq::<Seq<bool>>::empty());
            assert(false);
        }
        if v2.len() > 0 {
            assert(seg_flags(v2).flatten() == seg_flags(v2)[0] + seg_flags(v2).drop_first().flatten());
            assert(seg_flags(v2)[0].len() > 0);
            assert(seg_flags(v1) =~= Seq::<Seq<bool>>::empty());
            assert(false);
        }
        assert(seg_views(v1) =~= seg_views(v2));
    } else {
        let f1 = seg_flags(v1);
        let f2 = seg_flags(v2);
        let t1 = seg_texts(v1);
        let t2 = seg_texts(v2);
        lemma_flags_drop_first(v1);
        lemma_flags_drop_first(v2);
        assert(f1.flatten() == f1[0] + f1.drop_first().flatten());
        assert(f2.flatten() == f2[0] + f2.drop_first().flatten());
        assert(t1.flatten() == t1[0] + t1.drop_first().flatten());
        assert(t2.flatten() == t2[0] + t2.drop_first().flatten());
        let l1 = v1[0].text@.len();
        let l2 = v2[0].text@.len();
        assert(f[0] == v1[0].target);
        assert(f[0] == v2[0].target);
        if l1 < l2 {
            assert(f[l1 as int] == v2[0].target);
            if v1.len() == 1 {
                assert(f1.drop_first() =~= Seq::<Seq<bool>>::empty());
                assert(f.len() == l1);
                assert(f.len() >= l2);
                assert(false);
            }
            let r1 = f1.drop_first();
            assert(r1.flatten() == r1[0] + r1.drop_first().flatten());
            assert(r1[0].len() > 0);
            assert(f[l1 as int] == r1[0][0]);
            assert(r1[0][0] == v1[1].target);
            assert(false);
        }
        if l2 < l1 {
            assert(f[l2 as int] == v1[0].target);
            if v2.len() == 1 {
                assert(f2.drop_first() =~= Seq::<Seq<bool>>::empty());
                assert(f.len() == l2);
                assert(false);
            }
            let r2 = f2.drop_first();
            assert(r2.flatten() == r2[0] + r2.drop_first().flatten());
            assert(r2[0].len() > 0);
            assert(f[l2 as int] == r2[0][0]);
            assert(r2[0][0] == v2[1].target);
            assert(false);
        }
        assert(l1 == l2);
        assert(v1[0].text@ =~= t1.flatten().take(l1 as int));
        assert(v2[0].text@ =~= t2.flatten().take(l2 as int));
        assert(t1.drop_first().flatten() =~= t1.flatten().skip(l1 as int));
        assert(t2.drop_first().flatten() =~= t2.flatten().skip(l2 as int));
        assert(f1.drop_first().flatten() =~= f.skip(l1 as int));
        assert(f2.drop_first().flatten() =~= f.skip(l2 as int));
        let w1 = v1.drop_first();
        let w2 = v2.drop_first();
        assert forall|k: int| 0 <= k < w1.len() - 1 implies #[trigger] w1[k].target != w1[k + 1].target by {
            assert(v1[k + 1].target != v1[k + 2].target);
        }
        assert forall|k: int| 0 <= k < w2.len() - 1 implies #[trigger] w2[k].target != w2[k + 1].target by {
            assert(v2[k + 1].target != v2[k + 2].target);
        }
        assert forall|k: int| 0 <= k < w1.len() implies #[trigger] w1[k].text@.len() > 0 by {
            assert(v1[k + 1].text@.len() > 0);
        }
        assert forall|k: int| 0 <= k < w2.len() implies #[trigger] w2[k].text@.len() > 0 by {
            assert(v2[k + 1].text@.len() > 0);
        }
        lemma_split_unique(w1, w2, f.skip(l1 as int));
        assert(seg_views(w1).len() == seg_views(w2).len());
        assert(v1.len() == v2.len());
        assert(v1[0].text@ == v2[0].text@);
        assert forall|k: int| 0 <= k < v1.len() implies seg_views(v1)[k] == seg_views(v2)[k] by {
            if k > 0 {
                assert(w1[k - 1] == v1[k]);
                assert(w2[k - 1] == v2[k]);
                assert(seg_views(w1)[k - 1] == seg_views(w2)[k - 1]);
            }
        }
        assert(seg_views(v1) =~= seg_views(v2));
    }
}

/// The texts of a split are its views' texts.
pub proof fn lemma_split_texts(v: Seq<Segment>, s: Seq<char>)
    requires
        is_split_of(v, s),
        seg_views(v) == split_views(s),
    ensures
        Seq::new(split_views(s).len(), |k: int| split_views(s)[k].0) == seg_texts(v),
{
    assert(Seq::new(split_views(s).len(), |k: int| split_views(s)[k].0) =~= seg_texts(v));
}

fn is_connector(ch: char) -> (b: bool)
    ensures
        b == spec_is_connector(ch),
{
    ch == '、' || ch == '。' || ch == '？' || ch == '！'
}

/// The class of a character for segmentation.
#[derive(Debug, Clone, Copy, PartialEq, Eq, Structural)]
pub enum CharClass {
    Japanese,
    Connector,
    Other,
}

pub open spec fn spec_classify_char(ch: char) -> CharClass {
    if spec_is_japanese_like(ch) {
        CharClass::Japanese
    } else if spec_is_connector(ch) {
        CharClass::Connector
    } else {
        CharClass::Other
    }
}

fn classify_char(ch: char) -> (c: CharClass)
    ensures
        c == spec_classify_char(ch),
{
    if is_japanese_like(ch) {
        CharClass::Japanese
    } else if is_connector(ch) {
        CharClass::Connector
    } else {
        CharClass::Other
    }
}

fn belongs_to_japanese_segment(v: &Vec<char>, i: usize) -> (b: bool)
    requires
        i < v.len(),
    ensures
        b == target_at(v@, i as int),
{
    match classify_char(v[i]) {
        CharClass::Japanese => true,
        CharClass::Connector => i > 0 && is_japanese_like(v[i - 1]),
        CharClass::Other => false,
    }
}

/// Splits `text` into runs: Japanese characters (and the punctuation that
/// follows them) form target runs, everything else non-target runs. The
/// runs are non-empty, alternate in flag, and concatenate back to `text`.
pub fn split_preserving_structure(text: &str) -> (out: Vec<Segment>)
    ensures
        is_split_of(out@, text@),
        seg_views(out@) == split_views(text@),
{
    let v = chars_of(text);
    let ghost s = v@;
    let ghost tg = targets(s);
    let mut out: Vec<Segment> = Vec::new();
    let mut buf: Vec<char> = Vec::new();
    let mut cur: bool = false;
    let mut i: usize = 0;
    while i < v.len()
        invariant
            i <= v.len(),
            s == v@,
            s == text@,
            tg == targets(s),
            i == 0 ==> out@.len() == 0 && buf@.len() == 0,
            i > 0 ==> buf@.len() > 0,
            seg_texts(out@).flatten() + buf@ == s.take(i as int),
            seg_flags(out@).flatten() + Seq::new(buf@.len(), |j: int| cur) == tg.take(i as int),
            forall|k: int| 0 <= k < out@.len() ==> #[trigger] out@[k].text@.len() > 0,
            forall|k: int| 0 <= k < out@.len() - 1 ==> #[trigger] out@[k].target != out@[k + 1].target,
            out@.len() > 0 ==> out@.last().target != cur,
        decreases v.len() - i,
    {
        let target = belongs_to_japanese_segment(&v, i);
        let ch = v[i];
        proof {
            assert(s.take(i + 1) =~= s.take(i as int).push(ch));
            assert(tg.take(i + 1) =~= tg.take(i as int).push(target));
        }
        if i == 0 || target == cur {
            let ghost old_buf = buf@;
            buf.push(ch);
            cur = target;
            proof {
                assert(Seq::new(buf@.len(), |j: int| cur) =~= Seq::new(old_buf.len(), |j: int| cur).push(cur));
            }
        } else {
            let ghost old_out = out@;
            let ghost old_buf = buf@;
            let seg = Segment { text: string_of(&buf), target: cur };
            out.push(seg);
            proof {
                assert(seg_texts(out@) =~= seg_texts(old_out).push(old_buf));
                seg_texts(old_out).lemma_flatten_push(old_buf);
                assert(seg_flags(out@) =~= seg_flags(old_out).push(Seq::new(old_buf.len(), |j: int| cur)));
                seg_flags(old_out).lemma_flatten_push(Seq::new(old_buf.len(), |j: int| cur));
            }
            buf = Vec::new();
            buf.push(ch);
            cur = target;
            proof {
                assert(Seq::new(buf@.len(), |j: int| cur) =~= seq![cur]);
                assert(buf@ =~= seq![ch]);
            }
        }
        i += 1;
    }
    if buf.len() > 0 {
        let ghost old_out = out@;
        let ghost old_buf = buf@;
        let seg = Segment { text: string_of(&buf), target: cur };
        out.push(seg);
        proof {
            assert(seg_texts(out@) =~= seg_texts(old_out).push(old_buf));
            seg_texts(old_out).lemma_flatten_push(old_buf);
            assert(seg_flags(out@) =~= seg_flags(old_out).push(Seq::new(old_buf.len(), |j: int| cur)));
            seg_flags(old_out).lemma_flatten_push(Seq::new(old_buf.len(), |j: int| cur));
        }
    }
    proof {
        assert(s.take(s.len() as int) =~= s);
        assert(tg.take(s.len() as int) =~= tg);
        if out@.len() == 0 {
            assert(seg_texts(out@) =~= Seq::<Seq<char>>::empty());
            assert(seg_flags(out@) =~= Seq::<Seq<bool>>::empty());
        }
        assert(is_split_of(out@, text@));
        let w = choose|w: Seq<Segment>| is_split_of(w, text@);
        lemma_split_unique(out@, w, targets(text@));
    }
    out
}

/// Whether `text` holds a kana or kanji.
pub fn contains_japanese_like(text: &str) -> (b: bool)
    ensures
        b == exists|i: int| 0 <= i < text@.len() && spec_is_japanese_like(#[trigger] text@[i]),
{
    let v = chars_of(text);
    let mut i: usize = 0;
    while i < v.len()
        invariant
            i <= v.len(),
            v@ == text@,
            forall|j: int| 0 <= j < i ==> !spec_is_japanese_like(#[trigger] v@[j]),
        decreases v.len() - i,
    {
        if is_japanese_like(v[i]) {
            return true;
        }
        i += 1;
    }
    false
}

/// A formula text starts with '=' once leading white space is dropped.
pub open spec fn spec_is_formula_text(s: Seq<char>) -> bool {
    trim_start_seq(s).len() > 0 && trim_start_seq(s)[0] == '='
}

pub fn is_formula_text(text: &str) -> (b: bool)
    ensures
        b == spec_is_formula_text(text@),
{
    let v = chars_of(text);
    let lo = trim_start_bound(&v);
    lo < v.len() && v[lo] == '='
}


/// Opens a literal placeholder in a formula template.
pub const LIT_OPEN: char = '\u{E020}';

/// Closes a literal placeholder in a formula template.
pub const LIT_CLOSE: char = '\u{E021}';

/// The views of a sequence of strings.
pub open spec fn str_views(v: Seq<String>) -> Seq<Seq<char>> {
    Seq::new(v.len(), |i: int| v[i]@)
}

/// Reads a string literal whose opening quote stands just before `i`: the
/// literal's text (with `""` read as one quote) and the index after its
/// closing quote (or the end of `s` when it is not closed).
pub open spec fn scan_lit(s: Seq<char>, i: int) -> (Seq<char>, int)
    decreases s.len() - i,
{
    if i < 0 || i >= s.len() {
        (Seq::empty(), i)
    } else if s[i] == '"' {
        if i + 1 < s.len() && s[i + 1] == '"' {
            let r = scan_lit(s, i + 2);
            (seq!['"'] + r.0, r.1)
        } else {
            (Seq::empty(), i + 1)
        }
    } else {
        let r = scan_lit(s, i + 1);
        (seq![s[i]] + r.0, r.1)
    }
}

pub proof fn lemma_scan_lit_next(s: Seq<char>, i: int)
    ensures
        scan_lit(s, i).1 >= i,
        0 <= i <= s.len() ==> scan_lit(s, i).1 <= s.len(),
    decreases s.len() - i,
{
    if 0 <= i < s.len() {
        if s[i] == '"' {
            if i + 1 < s.len() && s[i + 1] == '"' {
                lemma_scan_lit_next(s, i + 2);
            }
        } else {
            lemma_scan_lit_next(s, i + 1);
        }
    }
}

/// The template and the literals of `s` from index `i` on, the next literal
/// being number `k`: each literal is replaced by LIT_OPEN, its number in
/// decimal and LIT_CLOSE.
pub open spec fn spec_extract(s: Seq<char>, i: int, k: nat) -> (Seq<char>, Seq<Seq<char>>)
    decreases s.len() - i,
{
    if i < 0 || i >= s.len() {
        (Seq::empty(), Seq::empty())
    } else if s[i] == '"' {
        let l = scan_lit(s, i + 1);
        proof {
            lemma_scan_lit_next(s, i + 1);
        }
        let r = spec_extract(s, l.1, k + 1);
        (seq![LIT_OPEN] + dec(k) + seq![LIT_CLOSE] + r.0, seq![l.0] + r.1)
    } else {
        let r = spec_extract(s, i + 1, k);
        (seq![s[i]] + r.0, r.1)
    }
}

/// Splits a formula into a template and its string literals.
pub fn extract_quoted_literals(formula: &str) -> (r: (String, Vec<String>))
    ensures
        r.0@ == spec_extract(formula@, 0, 0).0,
        str_views(r.1@) == spec_extract(formula@, 0, 0).1,
{
    let chars = chars_of(formula);
    let ghost s = chars@;
    let ghost whole = spec_extract(s, 0, 0);
    let n = chars.len();
    let mut template: Vec<char> = Vec::new();
    let mut literals: Vec<String> = Vec::new();
    let mut i: usize = 0;
    while i < n
        invariant
            n == chars.len(),
            s == chars@,
            whole == spec_extract(s, 0, 0),
            i <= n,
            template@ + spec_extract(s, i as int, literals@.len() as nat).0 == whole.0,
            str_views(literals@) + spec_extract(s, i as int, literals@.len() as nat).1 == whole.1,
        decreases n - i,
    {
        let ch = chars[i];
        if ch == '"' {
            let ghost k = literals@.len() as nat;
            let ghost l = scan_lit(s, i + 1);
            let ghost start = i;
            proof {
                lemma_scan_lit_next(s, i + 1);
            }
            let mut lit: Vec<char> = Vec::new();
            i += 1;
            let mut done = false;
            while !done && i < n
                invariant
                    n == chars.len(),
                    s == chars@,
                    i <= n,
                    l == scan_lit(s, start + 1),
                    !done ==> lit@ + scan_lit(s, i as int).0 == l.0 && scan_lit(s, i as int).1 == l.1,
                    done ==> lit@ == l.0 && i == l.1,
                decreases n - i,
            {
                if chars[i] == '"' {
                    if i + 1 < n && chars[i + 1] == '"' {
                        lit.push('"');
                        i += 2;
                    } else {
                        i += 1;
                        done = true;
                        proof {
                            assert(lit@ + Seq::<char>::empty() =~= lit@);
                        }
                    }
                } else {
                    let ghost old_lit = lit@;
                    lit.push(chars[i]);
                    proof {
                        assert(old_lit + (seq![s[i as int]] + scan_lit(s, i + 1).0) =~= lit@ + scan_lit(s, i + 1).0);
                    }
                    i += 1;
                }
            }
            proof {
                if !done {
                    assert(lit@ + Seq::<char>::empty() =~= lit@);
                }
            }
            let ghost old_t = template@;
            let ghost old_l = literals@;
            template.push(LIT_OPEN);
            let digits = dec_chars(literals.len());
            let mut d: usize = 0;
            while d < digits.len()
                invariant
                    d <= digits.len(),
                    template@ == old_t.push(LIT_OPEN) + digits@.take(d as int),
                decreases digits.len() - d,
            {
                template.push(digits[d]);
                proof {
                    assert(digits@.take(d + 1) =~= digits@.take(d as int).push(digits@[d as int]));
                }
                d += 1;
            }
            template.push(LIT_CLOSE);
            literals.push(string_of(&lit));
            proof {
                assert(digits@.take(digits@.len() as int) =~= digits@);
                let r = spec_extract(s, l.1, k + 1);
                assert(spec_extract(s, start as int, k) == (seq![LIT_OPEN] + dec(k) + seq![LIT_CLOSE] + r.0, seq![l.0] + r.1));
                assert(template@ =~= old_t + (seq![LIT_OPEN] + dec(k) + seq![LIT_CLOSE]));
                assert(str_views(literals@) =~= str_views(old_l).push(l.0));
                assert(template@ + r.0 =~= old_t + (seq![LIT_OPEN] + dec(k) + seq![LIT_CLOSE] + r.0));
                assert(str_views(literals@) + r.1 =~= str_views(old_l) + (seq![l.0] + r.1));
            }
        } else {
            let ghost old_t = template@;
            template.push(ch);
            proof {
                let r = spec_extract(s, i + 1, literals@.len() as nat);
                assert(template@ + r.0 =~= old_t + (seq![ch] + r.0));
            }
            i += 1;
        }
    }
    proof {
        assert(template@ + Seq::<char>::empty() =~= template@);
        assert(str_views(literals@) + Seq::<Seq<char>>::empty() =~= str_views(literals@));
    }
    (string_of(&template), literals)
}

/// Total length of a list of texts.
pub open spec fn total_len(v: Seq<Seq<char>>) -> nat
    decreases v.len(),
{
    if v.len() == 0 {
        0
    } else {
        total_len(v.drop_last()) + v.last().len()
    }
}

pub proof fn lemma_total_len_front(v: Seq<Seq<char>>)
    requires
        v.len() > 0,
    ensures
        total_len(v) == v[0].len() + total_len(v.drop_first()),
    decreases v.len(),
{
    if v.len() > 1 {
        lemma_total_len_front(v.drop_last());
        assert(v.drop_last().drop_first() =~= v.drop_first().drop_last());
    } else {
        assert(v.drop_last() =~= Seq::<Seq<char>>::empty());
        assert(v.drop_first() =~= Seq::<Seq<char>>::empty());
    }
}

pub proof fn lemma_scan_lit_len(s: Seq<char>, i: int)
    requires
        0 <= i <= s.len(),
    ensures
        scan_lit(s, i).0.len() <= scan_lit(s, i).1 - i,
    decreases s.len() - i,
{
    if i < s.len() {
        if s[i] == '"' {
            if i + 1 < s.len() && s[i + 1] == '"' {
                lemma_scan_lit_len(s, i + 2);
            }
        } else {
            lemma_scan_lit_len(s, i + 1);
        }
    }
}

/// Each literal costs at least its own length plus its opening quote.
pub proof fn lemma_extract_lits_bound(s: Seq<char>, i: int, k: nat)
    requires
        0 <= i <= s.len(),
    ensures
        spec_extract(s, i, k).1.len() + total_len(spec_extract(s, i, k).1) <= s.len() - i,
    decreases s.len() - i,
{
    if i < s.len() {
        if s[i] == '"' {
            lemma_scan_lit_next(s, i + 1);
            lemma_scan_lit_len(s, i + 1);
            let l = scan_lit(s, i + 1);
            lemma_extract_lits_bound(s, l.1, k + 1);
            let r = spec_extract(s, l.1, k + 1);
            let all = seq![l.0] + r.1;
            assert(all.drop_first() =~= r.1);
            lemma_total_len_front(all);
        } else {
            lemma_extract_lits_bound(s, i + 1, k);
        }
    }
}

/// Index of the first LIT_CLOSE at or after `i`, or the end of `t`.
pub open spec fn next_close(t: Seq<char>, i: int) -> int
    decreases t.len() - i,
{
    if i < 0 || i >= t.len() {
        if i < 0 { 0 } else { i }
    } else if t[i] == LIT_CLOSE {
        i
    } else {
        next_close(t, i + 1)
    }
}

pub proof fn lemma_next_close(t: Seq<char>, i: int)
    requires
        0 <= i <= t.len(),
    ensures
        i <= next_close(t, i) <= t.len(),
        next_close(t, i) < t.len() ==> t[next_close(t, i)] == LIT_CLOSE,
        forall|j: int| i <= j < next_close(t, i) ==> t[j] != LIT_CLOSE,
    decreases t.len() - i,
{
    if i < t.len() && t[i] != LIT_CLOSE {
        lemma_next_close(t, i + 1);
    }
}

/// A literal written back into a formula: every quote doubled.
pub open spec fn escape_quotes(l: Seq<char>) -> Seq<char>
    decreases l.len(),
{
    if l.len() == 0 {
        Seq::empty()
    } else {
        escape_quotes(l.drop_last()) + if l.last() == '"' {
            seq!['"', '"']
        } else {
            seq![l.last()]
        }
    }
}

/// The escaped literal that a placeholder number names, if any.
pub open spec fn placeholder_text(lits: Seq<Seq<char>>, num: Seq<char>) -> Seq<char> {
    match parse_unsigned(num, usize::MAX as nat) {
        Some(idx) => if idx < lits.len() {
            escape_quotes(lits[idx as int])
        } else {
            Seq::empty()
        },
        None => Seq::empty(),
    }
}

/// The formula that template `t` (from index `i` on) gives with literals
/// `lits`: each placeholder becomes a quoted, escaped literal.
pub open spec fn spec_reassemble(t: Seq<char>, i: int, lits: Seq<Seq<char>>) -> Seq<char>
    decreases t.len() - i,
{
    if i < 0 || i >= t.len() {
        Seq::empty()
    } else if t[i] == LIT_OPEN {
        let j = next_close(t, i + 1);
        proof {
            lemma_next_close(t, i + 1);
        }
        let nx = if j < t.len() { j + 1 } else { j };
        seq!['"'] + placeholder_text(lits, t.subrange(i + 1, j)) + seq!['"'] + spec_reassemble(t, nx, lits)
    } else {
        seq![t[i]] + spec_reassemble(t, i + 1, lits)
    }
}

/// Puts translated literals back into a template made by
/// `extract_quoted_literals`.
pub fn reassemble_formula(template: &str, translated: &[String]) -> (r: String)
    ensures
        r@ == spec_reassemble(template@, 0, str_views(translated@)),
{
    let chars = chars_of(template);
    let ghost t = chars@;
    let ghost lits = str_views(translated@);
    let n = chars.len();
    let mut out: Vec<char> = Vec::new();
    let mut i: usize = 0;
    while i < n
        invariant
            n == chars.len(),
            t == chars@,
            lits == str_views(translated@),
            i <= n,
            out@ + spec_reassemble(t, i as int, lits) == spec_reassemble(t, 0, lits),
        decreases n - i,
    {
        if chars[i] == LIT_OPEN {
            let ghost start = i as int;
            let ghost old_out = out@;
            i += 1;
            let num_start = i;
            while i < n && chars[i] != LIT_CLOSE
                invariant
                    n == chars.len(),
                    t == chars@,
                    num_start <= i <= n,
                    num_start == start + 1,
                    next_close(t, num_start as int) == next_close(t, i as int),
                decreases n - i,
            {
                i += 1;
            }
            let num_end = i;
            if i < n {
                i += 1;
            }
            proof {
                lemma_next_close(t, start + 1);
                assert(num_end == next_close(t, start + 1));
            }
            out.push('"');
            let parsed = parse_unsigned_range(&chars, num_start, num_end, usize::MAX as u64);
            let ghost before_lit = out@;
            match parsed {
                Some(idx) => {
                    let idx = idx as usize;
                    if idx < translated.len() {
                        let lit = chars_of(translated[idx].as_str());
                        let mut k: usize = 0;
                        while k < lit.len()
                            invariant
                                k <= lit.len(),
                                out@ == before_lit + escape_quotes(lit@.take(k as int)),
                            decreases lit.len() - k,
                        {
                            let c = lit[k];
                            proof {
                                assert(lit@.take(k + 1).drop_last() =~= lit@.take(k as int));
                                assert(lit@.take(k + 1).last() == c);
                            }
                            if c == '"' {
                                out.push('"');
                                out.push('"');
                                proof {
                                    assert(out@ =~= before_lit + escape_quotes(lit@.take(k + 1)));
                                }
                            } else {
                                out.push(c);
                                proof {
                                    assert(out@ =~= before_lit + escape_quotes(lit@.take(k + 1)));
                                }
                            }
                            k += 1;
                        }
                        proof {
                            assert(lit@.take(lit@.len() as int) =~= lit@);
                            assert(lit@ == lits[idx as int]);
                        }
                    }
                },
                None => {},
            }
            out.push('"');
            proof {
                let j = next_close(t, start + 1);
                let nx = if j < t.len() { j + 1 } else { j };
                assert(nx == i);
                let ph = placeholder_text(lits, t.subrange(start + 1, j));
                assert(out@ =~= old_out + seq!['"'] + ph + seq!['"']);
                assert(spec_reassemble(t, start, lits) == seq!['"'] + ph + seq!['"'] + spec_reassemble(t, nx, lits));
                assert(out@ + spec_reassemble(t, i as int, lits) =~= old_out + spec_reassemble(t, start, lits));
            }
        } else {
            let ghost old_out = out@;
            out.push(chars[i]);
            proof {
                assert(out@ + spec_reassemble(t, i + 1, lits) =~= old_out + spec_reassemble(t, i as int, lits));
            }
            i += 1;
        }
    }
    proof {
        assert(out@ + Seq::<char>::empty() =~= out@);
    }
    string_of(&out)
}


/// Quote counts add up over a concatenation.
proof fn lemma_count_concat(a: Seq<char>, b: Seq<char>, c: char)
    ensures
        count_char(a + b, c) == count_char(a, c) + count_char(b, c),
    decreases b.len(),
{
    if b.len() == 0 {
        assert(a + b =~= a);
    } else {
        assert((a + b).drop_last() =~= a + b.drop_last());
        lemma_count_concat(a, b.drop_last(), c);
    }
}

/// How one character is written inside a quoted literal.
pub open spec fn escape_char(c: char) -> Seq<char> {
    if c == '"' {
        seq!['"', '"']
    } else {
        seq![c]
    }
}

proof fn lemma_escape_front(c: char, l: Seq<char>)
    ensures
        escape_quotes(seq![c] + l) == escape_char(c) + escape_quotes(l),
    decreases l.len(),
{
    if l.len() == 0 {
        assert(seq![c] + l =~= seq![c]);
        assert(seq![c].drop_last() =~= Seq::<char>::empty());
        assert(escape_char(c) + escape_quotes(l) =~= escape_char(c));
        assert(escape_quotes(seq![c]) =~= escape_quotes(Seq::<char>::empty()) + escape_char(c));
    } else {
        assert((seq![c] + l).drop_last() =~= seq![c] + l.drop_last());
        lemma_escape_front(c, l.drop_last());
        assert(escape_quotes(seq![c] + l) == escape_quotes(seq![c] + l.drop_last()) + escape_char(l.last()));
        assert(escape_quotes(l) == escape_quotes(l.drop_last()) + escape_char(l.last()));
        assert(escape_quotes(seq![c] + l) =~= escape_char(c) + escape_quotes(l));
    }
}

/// An escaped literal holds an even number of quotes.
proof fn lemma_count_escape(l: Seq<char>)
    ensures
        count_char(escape_quotes(l), '"') == 2 * count_char(l, '"'),
    decreases l.len(),
{
    if l.len() > 0 {
        lemma_count_escape(l.drop_last());
        let e = escape_char(l.last());
        assert(escape_quotes(l) == escape_quotes(l.drop_last()) + e);
        lemma_count_concat(escape_quotes(l.drop_last()), e, '"');
        lemma_count_single('"');
        if l.last() == '"' {
            assert(e.drop_last() =~= seq!['"']);
            assert(count_char(e, '"') == 2);
        } else {
            assert(e.drop_last() =~= Seq::<char>::empty());
            assert(count_char(e, '"') == 0);
        }
    }
}

proof fn lemma_count_single(c: char)
    ensures
        count_char(seq![c], '"') == (if c == '"' { 1nat } else { 0nat }),
{
    assert(seq![c].drop_last() =~= Seq::<char>::empty());
    assert(count_char(Seq::<char>::empty(), '"') == 0);
}

proof fn lemma_count_cons(c: char, t: Seq<char>)
    ensures
        count_char(seq![c] + t, '"') == (if c == '"' { 1nat } else { 0nat }) + count_char(t, '"'),
{
    lemma_count_concat(seq![c], t, '"');
    lemma_count_single(c);
}

/// A placeholder for literal `k` at the front of a template becomes that
/// literal, quoted and escaped.
proof fn lemma_placeholder_front(k: nat, rest: Seq<char>, all: Seq<Seq<char>>)
    requires
        k < all.len(),
        all.len() <= usize::MAX,
    ensures
        spec_reassemble(seq![LIT_OPEN] + dec(k) + seq![LIT_CLOSE] + rest, 0, all)
            == seq!['"'] + escape_quotes(all[k as int]) + seq!['"'] + spec_reassemble(rest, 0, all),
{
    let d = dec(k);
    lemma_dec_digits(k);
    let a = seq![LIT_OPEN] + d + seq![LIT_CLOSE];
    let t = a + rest;
    lemma_next_close(t, 1);
    let nc = next_close(t, 1);
    assert(t[1 + d.len() as int] == LIT_CLOSE);
    assert forall|q: int| 1 <= q < 1 + d.len() implies t[q] != LIT_CLOSE by {
        assert(t[q] == d[q - 1]);
    }
    assert(nc == 1 + d.len());
    assert(t.subrange(1, nc) =~= d);
    lemma_parse_dec(k, usize::MAX as nat);
    lemma_reassemble_suffix(a, rest, 0, all);
    assert(a.len() + 0 == nc + 1);
}

/// What `scan_lit` read: the escaped literal and its closing quote, or, for a
/// literal left open, the escaped literal up to the end.
proof fn lemma_scan_lit_shape(s: Seq<char>, p: int)
    requires
        0 <= p <= s.len(),
    ensures
        p <= scan_lit(s, p).1 <= s.len(),
        s.subrange(p, scan_lit(s, p).1) == escape_quotes(scan_lit(s, p).0) + seq!['"']
            || (scan_lit(s, p).1 == s.len() && s.subrange(p, scan_lit(s, p).1) == escape_quotes(scan_lit(s, p).0)),
    decreases s.len() - p,
{
    let (lit, j) = scan_lit(s, p);
    if p == s.len() {
        assert(s.subrange(p, j) =~= escape_quotes(lit));
    } else if s[p] == '"' {
        if p + 1 < s.len() && s[p + 1] == '"' {
            lemma_scan_lit_shape(s, p + 2);
            let r = scan_lit(s, p + 2);
            lemma_escape_front('"', r.0);
            assert(s.subrange(p, j) =~= seq!['"', '"'] + s.subrange(p + 2, j));
            assert(escape_quotes(lit) + seq!['"'] =~= seq!['"', '"'] + (escape_quotes(r.0) + seq!['"']));
        } else {
            assert(escape_quotes(lit) =~= Seq::<char>::empty());
            assert(s.subrange(p, j) =~= escape_quotes(lit) + seq!['"']);
        }
    } else {
        lemma_scan_lit_shape(s, p + 1);
        let r = scan_lit(s, p + 1);
        lemma_escape_front(s[p], r.0);
        assert(s.subrange(p, j) =~= seq![s[p]] + s.subrange(p + 1, j));
        assert(escape_quotes(lit) + seq!['"'] =~= seq![s[p]] + (escape_quotes(r.0) + seq!['"']));
    }
}

proof fn lemma_next_close_suffix(a: Seq<char>, b: Seq<char>, j: int)
    requires
        0 <= j,
    ensures
        next_close(a + b, a.len() + j) == a.len() + next_close(b, j),
    decreases b.len() - j,
{
    if j < b.len() {
        assert((a + b)[a.len() + j] == b[j]);
        lemma_next_close_suffix(a, b, j + 1);
    }
}

/// Reassembling `a + b` from inside `b` is reassembling `b`.
proof fn lemma_reassemble_suffix(a: Seq<char>, b: Seq<char>, j: int, lits: Seq<Seq<char>>)
    requires
        0 <= j,
    ensures
        spec_reassemble(a + b, a.len() + j, lits) == spec_reassemble(b, j, lits),
    decreases b.len() - j,
{
    let h = a + b;
    let m = a.len() + j;
    if j < b.len() {
        assert(h[m] == b[j]);
        if b[j] == LIT_OPEN {
            lemma_next_close_suffix(a, b, j + 1);
            lemma_next_close(b, j + 1);
            let nb = next_close(b, j + 1);
            assert(h.subrange(m + 1, a.len() + nb) =~= b.subrange(j + 1, nb));
            let nx = if nb < b.len() { nb + 1 } else { nb };
            lemma_reassemble_suffix(a, b, nx, lits);
        } else {
            lemma_reassemble_suffix(a, b, j + 1, lits);
        }
    }
}

/// `extract` from index `i`, numbering from `k`, undone by `reassemble` with
/// any list that holds those literals at `k` on.
#[verifier::rlimit(40)]
proof fn lemma_roundtrip_from(s: Seq<char>, i: int, k: nat, all: Seq<Seq<char>>)
    requires
        0 <= i <= s.len(),
        forall|m: int| 0 <= m < s.len() ==> s[m] != LIT_OPEN && s[m] != LIT_CLOSE,
        count_char(s.skip(i), '"') % 2 == 0,
        k + spec_extract(s, i, k).1.len() <= all.len(),
        all.len() <= usize::MAX,
        forall|m: int| 0 <= m < spec_extract(s, i, k).1.len() ==> all[k + m] == spec_extract(s, i, k).1[m],
    ensures
        spec_reassemble(spec_extract(s, i, k).0, 0, all) == s.skip(i),
    decreases s.len() - i,
{
    let e = spec_extract(s, i, k);
    if i == s.len() {
        assert(s.skip(i) =~= Seq::<char>::empty());
    } else {
        assert(s.skip(i) =~= seq![s[i]] + s.skip(i + 1));
        lemma_count_cons(s[i], s.skip(i + 1));
        if s[i] == '"' {
            lemma_scan_lit_next(s, i + 1);
            lemma_scan_lit_shape(s, i + 1);
            let (lit, j) = scan_lit(s, i + 1);
            let r = spec_extract(s, j, k + 1);
            assert(s.skip(i + 1) =~= s.subrange(i + 1, j) + s.skip(j));
            lemma_count_concat(s.subrange(i + 1, j), s.skip(j), '"');
            lemma_count_escape(lit);
            if s.subrange(i + 1, j) == escape_quotes(lit) + seq!['"'] {
                lemma_count_concat(escape_quotes(lit), seq!['"'], '"');
                lemma_count_single('"');
                assert forall|m: int| 0 <= m < r.1.len() implies all[k + 1 + m] == r.1[m] by {
                    assert(e.1[m + 1] == r.1[m]);
                }
                lemma_roundtrip_from(s, j, k + 1, all);
                assert(e.0 == seq![LIT_OPEN] + dec(k) + seq![LIT_CLOSE] + r.0);
                assert(all[k as int] == e.1[0]);
                lemma_placeholder_front(k, r.0, all);
                assert(s.skip(i) =~= seq!['"'] + escape_quotes(lit) + seq!['"'] + s.skip(j));
            } else {
                assert(count_char(s.skip(i), '"') % 2 == 1);
            }
        } else {
            let r = spec_extract(s, i + 1, k);
            lemma_roundtrip_from(s, i + 1, k, all);
            lemma_reassemble_suffix(seq![s[i]], r.0, 0, all);
        }
    }
}

/// A formula whose literals are all closed, and which holds none of the
/// placeholder marks, is given back unchanged when its own literals are put
/// back into its template.
pub proof fn law_reassemble_inverts_extract(f: Seq<char>)
    requires
        f.len() <= usize::MAX,
        forall|m: int| 0 <= m < f.len() ==> f[m] != LIT_OPEN && f[m] != LIT_CLOSE,
        count_char(f, '"') % 2 == 0,
    ensures
        spec_reassemble(spec_extract(f, 0, 0).0, 0, spec_extract(f, 0, 0).1) == f,
{
    assert(f.skip(0) =~= f);
    lemma_extract_lits_bound(f, 0, 0);
    lemma_roundtrip_from(f, 0, 0, spec_extract(f, 0, 0).1);
}

} // verus!
