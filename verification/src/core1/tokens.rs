//! Protection of line breaks on their way through a translation engine.
//!
//! A line break is replaced by a bracketed token before the text is sent and
//! put back afterwards. Three token tables exist; a text uses the first one
//! whose token it does not already contain. Full-width spaces are sent as
//! plain spaces.
use vstd::prelude::*;

use crate::adapters::types::Lang;
use crate::decimal::{dec, dec_chars};
use crate::text::{
    chars_of, contains_exec, contains_seq, count_char, count_char_exec, lemma_replace_from_suffix, occurs_at, push_all, replace_from, replace_seq,
    replace_vec, string_of,
};

verus! {

broadcast use vstd::seq_lib::group_seq_properties;

/// Number of token tables.
pub const TOKEN_TABLE_COUNT: usize = 3;

pub open spec fn token_open(idx: int) -> char {
    if idx == 0 {
        '\u{27E6}'
    } else if idx == 1 {
        '\u{2983}'
    } else {
        '\u{301A}'
    }
}

pub open spec fn token_close(idx: int) -> char {
    if idx == 0 {
        '\u{27E7}'
    } else if idx == 1 {
        '\u{2984}'
    } else {
        '\u{301B}'
    }
}

/// The token that stands for a line break in table `idx`.
pub open spec fn token(idx: int) -> Seq<char> {
    seq![token_open(idx), 'N', 'L', token_close(idx)]
}

pub fn token_chars(idx: usize) -> (r: Vec<char>)
    requires
        idx < TOKEN_TABLE_COUNT,
    ensures
        r@ == token(idx as int),
{
    let (o, c) = if idx == 0 {
        ('\u{27E6}', '\u{27E7}')
    } else if idx == 1 {
        ('\u{2983}', '\u{2984}')
    } else {
        ('\u{301A}', '\u{301B}')
    };
    let mut r = Vec::new();
    r.push(o);
    r.push('N');
    r.push('L');
    r.push(c);
    proof {
        assert(r@ =~= token(idx as int));
    }
    r
}

/// Does `text` already hold the token of table `idx`?
pub fn table_collides(text: &Vec<char>, idx: usize) -> (b: bool)
    requires
        idx < TOKEN_TABLE_COUNT,
    ensures
        b == contains_seq(text@, token(idx as int)),
{
    contains_exec(text, &token_chars(idx))
}

/// The first table whose token `text` does not hold.
pub open spec fn spec_select_token_table(text: Seq<char>) -> Option<usize> {
    if !contains_seq(text, token(0)) {
        Some(0usize)
    } else if !contains_seq(text, token(1)) {
        Some(1usize)
    } else if !contains_seq(text, token(2)) {
        Some(2usize)
    } else {
        None
    }
}

pub fn select_token_table(text: &Vec<char>) -> (r: Option<usize>)
    ensures
        r == spec_select_token_table(text@),
{
    if !table_collides(text, 0) {
        Some(0)
    } else if !table_collides(text, 1) {
        Some(1)
    } else if !table_collides(text, 2) {
        Some(2)
    } else {
        None
    }
}

pub open spec fn space_char(c: char) -> char {
    if c == '\u{3000}' {
        ' '
    } else {
        c
    }
}

/// Full-width spaces turned into plain spaces.
pub open spec fn spec_normalize_fullwidth_space(s: Seq<char>) -> Seq<char> {
    Seq::new(s.len(), |i: int| space_char(s[i]))
}

pub fn normalize_fullwidth_space(text: &Vec<char>) -> (r: Vec<char>)
    ensures
        r@ == spec_normalize_fullwidth_space(text@),
{
    let mut r = Vec::new();
    let mut i: usize = 0;
    while i < text.len()
        invariant
            i <= text.len(),
            r@ == spec_normalize_fullwidth_space(text@.take(i as int)),
        decreases text.len() - i,
    {
        let c = text[i];
        r.push(if c == '\u{3000}' { ' ' } else { c });
        proof {
            assert(spec_normalize_fullwidth_space(text@.take(i + 1)) =~= spec_normalize_fullwidth_space(
                text@.take(i as int),
            ).push(space_char(c)));
        }
        i += 1;
    }
    proof {
        assert(text@.take(text@.len() as int) =~= text@);
    }
    r
}

/// What a character is sent as under table `idx`.
pub open spec fn protect_char(c: char, idx: int) -> Seq<char> {
    if c == '\n' {
        token(idx)
    } else {
        seq![space_char(c)]
    }
}

/// `s` as sent under table `idx`: line breaks tokenized, full-width spaces plain.
pub open spec fn protect_seq(s: Seq<char>, idx: int) -> Seq<char> {
    Seq::new(s.len(), |i: int| protect_char(s[i], idx)).flatten()
}

pub fn protect_with(text: &Vec<char>, idx: usize) -> (r: Vec<char>)
    requires
        idx < TOKEN_TABLE_COUNT,
    ensures
        r@ == protect_seq(text@, idx as int),
{
    let tok = token_chars(idx);
    let mut r: Vec<char> = Vec::new();
    let mut i: usize = 0;
    while i < text.len()
        invariant
            i <= text.len(),
            idx < TOKEN_TABLE_COUNT,
            tok@ == token(idx as int),
            r@ == protect_seq(text@.take(i as int), idx as int),
        decreases text.len() - i,
    {
        let c = text[i];
        let ghost old_r = r@;
        if c == '\n' {
            push_all(&mut r, &tok);
        } else {
            r.push(if c == '\u{3000}' { ' ' } else { c });
        }
        proof {
            let a = Seq::new(i as nat, |j: int| protect_char(text@.take(i as int)[j], idx as int));
            let b = Seq::new((i + 1) as nat, |j: int| protect_char(text@.take(i + 1)[j], idx as int));
            assert(b =~= a.push(protect_char(c, idx as int)));
            a.lemma_flatten_push(protect_char(c, idx as int));
            assert(r@ =~= old_r + protect_char(c, idx as int));
        }
        i += 1;
    }
    proof {
        assert(text@.take(text@.len() as int) =~= text@);
    }
    r
}

/// Received text with the tokens of table `idx` turned back into line breaks.
pub open spec fn restore_seq(s: Seq<char>, idx: int) -> Seq<char> {
    replace_seq(s, token(idx), seq!['\n'])
}

pub fn restore_with(text: &Vec<char>, idx: usize) -> (r: Vec<char>)
    requires
        idx < TOKEN_TABLE_COUNT,
    ensures
        r@ == restore_seq(text@, idx as int),
{
    let mut nl = Vec::new();
    nl.push('\n');
    proof {
        assert(nl@ =~= seq!['\n']);
    }
    replace_vec(text, &token_chars(idx), &nl)
}

/// The message reported when fewer line breaks came back than were sent.
pub open spec fn leak_message(out_nl: nat, src_nl: nat) -> Seq<char> {
    "保護トークン復元漏れの疑い（改行 "@ + dec(out_nl) + "/"@ + dec(src_nl)
        + " 件のみ復元）。翻訳エンジンが保護記号を破損させた可能性があります。"@
}

pub open spec fn spec_detect_token_leak(source: Seq<char>, restored: Seq<char>) -> Option<Seq<char>> {
    if count_char(restored, '\n') < count_char(source, '\n') {
        Some(leak_message(count_char(restored, '\n'), count_char(source, '\n')))
    } else {
        None
    }
}

/// Reports a restore that lost line breaks: fewer '\n' in `restored` than in
/// `source_text`.
pub fn detect_token_leak(source_text: &Vec<char>, restored_text: &Vec<char>) -> (r: Option<String>)
    ensures
        match spec_detect_token_leak(source_text@, restored_text@) {
            Some(m) => r matches Some(s) && s@ == m,
            None => r is None,
        },
{
    let src_nl = count_char_exec(source_text, '\n');
    let out_nl = count_char_exec(restored_text, '\n');
    if out_nl < src_nl {
        let mut m = chars_of("保護トークン復元漏れの疑い（改行 ");
        push_all(&mut m, &dec_chars(out_nl));
        push_all(&mut m, &chars_of("/"));
        push_all(&mut m, &dec_chars(src_nl));
        push_all(&mut m, &chars_of(" 件のみ復元）。翻訳エンジンが保護記号を破損させた可能性があります。"));
        Some(string_of(&m))
    } else {
        None
    }
}

pub open spec fn punct_char(c: char) -> char {
    if c == '\u{FF0C}' {
        '\u{3001}'
    } else {
        c
    }
}

/// Into Japanese, the Chinese full-width comma becomes the ideographic comma.
pub open spec fn spec_normalize_punctuation(s: Seq<char>, to_lang: Lang) -> Seq<char> {
    if to_lang == Lang::Ja {
        Seq::new(s.len(), |i: int| punct_char(s[i]))
    } else {
        s
    }
}

pub fn normalize_punctuation_for_target(text: &Vec<char>, to_lang: Lang) -> (r: Vec<char>)
    ensures
        r@ == spec_normalize_punctuation(text@, to_lang),
{
    let mut r = Vec::new();
    let ja = to_lang == Lang::Ja;
    let mut i: usize = 0;
    while i < text.len()
        invariant
            i <= text.len(),
            ja == (to_lang == Lang::Ja),
            r@ == spec_normalize_punctuation(text@.take(i as int), to_lang),
        decreases text.len() - i,
    {
        let c = text[i];
        let d = if ja && c == '\u{FF0C}' { '\u{3001}' } else { c };
        r.push(d);
        proof {
            assert(spec_normalize_punctuation(text@.take(i + 1), to_lang) =~= spec_normalize_punctuation(
                text@.take(i as int),
                to_lang,
            ).push(d));
        }
        i += 1;
    }
    proof {
        assert(text@.take(text@.len() as int) =~= text@);
    }
    r
}

pub open spec fn is_token_bracket(c: char) -> bool {
    c == '\u{27E6}' || c == '\u{27E7}' || c == '\u{2983}' || c == '\u{2984}' || c == '\u{301A}'
        || c == '\u{301B}'
}

/// `s` without any token bracket character.
pub open spec fn spec_strip_brackets(s: Seq<char>) -> Seq<char> {
    s.filter(|c: char| !is_token_bracket(c))
}

pub fn strip_residual_token_brackets(text: &Vec<char>) -> (r: Vec<char>)
    ensures
        r@ == spec_strip_brackets(text@),
{
    let mut r = Vec::new();
    let mut i: usize = 0;
    while i < text.len()
        invariant
            i <= text.len(),
            r@ == spec_strip_brackets(text@.take(i as int)),
        decreases text.len() - i,
    {
        let c = text[i];
        proof {
            assert(text@.take(i + 1) =~= text@.take(i as int).push(c));
            text@.take(i as int).lemma_filter_push(c, |c: char| !is_token_bracket(c));
        }
        if !(c == '\u{27E6}' || c == '\u{27E7}' || c == '\u{2983}' || c == '\u{2984}' || c
            == '\u{301A}' || c == '\u{301B}') {
            r.push(c);
        }
        i += 1;
    }
    proof {
        assert(text@.take(text@.len() as int) =~= text@);
    }
    r
}


pub open spec fn is_sp(c: char) -> bool {
    c == ' ' || c == '\u{3000}'
}

/// `out` without its trailing (half- or full-width) spaces.
pub open spec fn strip_trailing_sp(out: Seq<char>) -> Seq<char>
    decreases out.len(),
{
    if out.len() > 0 && is_sp(out.last()) {
        strip_trailing_sp(out.drop_last())
    } else {
        out
    }
}

/// First index at or after `j` that is not a space.
pub open spec fn skip_sp(c: Seq<char>, j: int) -> int
    decreases c.len() - j,
{
    if 0 <= j < c.len() && is_sp(c[j]) {
        skip_sp(c, j + 1)
    } else {
        j
    }
}

pub proof fn lemma_skip_sp(c: Seq<char>, j: int)
    ensures
        skip_sp(c, j) >= j,
        0 <= j <= c.len() ==> skip_sp(c, j) <= c.len(),
    decreases c.len() - j,
{
    if 0 <= j < c.len() && is_sp(c[j]) {
        lemma_skip_sp(c, j + 1);
    }
}

/// The rescue scan from index `i`, with `out` written so far: each "N",
/// spaces, "L" becomes a line break that swallows the spaces before it and
/// one space after it.
pub open spec fn rescue_scan(c: Seq<char>, i: int, out: Seq<char>) -> Seq<char>
    decreases c.len() - i,
{
    if i < 0 || i >= c.len() {
        out
    } else {
        let j = skip_sp(c, i + 1);
        proof {
            lemma_skip_sp(c, i + 1);
        }
        if c[i] == 'N' && j < c.len() && c[j] == 'L' {
            let k = if j + 1 < c.len() && is_sp(c[j + 1]) { j + 2 } else { j + 1 };
            rescue_scan(c, k, strip_trailing_sp(out).push('\n'))
        } else {
            rescue_scan(c, i + 1, out.push(c[i]))
        }
    }
}

/// The rescue applies only when the source had line breaks, holds no "NL"
/// of its own, and fewer line breaks came back.
pub open spec fn spec_rescue_restore_nl(restored: Seq<char>, source: Seq<char>) -> Seq<char> {
    if count_char(source, '\n') == 0 || contains_seq(source, "NL"@) || count_char(restored, '\n')
        >= count_char(source, '\n') {
        restored
    } else {
        rescue_scan(restored, 0, Seq::empty())
    }
}

fn is_sp_char(c: char) -> (b: bool)
    ensures
        b == is_sp(c),
{
    c == ' ' || c == '\u{3000}'
}

pub fn rescue_restore_nl(restored: &Vec<char>, source_text: &Vec<char>) -> (r: Vec<char>)
    ensures
        r@ == spec_rescue_restore_nl(restored@, source_text@),
{
    let src_nl = count_char_exec(source_text, '\n');
    let cur_nl = count_char_exec(restored, '\n');
    let source_has_nl = contains_exec(source_text, &chars_of("NL"));
    if src_nl == 0 || source_has_nl || cur_nl >= src_nl {
        let mut r = Vec::new();
        push_all(&mut r, restored);
        return r;
    }
    let c = restored;
    let ghost cs = c@;
    let mut out: Vec<char> = Vec::new();
    let mut i: usize = 0;
    while i < c.len()
        invariant
            cs == c@,
            i <= c.len(),
            rescue_scan(cs, i as int, out@) == rescue_scan(cs, 0, Seq::empty()),
        decreases c.len() - i,
    {
        proof {
            lemma_skip_sp(cs, i + 1);
        }
        let mut handled = false;
        if c[i] == 'N' {
            let mut j = i + 1;
            while j < c.len() && is_sp_char(c[j])
                invariant
                    cs == c@,
                    i + 1 <= j <= c.len(),
                    skip_sp(cs, j as int) == skip_sp(cs, i + 1),
                decreases c.len() - j,
            {
                j += 1;
            }
            if j < c.len() && c[j] == 'L' {
                let ghost before = out@;
                while out.len() > 0 && is_sp_char(out[out.len() - 1])
                    invariant
                        strip_trailing_sp(out@) == strip_trailing_sp(before),
                    decreases out.len(),
                {
                    let ghost o = out@;
                    out.pop();
                    proof {
                        assert(out@ =~= o.drop_last());
                    }
                }
                out.push('\n');
                let mut k = j + 1;
                if k < c.len() && is_sp_char(c[k]) {
                    k += 1;
                }
                i = k;
                handled = true;
            }
        }
        if !handled {
            out.push(c[i]);
            i += 1;
        }
    }
    out
}


/// `protect_seq` taken one character at a time from the front.
proof fn lemma_protect_front(s: Seq<char>, idx: int)
    requires
        s.len() > 0,
    ensures
        protect_seq(s, idx) == protect_char(s[0], idx) + protect_seq(s.drop_first(), idx),
{
    let q = Seq::new(s.len(), |i: int| protect_char(s[i], idx));
    assert(q.drop_first() =~= Seq::new(s.drop_first().len(), |i: int| protect_char(s.drop_first()[i], idx)));
}

/// `spec_normalize_fullwidth_space` taken one character at a time from the front.
proof fn lemma_normalize_front(s: Seq<char>)
    requires
        s.len() > 0,
    ensures
        spec_normalize_fullwidth_space(s) == seq![space_char(s[0])] + spec_normalize_fullwidth_space(s.drop_first()),
{
    assert(spec_normalize_fullwidth_space(s) =~= seq![space_char(s[0])] + spec_normalize_fullwidth_space(s.drop_first()));
}

/// A protected text that begins with `w` (no token opener, no plain space in
/// `w`) was a text that begins with `w`.
proof fn lemma_protect_prefix(s: Seq<char>, w: Seq<char>, idx: int)
    requires
        forall|k: int| 0 <= k < w.len() ==> w[k] != token_open(idx) && w[k] != ' ',
        occurs_at(protect_seq(s, idx), w, 0),
    ensures
        w.len() <= s.len(),
        s.take(w.len() as int) == w,
    decreases w.len(),
{
    if w.len() > 0 {
        if s.len() == 0 {
            assert(protect_seq(s, idx) =~= Seq::<char>::empty());
        }
        lemma_protect_front(s, idx);
        let ps = protect_seq(s, idx);
        assert(ps[0] == w[0]);
        if s[0] == '\n' {
            assert(ps[0] == token_open(idx));
        }
        let rest = protect_seq(s.drop_first(), idx);
        assert(ps == seq![space_char(s[0])] + rest);
        assert(rest.subrange(0, w.len() - 1) =~= ps.subrange(1, w.len() as int));
        assert(w.drop_first() =~= w.subrange(1, w.len() as int));
        assert(ps.subrange(1, w.len() as int) =~= w.subrange(1, w.len() as int));
        lemma_protect_prefix(s.drop_first(), w.drop_first(), idx);
        assert(s.take(w.len() as int) =~= seq![s[0]] + s.drop_first().take(w.len() - 1));
        assert(w =~= seq![w[0]] + w.drop_first());
    }
}

/// A text that lacks a token lacks it after its first character too.
proof fn lemma_lacks_token_tail(t: Seq<char>, idx: int)
    requires
        t.len() > 0,
        !contains_seq(t, token(idx)),
    ensures
        !contains_seq(t.drop_first(), token(idx)),
{
    if contains_seq(t.drop_first(), token(idx)) {
        let i = choose|i: int| occurs_at(t.drop_first(), token(idx), i);
        assert(t.subrange(i + 1, i + 5) =~= t.drop_first().subrange(i, i + 4));
        assert(occurs_at(t, token(idx), i + 1));
    }
}

/// Sending a text under a token table that it does not hold, and getting it
/// back unchanged, gives back the text itself with its full-width spaces made
/// plain: every line break comes back where it was.
pub proof fn law_restore_undoes_protect(t: Seq<char>, idx: int)
    requires
        0 <= idx < 3,
        !contains_seq(t, token(idx)),
    ensures
        restore_seq(protect_seq(t, idx), idx) == spec_normalize_fullwidth_space(t),
    decreases t.len(),
{
    let tok = token(idx);
    let nl = seq!['\n'];
    let p = protect_seq(t, idx);
    if t.len() == 0 {
        assert(p =~= Seq::<char>::empty());
        assert(spec_normalize_fullwidth_space(t) =~= Seq::<char>::empty());
    } else {
        let rest = t.drop_first();
        lemma_protect_front(t, idx);
        lemma_normalize_front(t);
        lemma_lacks_token_tail(t, idx);
        law_restore_undoes_protect(rest, idx);
        let pr = protect_seq(rest, idx);
        if t[0] == '\n' {
            assert(p == tok + pr);
            assert(p.subrange(0, 4) =~= tok);
            assert(occurs_at(p, tok, 0));
            lemma_replace_from_suffix(tok, pr, tok, nl, 0);
        } else {
            let head = seq![space_char(t[0])];
            assert(p == head + pr);
            if occurs_at(p, tok, 0) {
                assert(t[0] == token_open(idx));
                let w = seq!['N', 'L', token_close(idx)];
                assert(pr.subrange(0, 3) =~= p.subrange(1, 4));
                assert(p.subrange(1, 4) =~= tok.subrange(1, 4));
                assert(tok.subrange(1, 4) =~= w);
                assert(occurs_at(pr, w, 0));
                lemma_protect_prefix(rest, w, idx);
                assert(t.subrange(0, 4) =~= seq![t[0]] + rest.take(3));
                assert(seq![t[0]] + w =~= tok);
                assert(occurs_at(t, tok, 0));
            }
            lemma_replace_from_suffix(head, pr, tok, nl, 0);
        }
    }
}

/// Making full-width spaces plain keeps every line break.
proof fn lemma_normalize_keeps_breaks(t: Seq<char>)
    ensures
        count_char(spec_normalize_fullwidth_space(t), '\n') == count_char(t, '\n'),
    decreases t.len(),
{
    if t.len() > 0 {
        let n = spec_normalize_fullwidth_space(t);
        assert(n.drop_last() =~= spec_normalize_fullwidth_space(t.drop_last()));
        lemma_normalize_keeps_breaks(t.drop_last());
    }
}

/// An answer that gives the protected text back unchanged is restored
/// without any lost line break, so it is never reported as a leak.
pub proof fn law_unchanged_answer_is_no_leak(t: Seq<char>, idx: int)
    requires
        0 <= idx < 3,
        !contains_seq(t, token(idx)),
    ensures
        spec_detect_token_leak(t, restore_seq(protect_seq(t, idx), idx)) is None,
{
    law_restore_undoes_protect(t, idx);
    lemma_normalize_keeps_breaks(t);
}

/// Punctuation is changed only for Japanese output: into any other language
/// the text is left exactly as it is; into Japanese every full-width comma
/// `，` becomes the ideographic comma `、`, no `，` is left, and every other
/// character stays in place.
pub proof fn law_punctuation_changes_only_into_japanese(s: Seq<char>, to_lang: Lang)
    ensures
        to_lang != Lang::Ja ==> spec_normalize_punctuation(s, to_lang) == s,
        spec_normalize_punctuation(s, to_lang).len() == s.len(),
        to_lang == Lang::Ja ==> forall|i: int|
            0 <= i < s.len() ==> {
                &&& s[i] == '\u{FF0C}' ==> #[trigger] spec_normalize_punctuation(s, to_lang)[i] == '\u{3001}'
                &&& s[i] != '\u{FF0C}' ==> spec_normalize_punctuation(s, to_lang)[i] == s[i]
            },
        to_lang == Lang::Ja ==> !spec_normalize_punctuation(s, to_lang).contains('\u{FF0C}'),
{
    if to_lang == Lang::Ja {
        let r = spec_normalize_punctuation(s, to_lang);
        if r.contains('\u{FF0C}') {
            let i = choose|i: int| 0 <= i < r.len() && r[i] == '\u{FF0C}';
            assert(r[i] == punct_char(s[i]));
        }
    }
}

} // verus!
