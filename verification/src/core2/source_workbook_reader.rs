//! Turning the cells of a source sheet into logical cells: which sheets are
//! read, the used area of a sheet, what kind each cell is and the text it
//! contributes.
//!
//! The workbook itself is read by the caller; what is read here is the
//! sheet's XML text, the list of sheet names and, per cell, its value's
//! kind and text.
use vstd::prelude::*;

use crate::core2::protected_text_detector::{is_protected_transport_text, spec_is_protected_transport_text};
use crate::core2::shared_formula_reader::{
    all_alpha, col_letters, col_value, extract_attr, letter_value, number_to_col_letters, spec_extract_attr,
    FormulaMeta, FormulaMetaView,
};
use crate::core2::structure_types::{LogicalCell, LogicalCellKind};
use crate::core2::formula_text::str_views;
use crate::decimal::{dec, dec_chars, digits_value, parse_unsigned, parse_unsigned_range};
use crate::infra::app_error::AppError;
use crate::assoc::{distinct_keys, entries_map, entry_views, find_key, lemma_entries_map_distinct};
use crate::text::{
    lower_seq, lower_vec, eq_vec, ascii_upper, chars_of, find_char, find_first, first_at, first_char, has_char, has_char_exec, is_ascii_alpha,
    is_ascii_digit, push_all, push_range, str_eq, str_is_blank, string_of, string_of_range, trim_seq, trim_vec,
    upper_char,
};

verus! {

broadcast use vstd::seq_lib::group_seq_properties;

// ------------------------------------------------------------------
// Tags and attributes
// ------------------------------------------------------------------

/// The start tags `<name ...>` of an XML text from `pos` on, in order; the
/// scan stops at a tag that is not closed by `>`.
pub open spec fn tags_from(s: Seq<char>, pos: int, needle: Seq<char>) -> Seq<Seq<char>>
    decreases s.len() - pos,
{
    if pos < 0 || pos > s.len() {
        Seq::empty()
    } else {
        match first_at(s, needle, pos) {
            None => Seq::empty(),
            Some(st) => match first_char(s, '>', st) {
                None => Seq::empty(),
                Some(gt) => if pos <= st <= gt < s.len() {
                    seq![s.subrange(st, gt + 1)] + tags_from(s, gt + 1, needle)
                } else {
                    Seq::empty()
                },
            },
        }
    }
}

pub open spec fn tag_needle(name: Seq<char>) -> Seq<char> {
    seq!['<'] + name + seq![' ']
}

/// The start tags named `name`.
pub open spec fn spec_find_tags(xml: Seq<char>, name: Seq<char>) -> Seq<Seq<char>> {
    tags_from(xml, 0, tag_needle(name))
}

pub fn find_tags(xml: &Vec<char>, tag_name: &str) -> (r: Vec<String>)
    ensures
        str_views(r@) == spec_find_tags(xml@, tag_name@),
{
    let mut needle = vec!['<'];
    push_all(&mut needle, &chars_of(tag_name));
    needle.push(' ');
    proof {
        assert(needle@ =~= tag_needle(tag_name@));
    }
    let mut out: Vec<String> = Vec::new();
    let mut pos: usize = 0;
    loop
        invariant
            pos <= xml.len(),
            needle@ == tag_needle(tag_name@),
            str_views(out@) + tags_from(xml@, pos as int, needle@) == spec_find_tags(xml@, tag_name@),
        decreases xml.len() - pos,
    {
        let ghost before = str_views(out@);
        let st = match find_first(xml, &needle, pos) {
            Some(x) => x,
            None => {
                proof {
                    assert(before + Seq::<Seq<char>>::empty() =~= before);
                }
                return out;
            },
        };
        let gt = match find_char(xml, '>', st) {
            Some(g) => g,
            None => {
                proof {
                    assert(before + Seq::<Seq<char>>::empty() =~= before);
                }
                return out;
            },
        };
        out.push(string_of_range(xml, st, gt + 1));
        proof {
            assert(str_views(out@) =~= before.push(xml@.subrange(st as int, gt + 1)));
            assert(before.push(xml@.subrange(st as int, gt + 1)) + tags_from(xml@, gt + 1, needle@) =~= before + (
            seq![xml@.subrange(st as int, gt + 1)] + tags_from(xml@, gt + 1, needle@)));
        }
        pos = gt + 1;
    }
}

/// In the first tag whose `key` attribute is `value`, the attribute `want`.
pub open spec fn attr_of_first_match(tags: Seq<Seq<char>>, key: Seq<char>, value: Seq<char>, want: Seq<char>) -> Option<
    Seq<char>,
>
    decreases tags.len(),
{
    if tags.len() == 0 {
        None
    } else if spec_extract_attr(tags[0], key) == Some(value) {
        spec_extract_attr(tags[0], want)
    } else {
        attr_of_first_match(tags.drop_first(), key, value, want)
    }
}

pub open spec fn opt_str_view(o: Option<String>) -> Option<Seq<char>> {
    match o {
        Some(s) => Some(s@),
        None => None,
    }
}

fn first_match_attr(tags: &Vec<String>, key: &str, value: &str, want: &str) -> (r: Option<String>)
    ensures
        opt_str_view(r) == attr_of_first_match(str_views(tags@), key@, value@, want@),
{
    let ghost t = str_views(tags@);
    let mut i: usize = 0;
    while i < tags.len()
        invariant
            i <= tags.len(),
            t == str_views(tags@),
            attr_of_first_match(t, key@, value@, want@) == attr_of_first_match(t.skip(i as int), key@, value@, want@),
        decreases tags.len() - i,
    {
        let tag = chars_of(tags[i].as_str());
        proof {
            assert(t.skip(i as int)[0] == tag@);
            assert(t.skip(i as int).drop_first() =~= t.skip(i + 1));
        }
        let matched = match extract_attr(&tag, key) {
            Some(v) => str_eq(v.as_str(), value),
            None => false,
        };
        if matched {
            return extract_attr(&tag, want);
        }
        i += 1;
    }
    proof {
        assert(t.skip(i as int).len() == 0);
    }
    None
}

/// The relationship id of the sheet named `target_sheet`.
pub fn find_sheet_rid(workbook_xml: &str, target_sheet: &str) -> (r: Option<String>)
    ensures
        opt_str_view(r) == attr_of_first_match(spec_find_tags(workbook_xml@, "sheet"@), "name"@, target_sheet@, "r:id"@),
{
    let tags = find_tags(&chars_of(workbook_xml), "sheet");
    first_match_attr(&tags, "name", target_sheet, "r:id")
}

/// The target of the relationship with id `rid`.
pub fn find_relationship_target(rels_xml: &str, rid: &str) -> (r: Option<String>)
    ensures
        opt_str_view(r) == attr_of_first_match(spec_find_tags(rels_xml@, "Relationship"@), "Id"@, rid@, "Target"@),
{
    let tags = find_tags(&chars_of(rels_xml), "Relationship");
    first_match_attr(&tags, "Id", rid, "Target")
}

/// A target with its leading `../` parts removed.
pub open spec fn strip_parent_dirs(t: Seq<char>) -> Seq<char>
    decreases t.len(),
{
    if t.len() >= 3 && t[0] == '.' && t[1] == '.' && t[2] == '/' {
        strip_parent_dirs(t.skip(3))
    } else {
        t
    }
}

/// The archive path of a relationship target: `xl/` in front unless there.
pub open spec fn spec_reader_xl_path(t: Seq<char>) -> Seq<char> {
    let s = strip_parent_dirs(t);
    if s.len() >= 3 && s.take(3) == "xl/"@ {
        s
    } else {
        "xl/"@ + s
    }
}

fn skip_parent_dirs(v: &Vec<char>) -> (i: usize)
    ensures
        i <= v.len(),
        strip_parent_dirs(v@) == v@.skip(i as int),
{
    let mut i: usize = 0;
    while v.len() - i >= 3 && v[i] == '.' && v[i + 1] == '.' && v[i + 2] == '/'
        invariant
            i <= v.len(),
            strip_parent_dirs(v@) == strip_parent_dirs(v@.skip(i as int)),
        decreases v.len() - i,
    {
        proof {
            assert(v@.skip(i as int).skip(3) =~= v@.skip(i + 3));
        }
        i += 3;
    }
    i
}

fn starts_with_xl(s: &Vec<char>) -> (b: bool)
    ensures
        b == (s@.len() >= 3 && s@.take(3) == "xl/"@),
{
    proof {
        reveal_strlit("xl/");
    }
    if s.len() >= 3 && s[0] == 'x' && s[1] == 'l' && s[2] == '/' {
        proof {
            assert(s@.take(3) =~= "xl/"@);
        }
        true
    } else {
        proof {
            if s.len() >= 3 && s@.take(3) == "xl/"@ {
                assert(s@[0] == s@.take(3)[0]);
                assert(s@[1] == s@.take(3)[1]);
                assert(s@[2] == s@.take(3)[2]);
            }
        }
        false
    }
}

pub fn normalize_xl_path(target: &str) -> (r: String)
    ensures
        r@ == spec_reader_xl_path(target@),
{
    let v = chars_of(target);
    let i = skip_parent_dirs(&v);
    let mut s: Vec<char> = Vec::new();
    push_range(&mut s, &v, i, v.len());
    proof {
        assert(s@ =~= v@.skip(i as int));
    }
    if starts_with_xl(&s) {
        string_of(&s)
    } else {
        let mut out = chars_of("xl/");
        push_all(&mut out, &s);
        string_of(&out)
    }
}

// ------------------------------------------------------------------
// Cell references
// ------------------------------------------------------------------

/// The letters of a text, in order.
pub open spec fn alpha_chars(s: Seq<char>) -> Seq<char>
    decreases s.len(),
{
    if s.len() == 0 {
        Seq::empty()
    } else if is_ascii_alpha(s.last()) {
        alpha_chars(s.drop_last()).push(s.last())
    } else {
        alpha_chars(s.drop_last())
    }
}

/// The digits of a text, in order.
pub open spec fn digit_chars(s: Seq<char>) -> Seq<char>
    decreases s.len(),
{
    if s.len() == 0 {
        Seq::empty()
    } else if is_ascii_digit(s.last()) {
        digit_chars(s.drop_last()).push(s.last())
    } else {
        digit_chars(s.drop_last())
    }
}

/// A cell reference read loosely: its letters give the column and its
/// digits the row, wherever they stand; `None` without both, or when a
/// number does not fit a `usize`.
pub open spec fn spec_parse_cell_ref(r: Seq<char>) -> Option<(nat, nat)> {
    let l = alpha_chars(r);
    let d = digit_chars(r);
    if l.len() == 0 || d.len() == 0 || digits_value(d) > usize::MAX || col_value(l) > usize::MAX {
        None
    } else {
        Some((digits_value(d), col_value(l) as nat))
    }
}

proof fn lemma_alpha_chars_alpha(s: Seq<char>)
    ensures
        all_alpha(alpha_chars(s)),
    decreases s.len(),
{
    if s.len() > 0 {
        lemma_alpha_chars_alpha(s.drop_last());
    }
}

proof fn lemma_digit_chars_digits(s: Seq<char>)
    ensures
        forall|i: int| 0 <= i < digit_chars(s).len() ==> '0' <= #[trigger] digit_chars(s)[i] && digit_chars(s)[i] <= '9',
    decreases s.len(),
{
    if s.len() > 0 {
        lemma_digit_chars_digits(s.drop_last());
        let p = digit_chars(s.drop_last());
        assert forall|i: int| 0 <= i < digit_chars(s).len() implies '0' <= #[trigger] digit_chars(s)[i]
            && digit_chars(s)[i] <= '9' by {
            if i < p.len() {
                assert(digit_chars(s)[i] == p[i]);
            }
        }
    }
}

proof fn lemma_col_value_nonneg(s: Seq<char>)
    requires
        all_alpha(s),
    ensures
        col_value(s) >= 0,
    decreases s.len(),
{
    if s.len() > 0 {
        assert(all_alpha(s.drop_last()));
        lemma_col_value_nonneg(s.drop_last());
        assert(is_ascii_alpha(s[s.len() - 1]));
    }
}

/// Column letters as a number; `None` when it does not fit a `usize`.
fn letters_to_col(letters: &Vec<char>) -> (r: Option<usize>)
    requires
        all_alpha(letters@),
    ensures
        match r {
            Some(n) => n == col_value(letters@),
            None => col_value(letters@) > usize::MAX,
        },
{
    let mut acc: usize = 0;
    let mut i: usize = 0;
    while i < letters.len()
        invariant
            i <= letters.len(),
            all_alpha(letters@),
            acc == col_value(letters@.take(i as int)),
        decreases letters.len() - i,
    {
        let c = letters[i];
        proof {
            assert(letters@.take(i + 1).drop_last() =~= letters@.take(i as int));
            assert(letters@.take(i + 1).last() == c);
            assert(is_ascii_alpha(letters@[i as int]));
            assert(all_alpha(letters@.take(i + 1)));
            lemma_col_value_nonneg(letters@.take(i + 1));
        }
        let lv = (upper_char(c) as u32 - 64) as usize;
        proof {
            assert(lv as int == letter_value(c));
        }
        if acc > (usize::MAX - lv) / 26 {
            proof {
                assert(acc * 26 + lv > usize::MAX) by (nonlinear_arith)
                    requires acc > (usize::MAX - lv) / 26, lv <= 26;
                lemma_col_grows(letters@, i as int + 1);
            }
            return None;
        }
        proof {
            assert(acc * 26 + lv <= usize::MAX) by (nonlinear_arith)
                requires acc <= (usize::MAX - lv) / 26, lv <= 26;
        }
        acc = acc * 26 + lv;
        i += 1;
    }
    proof {
        assert(letters@.take(letters@.len() as int) =~= letters@);
    }
    Some(acc)
}

/// A longer run of letters never reads as a smaller number.
proof fn lemma_col_grows(s: Seq<char>, k: int)
    requires
        all_alpha(s),
        0 <= k <= s.len(),
    ensures
        col_value(s.take(k)) <= col_value(s),
    decreases s.len() - k,
{
    if k < s.len() {
        lemma_col_grows(s, k + 1);
        assert(s.take(k + 1).drop_last() =~= s.take(k));
        assert(all_alpha(s.take(k)));
        lemma_col_value_nonneg(s.take(k));
        assert(is_ascii_alpha(s[k]));
        assert(s.take(k + 1).last() == s[k]);
        let v = col_value(s.take(k));
        assert(v * 26 + letter_value(s[k]) >= v) by (nonlinear_arith)
            requires v >= 0, letter_value(s[k]) >= 1;
    } else {
        assert(s.take(k) =~= s);
    }
}

pub fn parse_cell_ref(reference: &str) -> (r: Option<(usize, usize)>)
    ensures
        match r {
            Some((row, col)) => spec_parse_cell_ref(reference@) == Some((row as nat, col as nat)),
            None => spec_parse_cell_ref(reference@) is None,
        },
{
    let v = chars_of(reference);
    let mut letters: Vec<char> = Vec::new();
    let mut digits: Vec<char> = Vec::new();
    let mut i: usize = 0;
    while i < v.len()
        invariant
            i <= v.len(),
            letters@ == alpha_chars(v@.take(i as int)),
            digits@ == digit_chars(v@.take(i as int)),
        decreases v.len() - i,
    {
        let c = v[i];
        proof {
            assert(v@.take(i + 1).drop_last() =~= v@.take(i as int));
            assert(v@.take(i + 1).last() == c);
        }
        if ('a' <= c && c <= 'z') || ('A' <= c && c <= 'Z') {
            letters.push(c);
        } else if '0' <= c && c <= '9' {
            digits.push(c);
        }
        i += 1;
    }
    proof {
        assert(v@.take(v@.len() as int) =~= v@);
        lemma_alpha_chars_alpha(v@);
        lemma_digit_chars_digits(v@);
    }
    if letters.len() == 0 || digits.len() == 0 {
        return None;
    }
    proof {
        assert(!(digits@.len() > 0 && digits@[0] == '+'));
    }
    let row = match parse_unsigned_range(&digits, 0, digits.len(), usize::MAX as u64) {
        Some(n) => n as usize,
        None => {
            proof {
                assert(digits@.subrange(0, digits@.len() as int) =~= digits@);
            }
            return None;
        },
    };
    proof {
        assert(digits@.subrange(0, digits@.len() as int) =~= digits@);
    }
    match letters_to_col(&letters) {
        Some(col) => Some((row, col)),
        None => None,
    }
}

/// The two ends of a range `A1:B2` (both `A1` for a single cell).
pub open spec fn range_parts(r: Seq<char>) -> (Seq<char>, Seq<char>) {
    match first_char(r, ':', 0) {
        None => (r, r),
        Some(k) => {
            let rest = r.skip(k + 1);
            (r.take(k), match first_char(rest, ':', 0) {
                None => rest,
                Some(k2) => rest.take(k2),
            })
        },
    }
}

fn range_parts_exec(r: &Vec<char>) -> (out: (Vec<char>, Vec<char>))
    ensures
        out.0@ == range_parts(r@).0,
        out.1@ == range_parts(r@).1,
{
    match find_char(r, ':', 0) {
        None => (r.clone(), r.clone()),
        Some(k) => {
            let rl = r.len();
            assert(k < rl);
            let mut a: Vec<char> = Vec::new();
            push_range(&mut a, r, 0, k);
            let mut rest: Vec<char> = Vec::new();
            push_range(&mut rest, r, k + 1, r.len());
            proof {
                assert(a@ =~= r@.take(k as int));
                assert(rest@ =~= r@.skip(k + 1));
            }
            let b = match find_char(&rest, ':', 0) {
                None => rest,
                Some(k2) => {
                    let mut b: Vec<char> = Vec::new();
                    push_range(&mut b, &rest, 0, k2);
                    proof {
                        assert(b@ =~= rest@.take(k2 as int));
                    }
                    b
                },
            };
            (a, b)
        },
    }
}

/// A dimension reference: start row, start column, end row, end column.
pub open spec fn spec_parse_dimension_ref(r: Seq<char>) -> Option<(nat, nat, nat, nat)> {
    match spec_parse_cell_ref(range_parts(r).0) {
        None => None,
        Some((sr, sc)) => match spec_parse_cell_ref(range_parts(r).1) {
            None => None,
            Some((er, ec)) => Some((sr, sc, er, ec)),
        },
    }
}

pub fn parse_dimension_ref(reference: &str) -> (r: Option<(usize, usize, usize, usize)>)
    ensures
        match r {
            Some((a, b, c, d)) => spec_parse_dimension_ref(reference@) == Some((a as nat, b as nat, c as nat, d as nat)),
            None => spec_parse_dimension_ref(reference@) is None,
        },
{
    let (s, e) = range_parts_exec(&chars_of(reference));
    let (sr, sc) = match parse_cell_ref(string_of(&s).as_str()) {
        Some(x) => x,
        None => return None,
    };
    let (er, ec) = match parse_cell_ref(string_of(&e).as_str()) {
        Some(x) => x,
        None => return None,
    };
    Some((sr, sc, er, ec))
}

/// The letters of column `col` (1 is `A`).
pub fn col_to_letters(col: u32) -> (r: String)
    ensures
        r@ == col_letters(col as nat),
{
    string_of(&number_to_col_letters(col as u64))
}

pub open spec fn min_n(a: nat, b: nat) -> nat {
    if a <= b {
        a
    } else {
        b
    }
}

pub open spec fn max_n(a: nat, b: nat) -> nat {
    if a >= b {
        a
    } else {
        b
    }
}

/// The addresses of a cell range, row by row (its ends in either order);
/// a single address, or a range that does not parse, is itself.
pub open spec fn spec_expand_cell_ref_or_range(reference: Seq<char>) -> Seq<Seq<char>> {
    let t = trim_seq(reference);
    if !has_char(t, ':') {
        seq![t]
    } else {
        match spec_parse_cell_ref(range_parts(t).0) {
            None => seq![t],
            Some((sr, sc)) => match spec_parse_cell_ref(range_parts(t).1) {
                None => seq![t],
                Some((er, ec)) => area_cells(min_n(sr, er), max_n(sr, er), min_n(sc, ec), max_n(sc, ec)),
            },
        }
    }
}

/// The address of column `c` (taken as a `u32`, as the column is converted
/// before it is written) and row `r`.
pub open spec fn loose_cell_name(c: nat, r: nat) -> Seq<char> {
    col_letters((c as u32) as nat) + dec(r)
}

pub open spec fn area_row(r: nat, c0: nat, c1: nat) -> Seq<Seq<char>> {
    Seq::new(
        if c1 >= c0 {
            (c1 - c0 + 1) as nat
        } else {
            0
        },
        |j: int| loose_cell_name((c0 + j) as nat, r),
    )
}

/// The cells of rows `r0..=r1` and columns `c0..=c1`, row by row.
pub open spec fn area_cells(r0: nat, r1: nat, c0: nat, c1: nat) -> Seq<Seq<char>>
    decreases r1 + 1 - r0,
{
    if r0 > r1 {
        Seq::empty()
    } else {
        area_row(r0, c0, c1) + area_cells(r0 + 1, r1, c0, c1)
    }
}

fn area_cells_exec(r0: usize, r1: usize, c0: usize, c1: usize) -> (out: Vec<String>)
    requires
        r0 <= r1,
        c0 <= c1,
    ensures
        str_views(out@) == area_cells(r0 as nat, r1 as nat, c0 as nat, c1 as nat),
{
    let mut out: Vec<String> = Vec::new();
    let mut r: usize = r0;
    loop
        invariant
            r0 <= r <= r1,
            c0 <= c1,
            str_views(out@) + area_cells(r as nat, r1 as nat, c0 as nat, c1 as nat) == area_cells(
                r0 as nat,
                r1 as nat,
                c0 as nat,
                c1 as nat,
            ),
        decreases r1 - r,
    {
        let ghost before = str_views(out@);
        let ghost row = area_row(r as nat, c0 as nat, c1 as nat);
        let mut c: usize = c0;
        loop
            invariant_except_break
                c0 <= c <= c1,
                str_views(out@) == before + row.take(c - c0),
            invariant
                c0 <= c1,
                row == area_row(r as nat, c0 as nat, c1 as nat),
            ensures
                str_views(out@) == before + row,
            decreases c1 - c,
        {
            let mut name = number_to_col_letters((c as u32) as u64);
            push_all(&mut name, &dec_chars(r));
            let ghost b2 = str_views(out@);
            out.push(string_of(&name));
            proof {
                assert(str_views(out@) =~= b2.push(loose_cell_name(c as nat, r as nat)));
                assert(row.take(c - c0 + 1) =~= row.take(c - c0).push(loose_cell_name(c as nat, r as nat)));
            }
            if c == c1 {
                proof {
                    assert(row.take(c1 - c0 + 1) =~= row);
                }
                break;
            }
            c += 1;
        }
        proof {
            assert(before + row + area_cells((r + 1) as nat, r1 as nat, c0 as nat, c1 as nat) =~= before + (row
                + area_cells((r + 1) as nat, r1 as nat, c0 as nat, c1 as nat)));
        }
        if r == r1 {
            proof {
                assert(area_cells((r + 1) as nat, r1 as nat, c0 as nat, c1 as nat) == Seq::<Seq<char>>::empty());
                assert(str_views(out@) + Seq::<Seq<char>>::empty() =~= str_views(out@));
            }
            return out;
        }
        r += 1;
    }
}

pub fn expand_cell_ref_or_range(reference: &str) -> (r: Vec<String>)
    ensures
        str_views(r@) == spec_expand_cell_ref_or_range(reference@),
{
    let t = trim_vec(&chars_of(reference));
    let ts = string_of(&t);
    if !has_char_exec(&t, ':') {
        return vec![ts];
    }
    let (a, b) = range_parts_exec(&t);
    let (sr, sc) = match parse_cell_ref(string_of(&a).as_str()) {
        Some(x) => x,
        None => return vec![ts],
    };
    let (er, ec) = match parse_cell_ref(string_of(&b).as_str()) {
        Some(x) => x,
        None => return vec![ts],
    };
    let r0 = if sr <= er { sr } else { er };
    let r1 = if sr >= er { sr } else { er };
    let c0 = if sc <= ec { sc } else { ec };
    let c1 = if sc >= ec { sc } else { ec };
    area_cells_exec(r0, r1, c0, c1)
}

/// The cells that hyperlinks cover, in order of the hyperlink tags.
pub open spec fn hyperlink_refs_of(tags: Seq<Seq<char>>) -> Seq<Seq<char>>
    decreases tags.len(),
{
    if tags.len() == 0 {
        Seq::empty()
    } else {
        hyperlink_refs_of(tags.drop_last()) + match spec_extract_attr(tags.last(), "ref"@) {
            Some(r) => spec_expand_cell_ref_or_range(r),
            None => Seq::empty(),
        }
    }
}

pub fn find_hyperlink_refs(sheet_xml: &str) -> (r: Vec<String>)
    ensures
        str_views(r@) == hyperlink_refs_of(spec_find_tags(sheet_xml@, "hyperlink"@)),
{
    let tags = find_tags(&chars_of(sheet_xml), "hyperlink");
    let ghost tv = str_views(tags@);
    let mut out: Vec<String> = Vec::new();
    let mut i: usize = 0;
    while i < tags.len()
        invariant
            i <= tags.len(),
            tv == str_views(tags@),
            tv == spec_find_tags(sheet_xml@, "hyperlink"@),
            str_views(out@) == hyperlink_refs_of(tv.take(i as int)),
        decreases tags.len() - i,
    {
        proof {
            assert(tv.take(i + 1).drop_last() =~= tv.take(i as int));
            assert(tv.take(i + 1).last() == tags@[i as int]@);
        }
        let ghost before = str_views(out@);
        match extract_attr(&chars_of(tags[i].as_str()), "ref") {
            Some(reference) => {
                let cells = expand_cell_ref_or_range(reference.as_str());
                let mut k: usize = 0;
                while k < cells.len()
                    invariant
                        k <= cells.len(),
                        str_views(out@) == before + str_views(cells@).take(k as int),
                    decreases cells.len() - k,
                {
                    let ghost b2 = str_views(out@);
                    out.push(cells[k].clone());
                    proof {
                        assert(str_views(out@) =~= b2.push(cells@[k as int]@));
                        assert(str_views(cells@).take(k + 1) =~= str_views(cells@).take(k as int).push(cells@[k as int]@));
                    }
                    k += 1;
                }
                proof {
                    assert(str_views(cells@).take(cells@.len() as int) =~= str_views(cells@));
                }
            },
            None => {
                proof {
                    assert(before + Seq::<Seq<char>>::empty() =~= before);
                }
            },
        }
        i += 1;
    }
    proof {
        assert(tv.take(tv.len() as int) =~= tv);
    }
    out
}

// ------------------------------------------------------------------
// Which sheets are read
// ------------------------------------------------------------------

/// The pieces of `s` between commas, as `str::split(',')` gives them.
pub open spec fn split_commas(s: Seq<char>) -> Seq<Seq<char>>
    decreases s.len(),
{
    match first_char(s, ',', 0) {
        None => seq![s],
        Some(k) => if 0 <= k < s.len() {
            seq![s.take(k)] + split_commas(s.skip(k + 1))
        } else {
            seq![s]
        },
    }
}

/// The sheet a selection token names: a 1-based index, or a name.
pub open spec fn token_sheet(tk: Seq<char>, names: Seq<Seq<char>>) -> Result<Seq<char>, Seq<char>> {
    match parse_unsigned(tk, usize::MAX as nat) {
        Some(i) => if i == 0 || i > names.len() {
            Err("selected sheet index out of range: "@ + dec(i) + " / sheet_count="@ + dec(names.len()))
        } else {
            Ok(names[i - 1])
        },
        None => if names.contains(tk) {
            Ok(tk)
        } else {
            Err("selected sheet not found: "@ + tk)
        },
    }
}

/// The sheets the tokens `toks[i..]` select, added to `acc` without repeats.
pub open spec fn resolve_tokens(toks: Seq<Seq<char>>, i: int, names: Seq<Seq<char>>, acc: Seq<Seq<char>>) -> Result<
    Seq<Seq<char>>,
    Seq<char>,
>
    decreases toks.len() - i,
{
    if i < 0 || i >= toks.len() {
        Ok(acc)
    } else {
        let tk = trim_seq(toks[i]);
        if tk.len() == 0 {
            Err("ETB_SELECTED_SHEETS contains an empty token"@)
        } else {
            match token_sheet(tk, names) {
                Err(e) => Err(e),
                Ok(name) => resolve_tokens(
                    toks,
                    i + 1,
                    names,
                    if acc.contains(name) {
                        acc
                    } else {
                        acc.push(name)
                    },
                ),
            }
        }
    }
}

/// The sheets to read: the target sheet when one is given (it must
/// exist); else all, or the comma-separated selection (indices from 1 or
/// names, repeats dropped).
pub open spec fn spec_target_sheets(names: Seq<Seq<char>>, target: Option<Seq<char>>, selected: Option<Seq<char>>) -> Result<
    Seq<Seq<char>>,
    Seq<char>,
> {
    if target is Some && trim_seq(target->0).len() > 0 {
        let t = trim_seq(target->0);
        if names.contains(t) {
            Ok(seq![t])
        } else {
            Err("selected sheet not found: "@ + t)
        }
    } else {
        let sel = trim_seq(
            match selected {
                Some(x) => x,
                None => "all"@,
            },
        );
        if sel.len() == 0 || lower_seq(sel) == "all"@ {
            Ok(names)
        } else {
            match resolve_tokens(split_commas(sel), 0, names, Seq::empty()) {
                Err(e) => Err(e),
                Ok(r) => if r.len() == 0 {
                    Err("no selected worksheets resolved"@)
                } else {
                    Ok(r)
                },
            }
        }
    }
}

pub open spec fn sheets_res_view(r: Result<Vec<String>, AppError>) -> Result<Seq<Seq<char>>, Seq<char>> {
    match r {
        Ok(v) => Ok(str_views(v@)),
        Err(AppError::WorkbookReadFailed(m)) => Err(m@),
        Err(AppError::Internal(m)) => Err("internal: "@ + m@),
    }
}

fn read_error(m: Vec<char>) -> (e: AppError)
    ensures
        e matches AppError::WorkbookReadFailed(x) && x@ == m@,
{
    AppError::WorkbookReadFailed(string_of(&m))
}

fn index_of_name(names: &[String], name: &Vec<char>) -> (r: Option<usize>)
    ensures
        match r {
            Some(i) => i < names.len() && names@[i as int]@ == name@,
            None => !str_views(names@).contains(name@),
        },
{
    let mut i: usize = 0;
    while i < names.len()
        invariant
            i <= names.len(),
            forall|j: int| 0 <= j < i ==> names@[j]@ != name@,
        decreases names.len() - i,
    {
        if eq_vec(&chars_of(names[i].as_str()), name) {
            return Some(i);
        }
        i += 1;
    }
    proof {
        if str_views(names@).contains(name@) {
            let j = choose|j: int| 0 <= j < str_views(names@).len() && str_views(names@)[j] == name@;
            assert(names@[j]@ == name@);
        }
    }
    None
}

fn token_sheet_exec(tk: &Vec<char>, names: &[String]) -> (r: Result<String, Vec<char>>)
    ensures
        match r {
            Ok(n) => token_sheet(tk@, str_views(names@)) == Ok::<Seq<char>, Seq<char>>(n@),
            Err(m) => token_sheet(tk@, str_views(names@)) == Err::<Seq<char>, Seq<char>>(m@),
        },
{
    match parse_unsigned_range(tk, 0, tk.len(), usize::MAX as u64) {
        Some(i) => {
            proof {
                assert(tk@.subrange(0, tk@.len() as int) =~= tk@);
            }
            let index = i as usize;
            if index == 0 || index > names.len() {
                let mut m = chars_of("selected sheet index out of range: ");
                push_all(&mut m, &dec_chars(index));
                push_all(&mut m, &chars_of(" / sheet_count="));
                push_all(&mut m, &dec_chars(names.len()));
                Err(m)
            } else {
                let n = names[index - 1].clone();
                proof {
                    assert(str_views(names@)[index - 1] == names@[index - 1]@);
                    assert(n@ == names@[index - 1]@);
                }
                Ok(n)
            }
        },
        None => {
            proof {
                assert(tk@.subrange(0, tk@.len() as int) =~= tk@);
            }
            match index_of_name(names, tk) {
                Some(j) => {
                    proof {
                        assert(str_views(names@)[j as int] == tk@);
                    }
                    Ok(string_of(tk))
                },
                None => {
                    let mut m = chars_of("selected sheet not found: ");
                    push_all(&mut m, tk);
                    Err(m)
                },
            }
        },
    }
}

pub(crate) fn split_commas_exec(s: &Vec<char>) -> (r: Vec<Vec<char>>)
    ensures
        r@.map_values(|v: Vec<char>| v@) == split_commas(s@),
{
    let mut out: Vec<Vec<char>> = Vec::new();
    let mut start: usize = 0;
    loop
        invariant
            start <= s.len(),
            out@.map_values(|v: Vec<char>| v@) + split_commas(s@.skip(start as int)) == split_commas(s@),
        decreases s.len() - start,
    {
        let mut rest: Vec<char> = Vec::new();
        push_range(&mut rest, s, start, s.len());
        proof {
            assert(rest@ =~= s@.skip(start as int));
        }
        let ghost before = out@.map_values(|v: Vec<char>| v@);
        match find_char(&rest, ',', 0) {
            None => {
                out.push(rest);
                proof {
                    assert(out@.map_values(|v: Vec<char>| v@) =~= before.push(s@.skip(start as int)));
                    assert(before + seq![s@.skip(start as int)] =~= before.push(s@.skip(start as int)));
                }
                return out;
            },
            Some(k) => {
                let mut piece: Vec<char> = Vec::new();
                push_range(&mut piece, &rest, 0, k);
                proof {
                    assert(piece@ =~= rest@.take(k as int));
                    assert(rest@.skip(k + 1) =~= s@.skip(start + k + 1));
                }
                out.push(piece);
                proof {
                    assert(out@.map_values(|v: Vec<char>| v@) =~= before.push(rest@.take(k as int)));
                    assert(before.push(rest@.take(k as int)) + split_commas(s@.skip(start + k + 1)) =~= before + (
                    seq![rest@.take(k as int)] + split_commas(rest@.skip(k + 1))));
                }
                start = start + k + 1;
            },
        }
    }
}

fn contains_name(v: &Vec<String>, name: &String) -> (b: bool)
    ensures
        b == str_views(v@).contains(name@),
{
    let mut i: usize = 0;
    while i < v.len()
        invariant
            i <= v.len(),
            forall|j: int| 0 <= j < i ==> v@[j]@ != name@,
        decreases v.len() - i,
    {
        if str_eq(v[i].as_str(), name.as_str()) {
            proof {
                assert(str_views(v@)[i as int] == name@);
            }
            return true;
        }
        i += 1;
    }
    proof {
        if str_views(v@).contains(name@) {
            let j = choose|j: int| 0 <= j < str_views(v@).len() && str_views(v@)[j] == name@;
            assert(v@[j]@ == name@);
        }
    }
    false
}

/// The sheets to read, given the workbook's sheet names and the values of
/// `ETB_TARGET_SHEET` and `ETB_SELECTED_SHEETS`, when set.
pub fn resolve_reader_target_sheets(
    workbook_sheet_names: &[String],
    target_sheet: Option<String>,
    selected_sheets: Option<String>,
) -> (r: Result<Vec<String>, AppError>)
    ensures
        sheets_res_view(r) == spec_target_sheets(
            str_views(workbook_sheet_names@),
            opt_str_view(target_sheet),
            opt_str_view(selected_sheets),
        ),
        r matches Err(e) ==> e is WorkbookReadFailed,
{
    let ghost names = str_views(workbook_sheet_names@);
    if let Some(t) = &target_sheet {
        let tt = trim_vec(&chars_of(t.as_str()));
        if tt.len() > 0 {
            return match index_of_name(workbook_sheet_names, &tt) {
                Some(j) => {
                    let out = vec![string_of(&tt)];
                    proof {
                        assert(names[j as int] == tt@);
                        assert(str_views(out@) =~= seq![tt@]);
                    }
                    Ok(out)
                },
                None => {
                    let mut m = chars_of("selected sheet not found: ");
                    push_all(&mut m, &tt);
                    Err(read_error(m))
                },
            };
        }
    }
    let raw = match &selected_sheets {
        Some(x) => chars_of(x.as_str()),
        None => chars_of("all"),
    };
    let sel = trim_vec(&raw);
    if sel.len() == 0 || eq_vec(&lower_vec(&sel), &chars_of("all")) {
        return Ok(copy_names(workbook_sheet_names));
    }
    resolve_selection(workbook_sheet_names, &sel)
}

pub open spec fn selection_result(sel: Seq<char>, names: Seq<Seq<char>>) -> Result<Seq<Seq<char>>, Seq<char>> {
    match resolve_tokens(split_commas(sel), 0, names, Seq::empty()) {
        Err(e) => Err(e),
        Ok(r) => if r.len() == 0 {
            Err("no selected worksheets resolved"@)
        } else {
            Ok(r)
        },
    }
}

fn copy_names(v: &[String]) -> (r: Vec<String>)
    ensures
        str_views(r@) == str_views(v@),
{
    let mut out: Vec<String> = Vec::new();
    let mut i: usize = 0;
    while i < v.len()
        invariant
            i <= v.len(),
            str_views(out@) == str_views(v@).take(i as int),
        decreases v.len() - i,
    {
        let ghost before = str_views(out@);
        let x = v[i].clone();
        proof {
            assert(x@ == v@[i as int]@);
        }
        out.push(x);
        proof {
            assert(str_views(out@) =~= before.push(v@[i as int]@));
            assert(str_views(v@).take(i + 1) =~= str_views(v@).take(i as int).push(v@[i as int]@));
        }
        i += 1;
    }
    proof {
        assert(str_views(v@).take(v@.len() as int) =~= str_views(v@));
    }
    out
}

fn resolve_selection(workbook_sheet_names: &[String], sel: &Vec<char>) -> (r: Result<Vec<String>, AppError>)
    ensures
        sheets_res_view(r) == selection_result(sel@, str_views(workbook_sheet_names@)),
        r matches Err(e) ==> e is WorkbookReadFailed,
{
    let ghost names = str_views(workbook_sheet_names@);
    let toks = split_commas_exec(sel);
    let ghost tv = toks@.map_values(|v: Vec<char>| v@);
    let mut resolved: Vec<String> = Vec::new();
    proof {
        assert(str_views(resolved@) =~= Seq::<Seq<char>>::empty());
    }
    let mut i: usize = 0;
    while i < toks.len()
        invariant
            i <= toks.len(),
            names == str_views(workbook_sheet_names@),
            tv == toks@.map_values(|v: Vec<char>| v@),
            tv == split_commas(sel@),
            resolve_tokens(tv, 0, names, Seq::empty()) == resolve_tokens(tv, i as int, names, str_views(resolved@)),
        decreases toks.len() - i,
    {
        let tk = trim_vec(&toks[i]);
        proof {
            assert(tv[i as int] == toks@[i as int]@);
        }
        if tk.len() == 0 {
            return Err(read_error(chars_of("ETB_SELECTED_SHEETS contains an empty token")));
        }
        let name = match token_sheet_exec(&tk, workbook_sheet_names) {
            Ok(n) => n,
            Err(m) => return Err(read_error(m)),
        };
        if !contains_name(&resolved, &name) {
            let ghost before = str_views(resolved@);
            let ghost nv = name@;
            resolved.push(name);
            proof {
                assert(str_views(resolved@) =~= before.push(nv));
            }
        }
        i += 1;
    }
    if resolved.len() == 0 {
        return Err(read_error(chars_of("no selected worksheets resolved")));
    }
    Ok(resolved)
}

// ------------------------------------------------------------------
// Cells
// ------------------------------------------------------------------

/// What a cell's value is, as far as the reader cares.
#[derive(Debug, Clone, Copy, PartialEq, Eq, Structural)]
pub enum CellValueKind {
    DateTime,
    Number,
    Empty,
    Other,
}

/// A formula text, trimmed, with a leading `=` (blank stays empty).
pub open spec fn spec_normalize_formula_text(t: Seq<char>) -> Seq<char> {
    let tr = trim_seq(t);
    if tr.len() == 0 {
        Seq::empty()
    } else if tr[0] == '=' {
        tr
    } else {
        seq!['='] + tr
    }
}

pub fn normalize_formula_text(formula_text: &str) -> (r: String)
    ensures
        r@ == spec_normalize_formula_text(formula_text@),
{
    let tr = trim_vec(&chars_of(formula_text));
    if tr.len() == 0 {
        String::new()
    } else if tr[0] == '=' {
        string_of(&tr)
    } else {
        let mut out = vec!['='];
        push_all(&mut out, &tr);
        string_of(&out)
    }
}

/// The formula a cell shows for the protected-text check.
pub open spec fn check_formula(m: FormulaMetaView) -> Seq<char> {
    if trim_seq(m.formula_text).len() > 0 {
        spec_normalize_formula_text(m.formula_text)
    } else {
        match m.resolved_formula_text {
            Some(r) => spec_normalize_formula_text(r),
            None => Seq::empty(),
        }
    }
}

/// The kind of a cell: hyperlink cells and cells whose text (shown, raw or
/// formula) is a transport token (URL, address, path) are hyperlink text;
/// then the shared-formula roles, formulas, and the value's kind.
pub open spec fn spec_detect_cell_kind(
    anchor: Seq<char>,
    m: FormulaMetaView,
    vk: CellValueKind,
    value_text: Seq<char>,
    display: Seq<char>,
    links: Seq<Seq<char>>,
) -> LogicalCellKind {
    if links.contains(anchor) {
        LogicalCellKind::HyperlinkText
    } else if spec_is_protected_transport_text(display) || spec_is_protected_transport_text(value_text) {
        LogicalCellKind::HyperlinkText
    } else if m.has_formula_tag && spec_is_protected_transport_text(check_formula(m)) {
        LogicalCellKind::HyperlinkText
    } else if m.is_shared_follower {
        LogicalCellKind::SharedFormulaFollower
    } else if m.is_shared_parent {
        LogicalCellKind::SharedFormulaParent
    } else if m.has_formula_tag {
        LogicalCellKind::FormulaRaw
    } else {
        match vk {
            CellValueKind::DateTime => LogicalCellKind::Date,
            CellValueKind::Number => LogicalCellKind::Number,
            CellValueKind::Empty => LogicalCellKind::Empty,
            CellValueKind::Other => LogicalCellKind::Text,
        }
    }
}

pub fn detect_cell_kind(
    anchor_address: &str,
    formula_meta: &FormulaMeta,
    value_kind: CellValueKind,
    value_text: &str,
    display_text: &str,
    hyperlink_cells: &Vec<String>,
) -> (k: LogicalCellKind)
    ensures
        k == spec_detect_cell_kind(
            anchor_address@,
            formula_meta@,
            value_kind,
            value_text@,
            display_text@,
            str_views(hyperlink_cells@),
        ),
{
    if contains_name(hyperlink_cells, &string_of(&chars_of(anchor_address))) {
        return LogicalCellKind::HyperlinkText;
    }
    if is_protected_transport_text(display_text) || is_protected_transport_text(value_text) {
        return LogicalCellKind::HyperlinkText;
    }
    if formula_meta.has_formula_tag {
        let formula_text = if !str_is_blank(formula_meta.formula_text.as_str()) {
            normalize_formula_text(formula_meta.formula_text.as_str())
        } else {
            match &formula_meta.resolved_formula_text {
                Some(r) => normalize_formula_text(r.as_str()),
                None => String::new(),
            }
        };
        if is_protected_transport_text(formula_text.as_str()) {
            return LogicalCellKind::HyperlinkText;
        }
    }
    if formula_meta.is_shared_follower {
        return LogicalCellKind::SharedFormulaFollower;
    }
    if formula_meta.is_shared_parent {
        return LogicalCellKind::SharedFormulaParent;
    }
    if formula_meta.has_formula_tag {
        return LogicalCellKind::FormulaRaw;
    }
    match value_kind {
        CellValueKind::DateTime => LogicalCellKind::Date,
        CellValueKind::Number => LogicalCellKind::Number,
        CellValueKind::Empty => LogicalCellKind::Empty,
        CellValueKind::Other => LogicalCellKind::Text,
    }
}

/// The text a cell contributes, by kind: formulas (normalized), the shown
/// text, or the raw value's text.
pub open spec fn spec_build_source_text(
    kind: LogicalCellKind,
    m: FormulaMetaView,
    display: Seq<char>,
    value_text: Seq<char>,
) -> Seq<char> {
    match kind {
        LogicalCellKind::FormulaRaw | LogicalCellKind::SharedFormulaParent => if trim_seq(m.formula_text).len() > 0 {
            spec_normalize_formula_text(m.formula_text)
        } else {
            spec_normalize_formula_text(value_text)
        },
        LogicalCellKind::SharedFormulaFollower => match m.resolved_formula_text {
            Some(r) => spec_normalize_formula_text(r),
            None => if trim_seq(display).len() > 0 {
                display
            } else {
                value_text
            },
        },
        LogicalCellKind::Date => if trim_seq(display).len() > 0 {
            display
        } else {
            value_text
        },
        LogicalCellKind::Number | LogicalCellKind::Text | LogicalCellKind::HyperlinkText => if display.len() > 0 {
            display
        } else {
            value_text
        },
        LogicalCellKind::Empty | LogicalCellKind::NonTranslatable => Seq::empty(),
    }
}

pub fn build_source_text(kind: LogicalCellKind, formula_meta: &FormulaMeta, display_text: &str, value_text: &str) -> (r: String)
    ensures
        r@ == spec_build_source_text(kind, formula_meta@, display_text@, value_text@),
{
    match kind {
        LogicalCellKind::FormulaRaw | LogicalCellKind::SharedFormulaParent => {
            if !str_is_blank(formula_meta.formula_text.as_str()) {
                normalize_formula_text(formula_meta.formula_text.as_str())
            } else {
                normalize_formula_text(value_text)
            }
        },
        LogicalCellKind::SharedFormulaFollower => match &formula_meta.resolved_formula_text {
            Some(r) => normalize_formula_text(r.as_str()),
            None => if !str_is_blank(display_text) {
                string_of(&chars_of(display_text))
            } else {
                string_of(&chars_of(value_text))
            },
        },
        LogicalCellKind::Date => if !str_is_blank(display_text) {
            string_of(&chars_of(display_text))
        } else {
            string_of(&chars_of(value_text))
        },
        LogicalCellKind::Number | LogicalCellKind::Text | LogicalCellKind::HyperlinkText => {
            let d = chars_of(display_text);
            if d.len() > 0 {
                string_of(&d)
            } else {
                string_of(&chars_of(value_text))
            }
        },
        LogicalCellKind::Empty | LogicalCellKind::NonTranslatable => String::new(),
    }
}

/// The text a cell contributes: a formula cell with a formula gives that
/// formula trimmed and starting with one `=` added when it had none; text,
/// number and hyperlink cells give their shown text, or their raw value
/// when nothing is shown; empty and non-translatable cells give nothing.
pub proof fn law_source_text_by_kind(
    kind: LogicalCellKind,
    m: FormulaMetaView,
    display: Seq<char>,
    value_text: Seq<char>,
)
    ensures
        ((kind == LogicalCellKind::FormulaRaw || kind == LogicalCellKind::SharedFormulaParent) && trim_seq(
            m.formula_text,
        ).len() > 0) ==> ({
            let r = spec_build_source_text(kind, m, display, value_text);
            &&& r.len() > 0
            &&& r[0] == '='
            &&& (r == trim_seq(m.formula_text) || r == seq!['='] + trim_seq(m.formula_text))
            &&& (trim_seq(m.formula_text)[0] != '=' ==> r == seq!['='] + trim_seq(m.formula_text))
        }),
        ((kind == LogicalCellKind::Text || kind == LogicalCellKind::Number || kind == LogicalCellKind::HyperlinkText)
            && display.len() > 0) ==> spec_build_source_text(kind, m, display, value_text) == display,
        ((kind == LogicalCellKind::Text || kind == LogicalCellKind::Number || kind == LogicalCellKind::HyperlinkText)
            && display.len() == 0) ==> spec_build_source_text(kind, m, display, value_text) == value_text,
        (kind == LogicalCellKind::Empty || kind == LogicalCellKind::NonTranslatable) ==> spec_build_source_text(
            kind,
            m,
            display,
            value_text,
        ).len() == 0,
{
}

/// What the formula cells of the sheet say of the cell at `addr`.
pub open spec fn meta_at(cells: Seq<(Seq<char>, FormulaMetaView)>, addr: Seq<char>) -> FormulaMetaView {
    if entries_map(cells).contains_key(addr) {
        entries_map(cells)[addr]
    } else {
        crate::core2::shared_formula_reader::no_formula()
    }
}

pub fn formula_meta_for(formula_cells: &Vec<(String, FormulaMeta)>, anchor_address: &str) -> (m: FormulaMeta)
    requires
        distinct_keys(entry_views(formula_cells@)),
    ensures
        m@ == meta_at(entry_views(formula_cells@), anchor_address@),
{
    proof {
        lemma_entries_map_distinct(entry_views(formula_cells@));
    }
    match find_key(formula_cells, anchor_address) {
        Some(i) => {
            let src = &formula_cells[i].1;
            proof {
                assert(entry_views(formula_cells@)[i as int].0 == anchor_address@);
            }
            FormulaMeta {
                formula_text: src.formula_text.clone(),
                has_formula_tag: src.has_formula_tag,
                is_shared_parent: src.is_shared_parent,
                is_shared_follower: src.is_shared_follower,
                shared_index: match &src.shared_index {
                    Some(x) => Some(x.clone()),
                    None => None,
                },
                resolved_formula_text: match &src.resolved_formula_text {
                    Some(x) => Some(x.clone()),
                    None => None,
                },
            }
        },
        None => {
            proof {
                let e = entry_views(formula_cells@);
                if entries_map(e).contains_key(anchor_address@) {
                    let j = choose|j: int| 0 <= j < e.len() && e[j].0 == anchor_address@;
                    assert(formula_cells@[j].0@ == anchor_address@);
                }
            }
            FormulaMeta::default()
        },
    }
}

/// The logical cell read at `addr` of `sheet`: none for an empty cell
/// without text.
pub open spec fn spec_source_cell(sheet: Seq<char>, addr: Seq<char>, kind: LogicalCellKind, text: Seq<char>, c: Option<LogicalCell>) -> bool {
    if kind == LogicalCellKind::Empty && trim_seq(text).len() == 0 {
        c is None
    } else {
        c matches Some(cell) && !cell.is_merged && !cell.is_merge_anchor && cell.merge_anchor_address is None
            && cell.writeback_allowed && cell.logical_cell_id@ == sheet + seq!['!'] + addr && cell.sheet_name@ == sheet
            && cell.anchor_address@ == addr && cell.cell_kind == kind && cell.source_text@ == text
    }
}

/// The logical cell at `anchor_address` of `target_sheet`, from what the
/// sheet says of it.
pub fn source_cell(
    target_sheet: &str,
    anchor_address: &str,
    formula_meta: &FormulaMeta,
    value_kind: CellValueKind,
    value_text: &str,
    display_text: &str,
    hyperlink_cells: &Vec<String>,
) -> (c: Option<LogicalCell>)
    ensures
        spec_source_cell(
            target_sheet@,
            anchor_address@,
            spec_detect_cell_kind(
                anchor_address@,
                formula_meta@,
                value_kind,
                value_text@,
                display_text@,
                str_views(hyperlink_cells@),
            ),
            spec_build_source_text(
                spec_detect_cell_kind(
                    anchor_address@,
                    formula_meta@,
                    value_kind,
                    value_text@,
                    display_text@,
                    str_views(hyperlink_cells@),
                ),
                formula_meta@,
                display_text@,
                value_text@,
            ),
            c,
        ),
{
    let kind = detect_cell_kind(anchor_address, formula_meta, value_kind, value_text, display_text, hyperlink_cells);
    let source_text = build_source_text(kind, formula_meta, display_text, value_text);
    if kind == LogicalCellKind::Empty && str_is_blank(source_text.as_str()) {
        return None;
    }
    let mut id = chars_of(target_sheet);
    id.push('!');
    push_all(&mut id, &chars_of(anchor_address));
    proof {
        assert(id@ =~= target_sheet@ + seq!['!'] + anchor_address@);
    }
    Some(
        LogicalCell {
            is_merged: false,
            is_merge_anchor: false,
            merge_anchor_address: None,
            writeback_allowed: true,
            logical_cell_id: string_of(&id),
            sheet_name: string_of(&chars_of(target_sheet)),
            anchor_address: string_of(&chars_of(anchor_address)),
            cell_kind: kind,
            source_text,
        },
    )
}

// ------------------------------------------------------------------
// Used area
// ------------------------------------------------------------------

/// The rows and columns a sheet uses.
#[derive(Debug, Clone, Copy)]
pub struct UsedArea {
    pub start_row: usize,
    pub end_row: usize,
    pub start_col: usize,
    pub end_col: usize,
}

/// Bounds `(start_row, end_row, start_col, end_col)` widened by a cell.
pub open spec fn widen(b: (nat, nat, nat, nat), row: nat, col: nat) -> (nat, nat, nat, nat) {
    (min_n(b.0, row), max_n(b.1, row), min_n(b.2, col), max_n(b.3, col))
}

/// The bounds after the `dimension` tags.
pub open spec fn dim_bounds(tags: Seq<Seq<char>>, b: (nat, nat, nat, nat)) -> (nat, nat, nat, nat)
    decreases tags.len(),
{
    if tags.len() == 0 {
        b
    } else {
        let p = dim_bounds(tags.drop_last(), b);
        match spec_extract_attr(tags.last(), "ref"@) {
            Some(r) => match spec_parse_dimension_ref(r) {
                Some((sr, sc, er, ec)) => (min_n(p.0, sr), max_n(p.1, er), min_n(p.2, sc), max_n(p.3, ec)),
                None => p,
            },
            None => p,
        }
    }
}

/// The bounds after the cell tags.
pub open spec fn cell_bounds(tags: Seq<Seq<char>>, b: (nat, nat, nat, nat)) -> (nat, nat, nat, nat)
    decreases tags.len(),
{
    if tags.len() == 0 {
        b
    } else {
        let p = cell_bounds(tags.drop_last(), b);
        match spec_extract_attr(tags.last(), "r"@) {
            Some(r) => match spec_parse_cell_ref(r) {
                Some((row, col)) => widen(p, row, col),
                None => p,
            },
            None => p,
        }
    }
}

/// The used area: the dimension references and cell addresses of the
/// sheet XML; where they give nothing usable, the whole value range
/// (`height` by `width`, at least one cell).
pub open spec fn spec_used_area(xml: Seq<char>, height: nat, width: nat) -> (nat, nat, nat, nat) {
    let start = (usize::MAX as nat, 0nat, usize::MAX as nat, 0nat);
    let b = cell_bounds(spec_find_tags(xml, "c"@), dim_bounds(spec_find_tags(xml, "dimension"@), start));
    if b.0 == usize::MAX || b.2 == usize::MAX || b.1 == 0 || b.3 == 0 {
        (1, max_n(height, 1), 1, max_n(width, 1))
    } else {
        b
    }
}

pub open spec fn area_view(a: UsedArea) -> (nat, nat, nat, nat) {
    (a.start_row as nat, a.end_row as nat, a.start_col as nat, a.end_col as nat)
}

pub fn used_area_from_sheet_xml(sheet_xml: &str, range_height: usize, range_width: usize) -> (a: UsedArea)
    ensures
        area_view(a) == spec_used_area(sheet_xml@, range_height as nat, range_width as nat),
{
    let xml = chars_of(sheet_xml);
    let dims = find_tags(&xml, "dimension");
    let ghost start = (usize::MAX as nat, 0nat, usize::MAX as nat, 0nat);
    let mut a = UsedArea { start_row: usize::MAX, end_row: 0, start_col: usize::MAX, end_col: 0 };
    let mut i: usize = 0;
    while i < dims.len()
        invariant
            i <= dims.len(),
            area_view(a) == dim_bounds(str_views(dims@).take(i as int), start),
        decreases dims.len() - i,
    {
        proof {
            assert(str_views(dims@).take(i + 1).drop_last() =~= str_views(dims@).take(i as int));
            assert(str_views(dims@).take(i + 1).last() == dims@[i as int]@);
        }
        if let Some(reference) = extract_attr(&chars_of(dims[i].as_str()), "ref") {
            if let Some((sr, sc, er, ec)) = parse_dimension_ref(reference.as_str()) {
                a.start_row = if sr < a.start_row { sr } else { a.start_row };
                a.end_row = if er > a.end_row { er } else { a.end_row };
                a.start_col = if sc < a.start_col { sc } else { a.start_col };
                a.end_col = if ec > a.end_col { ec } else { a.end_col };
            }
        }
        i += 1;
    }
    proof {
        assert(str_views(dims@).take(dims@.len() as int) =~= str_views(dims@));
    }
    let ghost mid = area_view(a);
    let cells = find_tags(&xml, "c");
    let mut j: usize = 0;
    while j < cells.len()
        invariant
            j <= cells.len(),
            area_view(a) == cell_bounds(str_views(cells@).take(j as int), mid),
        decreases cells.len() - j,
    {
        proof {
            assert(str_views(cells@).take(j + 1).drop_last() =~= str_views(cells@).take(j as int));
            assert(str_views(cells@).take(j + 1).last() == cells@[j as int]@);
        }
        if let Some(reference) = extract_attr(&chars_of(cells[j].as_str()), "r") {
            if let Some((row, col)) = parse_cell_ref(reference.as_str()) {
                a.start_row = if row < a.start_row { row } else { a.start_row };
                a.end_row = if row > a.end_row { row } else { a.end_row };
                a.start_col = if col < a.start_col { col } else { a.start_col };
                a.end_col = if col > a.end_col { col } else { a.end_col };
            }
        }
        j += 1;
    }
    proof {
        assert(str_views(cells@).take(cells@.len() as int) =~= str_views(cells@));
    }
    if a.start_row == usize::MAX || a.start_col == usize::MAX || a.end_row == 0 || a.end_col == 0 {
        return UsedArea {
            start_row: 1,
            end_row: if range_height > 1 { range_height } else { 1 },
            start_col: 1,
            end_col: if range_width > 1 { range_width } else { 1 },
        };
    }
    a
}

/// A cell that carries a hyperlink is hyperlink text whatever its formula,
/// value and shown text; so is a cell whose shown or raw text is a
/// transport token. Otherwise a shared-formula follower is a follower, a
/// plain formula is a formula, and a cell without formula takes the kind of
/// its value (text, date, number or empty); a cell classified as plain text,
/// a date, a number or empty has no formula and carries no hyperlink.
pub proof fn law_hyperlink_cells_are_kept(
    anchor: Seq<char>,
    m: FormulaMetaView,
    vk: CellValueKind,
    value_text: Seq<char>,
    display: Seq<char>,
    links: Seq<Seq<char>>,
)
    ensures
        (exists|i: int| 0 <= i < links.len() && links[i] == anchor) ==> spec_detect_cell_kind(
            anchor,
            m,
            vk,
            value_text,
            display,
            links,
        ) == LogicalCellKind::HyperlinkText,
        spec_is_protected_transport_text(display) ==> spec_detect_cell_kind(anchor, m, vk, value_text, display, links)
            == LogicalCellKind::HyperlinkText,
        spec_is_protected_transport_text(value_text) ==> spec_detect_cell_kind(anchor, m, vk, value_text, display, links)
            == LogicalCellKind::HyperlinkText,
        spec_detect_cell_kind(anchor, m, vk, value_text, display, links) == LogicalCellKind::FormulaRaw ==> m.has_formula_tag,
        spec_detect_cell_kind(anchor, m, vk, value_text, display, links) == LogicalCellKind::SharedFormulaFollower
            ==> m.is_shared_follower,
        spec_detect_cell_kind(anchor, m, vk, value_text, display, links) == LogicalCellKind::SharedFormulaParent
            ==> m.is_shared_parent,
        (spec_detect_cell_kind(anchor, m, vk, value_text, display, links) == LogicalCellKind::Text
            || spec_detect_cell_kind(anchor, m, vk, value_text, display, links) == LogicalCellKind::Date
            || spec_detect_cell_kind(anchor, m, vk, value_text, display, links) == LogicalCellKind::Number
            || spec_detect_cell_kind(anchor, m, vk, value_text, display, links) == LogicalCellKind::Empty)
            ==> !m.has_formula_tag && !m.is_shared_follower && !m.is_shared_parent && !links.contains(anchor),
        (!links.contains(anchor) && !spec_is_protected_transport_text(display) && !spec_is_protected_transport_text(
            value_text,
        ) && !m.has_formula_tag && !m.is_shared_follower && !m.is_shared_parent) ==> spec_detect_cell_kind(
            anchor,
            m,
            vk,
            value_text,
            display,
            links,
        ) == match vk {
            CellValueKind::DateTime => LogicalCellKind::Date,
            CellValueKind::Number => LogicalCellKind::Number,
            CellValueKind::Empty => LogicalCellKind::Empty,
            CellValueKind::Other => LogicalCellKind::Text,
        },
        (!links.contains(anchor) && !spec_is_protected_transport_text(display) && !spec_is_protected_transport_text(
            value_text,
        ) && !(m.has_formula_tag && spec_is_protected_transport_text(check_formula(m))) && m.is_shared_follower)
            ==> spec_detect_cell_kind(anchor, m, vk, value_text, display, links)
            == LogicalCellKind::SharedFormulaFollower,
        (!links.contains(anchor) && !spec_is_protected_transport_text(display) && !spec_is_protected_transport_text(
            value_text,
        ) && !spec_is_protected_transport_text(check_formula(m)) && m.has_formula_tag && !m.is_shared_follower
            && !m.is_shared_parent) ==> spec_detect_cell_kind(anchor, m, vk, value_text, display, links)
            == LogicalCellKind::FormulaRaw,
{
    if exists|i: int| 0 <= i < links.len() && links[i] == anchor {
        assert(links.contains(anchor));
    }
}

} // verus!
