//! What applying the chosen texts does to each cell of the base workbook:
//! a formula candidate is cleaned up and checked before it may replace the
//! cell's formula; a broken one keeps the base formula and is reported.
use vstd::prelude::*;

use crate::core2::shared_formula_apply_patch::SharedFormulaOverride;
use crate::core2::shared_formula_reader::{col_letters, number_to_col_letters};
use crate::text::{
    chars_of, eq_vec, is_ws, is_ws_char, lemma_lead_ws_bound, push_all, push_range, str_eq, string_of,
    trim_seq, trim_start_bound, trim_start_seq, trim_vec,
};

verus! {

broadcast use vstd::seq_lib::group_seq_properties;

/// One row of the apply payload: the text chosen for a cell and how it is
/// written back.
#[derive(Debug, Clone)]
pub struct ApplyPayloadRow {
    pub logical_cell_id: String,
    pub sheet_name: String,
    pub anchor_address: String,
    pub writeback_mode: String,
    pub writeback_allowed: bool,
    pub selected_text: String,
    pub selected_source: String,
    pub apply_warning: Option<String>,
}

// ------------------------------------------------------------------
// Formula text
// ------------------------------------------------------------------

/// Leading `=` signs removed, each with the white space after it.
pub open spec fn strip_eqs(t: Seq<char>) -> Seq<char>
    decreases t.len(),
{
    if t.len() > 0 && t[0] == '=' {
        proof {
            lemma_lead_ws_bound(t.drop_first());
        }
        strip_eqs(trim_start_seq(t.drop_first()))
    } else {
        t
    }
}

/// A formula body without its surrounding white space, a leading `'` and
/// its leading `=` signs.
pub open spec fn spec_normalize_formula_body(input: Seq<char>) -> Seq<char> {
    let t = trim_seq(input);
    let t2 = if t.len() > 0 && t[0] == '\'' {
        trim_start_seq(t.drop_first())
    } else {
        t
    };
    strip_eqs(t2)
}

fn trim_start_vec(v: &Vec<char>) -> (r: Vec<char>)
    ensures
        r@ == trim_start_seq(v@),
{
    let lo = trim_start_bound(v);
    let mut r: Vec<char> = Vec::new();
    push_range(&mut r, v, lo, v.len());
    proof {
        assert(r@ =~= v@.skip(lo as int));
    }
    r
}

fn drop_first_trim(v: &Vec<char>) -> (r: Vec<char>)
    requires
        v.len() > 0,
    ensures
        r@ == trim_start_seq(v@.drop_first()),
{
    let mut t: Vec<char> = Vec::new();
    push_range(&mut t, v, 1, v.len());
    proof {
        assert(t@ =~= v@.drop_first());
    }
    trim_start_vec(&t)
}

pub fn normalize_formula_body(input: &str) -> (r: String)
    ensures
        r@ == spec_normalize_formula_body(input@),
{
    let mut t = trim_vec(&chars_of(input));
    if t.len() > 0 && t[0] == '\'' {
        t = drop_first_trim(&t);
    }
    let ghost t2 = t@;
    while t.len() > 0 && t[0] == '='
        invariant
            strip_eqs(t2) == strip_eqs(t@),
        decreases t.len(),
    {
        let n = drop_first_trim(&t);
        proof {
            lemma_lead_ws_bound(t@.drop_first());
        }
        t = n;
    }
    string_of(&t)
}

/// Full-width syntax characters outside a string literal, as ASCII.
pub open spec fn ascii_syntax(c: char) -> char {
    if c == '（' {
        '('
    } else if c == '）' {
        ')'
    } else if c == '：' {
        ':'
    } else if c == '，' {
        ','
    } else if c == '；' {
        ';'
    } else if c == '“' || c == '”' || c == '＂' {
        '"'
    } else {
        c
    }
}

pub open spec fn is_quote_like(c: char) -> bool {
    c == '"' || c == '“' || c == '”' || c == '＂'
}

/// The formula from `i` on with its syntax outside string literals made
/// ASCII; `in_q` tells whether `i` is inside a literal. Inside a literal
/// only a closing quote of any kind changes, to `"`; `""` stays.
pub open spec fn norm_from(s: Seq<char>, i: int, in_q: bool) -> Seq<char>
    decreases s.len() - i,
{
    if i < 0 || i >= s.len() {
        Seq::empty()
    } else if !in_q {
        let m = ascii_syntax(s[i]);
        seq![m] + norm_from(s, i + 1, m == '"')
    } else if s[i] == '"' && i + 1 < s.len() && s[i + 1] == '"' {
        seq!['"', '"'] + norm_from(s, i + 2, true)
    } else if is_quote_like(s[i]) {
        seq!['"'] + norm_from(s, i + 1, false)
    } else {
        seq![s[i]] + norm_from(s, i + 1, true)
    }
}

fn ascii_syntax_exec(c: char) -> (r: char)
    ensures
        r == ascii_syntax(c),
{
    if c == '（' {
        '('
    } else if c == '）' {
        ')'
    } else if c == '：' {
        ':'
    } else if c == '，' {
        ','
    } else if c == '；' {
        ';'
    } else if c == '“' || c == '”' || c == '＂' {
        '"'
    } else {
        c
    }
}

pub fn normalize_formula_syntax(input: &str) -> (r: String)
    ensures
        r@ == norm_from(input@, 0, false),
{
    let chars = chars_of(input);
    let mut out: Vec<char> = Vec::new();
    let mut in_quote = false;
    let mut i: usize = 0;
    while i < chars.len()
        invariant
            i <= chars.len(),
            chars@ == input@,
            out@ + norm_from(chars@, i as int, in_quote) == norm_from(chars@, 0, false),
        decreases chars.len() - i,
    {
        let ch = chars[i];
        let ghost before = out@;
        if !in_quote {
            let mapped = ascii_syntax_exec(ch);
            if mapped == '"' {
                in_quote = true;
            }
            out.push(mapped);
            proof {
                assert(before + norm_from(chars@, i as int, false) =~= out@ + norm_from(chars@, i + 1, in_quote));
            }
            i += 1;
        } else if ch == '"' && i + 1 < chars.len() && chars[i + 1] == '"' {
            out.push('"');
            out.push('"');
            proof {
                assert(before + norm_from(chars@, i as int, true) =~= out@ + norm_from(chars@, i + 2, true));
            }
            i += 2;
        } else if ch == '"' || ch == '“' || ch == '”' || ch == '＂' {
            in_quote = false;
            out.push('"');
            proof {
                assert(before + norm_from(chars@, i as int, true) =~= out@ + norm_from(chars@, i + 1, false));
            }
            i += 1;
        } else {
            out.push(ch);
            proof {
                assert(before + norm_from(chars@, i as int, true) =~= out@ + norm_from(chars@, i + 1, true));
            }
            i += 1;
        }
    }
    proof {
        assert(out@ + Seq::<char>::empty() =~= out@);
    }
    string_of(&out)
}

/// Characters that must not stay outside a string literal: full-width
/// syntax, smart quotes and the ideographic space.
pub open spec fn is_fullwidth_syntax(c: char) -> bool {
    c == '（' || c == '）' || c == '：' || c == '，' || c == '；' || c == '“' || c == '”' || c == '＂'
        || c == '　'
}

/// The scan of `is_formula_syntax_valid` from `i`, with `depth` open
/// parentheses: literals closed, parentheses balanced and never closed
/// before they open, and no white space or full-width syntax outside
/// literals.
pub open spec fn valid_from(s: Seq<char>, i: int, depth: nat, in_q: bool) -> bool
    decreases s.len() - i,
{
    if i < 0 || i >= s.len() {
        !in_q && depth == 0
    } else if in_q {
        if s[i] == '"' && i + 1 < s.len() && s[i + 1] == '"' {
            valid_from(s, i + 2, depth, true)
        } else if s[i] == '"' {
            valid_from(s, i + 1, depth, false)
        } else {
            valid_from(s, i + 1, depth, true)
        }
    } else if s[i] == '"' {
        valid_from(s, i + 1, depth, true)
    } else if s[i] == '(' {
        valid_from(s, i + 1, depth + 1, false)
    } else if s[i] == ')' {
        depth > 0 && valid_from(s, i + 1, (depth - 1) as nat, false)
    } else if is_fullwidth_syntax(s[i]) || is_ws(s[i]) {
        false
    } else {
        valid_from(s, i + 1, depth, false)
    }
}

/// Whether a formula body is safe to set: not blank, and well formed as
/// `valid_from` checks.
pub open spec fn spec_formula_syntax_valid(body: Seq<char>) -> bool {
    trim_seq(body).len() > 0 && valid_from(body, 0, 0, false)
}

pub fn is_formula_syntax_valid(body: &str) -> (b: bool)
    ensures
        b == spec_formula_syntax_valid(body@),
{
    let chars = chars_of(body);
    if crate::text::is_blank(&chars) {
        return false;
    }
    let mut depth: usize = 0;
    let mut in_quote = false;
    let mut i: usize = 0;
    while i < chars.len()
        invariant
            i <= chars.len(),
            depth <= i,
            chars@ == body@,
            trim_seq(body@).len() > 0,
            valid_from(chars@, 0, 0, false) == valid_from(chars@, i as int, depth as nat, in_quote),
        decreases chars.len() - i,
    {
        let ch = chars[i];
        if in_quote {
            if ch == '"' && i + 1 < chars.len() && chars[i + 1] == '"' {
                i += 2;
            } else {
                if ch == '"' {
                    in_quote = false;
                }
                i += 1;
            }
        } else if ch == '"' {
            in_quote = true;
            i += 1;
        } else if ch == '(' {
            depth += 1;
            i += 1;
        } else if ch == ')' {
            if depth == 0 {
                return false;
            }
            depth -= 1;
            i += 1;
        } else if ch == '（' || ch == '）' || ch == '：' || ch == '，' || ch == '；' || ch == '“' || ch == '”' || ch
            == '＂' || ch == '　' || is_ws_char(ch) {
            return false;
        } else {
            i += 1;
        }
    }
    !in_quote && depth == 0
}

/// `col_index_to_letters`: the letters of column `col` (1 is `A`).
pub fn col_index_to_letters(col: u32) -> (r: String)
    ensures
        r@ == col_letters(col as nat),
{
    string_of(&number_to_col_letters(col as u64))
}

// ------------------------------------------------------------------
// What each row does
// ------------------------------------------------------------------

/// What applying a row does to its cell.
#[derive(Debug, Clone)]
pub enum ApplyRowAction {
    /// The row is not written back.
    Skip,
    /// A formula row whose body is blank is left alone.
    SkipEmptyFormula,
    /// A formula candidate with broken syntax: the base formula stays, and
    /// the warning is reported.
    KeepBaseFormula { warning: String },
    /// The master of a shared formula: the group is rewritten afterwards.
    SharedOverride(SharedFormulaOverride),
    /// The cell's formula is set; `formula_body` is the candidate as chosen,
    /// for the warning if the formula does not read back.
    SetFormula { formula: String, formula_body: String },
    /// The cell's value is set to the text.
    SetValue { text: String },
}

pub open spec fn rejected_warning(body: Seq<char>) -> Seq<char> {
    "数式候補が無効な構文のため不適用。元の数式を保持しました（候補: "@ + body + "）"@
}

pub open spec fn readback_warning(body: Seq<char>) -> Seq<char> {
    "数式の書き戻し検証に失敗したため元の数式を保持しました（候補: "@ + body + "）"@
}

/// The action of a row, given whether its cell is the master of a shared
/// formula.
pub open spec fn spec_row_action(row: ApplyPayloadRow, is_shared_parent: bool, a: ApplyRowAction) -> bool {
    if row.writeback_mode@ == "Preserve"@ || row.writeback_mode@ == "SharedFormulaFollower"@ || !row.writeback_allowed {
        a is Skip
    } else if row.writeback_mode@ == "Formula"@ {
        let body = spec_normalize_formula_body(row.selected_text@);
        let normalized = norm_from(body, 0, false);
        if trim_seq(body).len() == 0 {
            a is SkipEmptyFormula
        } else if !spec_formula_syntax_valid(normalized) {
            a matches ApplyRowAction::KeepBaseFormula { warning } && warning@ == rejected_warning(body)
        } else if is_shared_parent {
            a matches ApplyRowAction::SharedOverride(ov) && ov.sheet_name@ == row.sheet_name@ && ov.anchor_address@
                == row.anchor_address@ && ov.formula_body@ == normalized
        } else {
            a matches ApplyRowAction::SetFormula { formula, formula_body } && formula@ == normalized
                && formula_body@ == body
        }
    } else {
        a matches ApplyRowAction::SetValue { text } && text@ == row.selected_text@
    }
}

/// The key under which the masters of shared formulas are looked up.
pub open spec fn shared_parent_key(sheet: Seq<char>, addr: Seq<char>) -> Seq<char> {
    sheet + seq!['!'] + addr
}

pub fn shared_parent_key_exec(sheet: &str, addr: &str) -> (r: String)
    ensures
        r@ == shared_parent_key(sheet@, addr@),
{
    let mut k = chars_of(sheet);
    k.push('!');
    push_all(&mut k, &chars_of(addr));
    string_of(&k)
}

/// What applying `row` does; `is_shared_parent` tells whether its cell is
/// the master of a shared formula.
pub fn plan_apply_row(row: &ApplyPayloadRow, is_shared_parent: bool) -> (a: ApplyRowAction)
    ensures
        spec_row_action(*row, is_shared_parent, a),
{
    let mode = row.writeback_mode.as_str();
    if str_eq(mode, "Preserve") || str_eq(mode, "SharedFormulaFollower") || !row.writeback_allowed {
        return ApplyRowAction::Skip;
    }
    if !str_eq(mode, "Formula") {
        return ApplyRowAction::SetValue { text: row.selected_text.clone() };
    }
    let body = normalize_formula_body(row.selected_text.as_str());
    if crate::text::str_is_blank(body.as_str()) {
        return ApplyRowAction::SkipEmptyFormula;
    }
    let normalized = normalize_formula_syntax(body.as_str());
    if !is_formula_syntax_valid(normalized.as_str()) {
        let mut w = chars_of("数式候補が無効な構文のため不適用。元の数式を保持しました（候補: ");
        push_all(&mut w, &chars_of(body.as_str()));
        push_all(&mut w, &chars_of("）"));
        return ApplyRowAction::KeepBaseFormula { warning: string_of(&w) };
    }
    if is_shared_parent {
        return ApplyRowAction::SharedOverride(
            SharedFormulaOverride {
                sheet_name: row.sheet_name.clone(),
                anchor_address: row.anchor_address.clone(),
                formula_body: normalized,
            },
        );
    }
    ApplyRowAction::SetFormula { formula: normalized, formula_body: body }
}

/// A set formula counts as applied when the cell reads back as a formula
/// whose text, trimmed, is the one set.
pub fn formula_readback_ok(readback_is_formula: bool, readback: &str, normalized: &str) -> (b: bool)
    ensures
        b == (readback_is_formula && trim_seq(readback@) == trim_seq(normalized@)),
{
    readback_is_formula && eq_vec(&trim_vec(&chars_of(readback)), &trim_vec(&chars_of(normalized)))
}

/// The warning for a formula that did not read back.
pub fn readback_failed_warning(formula_body: &str) -> (r: String)
    ensures
        r@ == readback_warning(formula_body@),
{
    let mut w = chars_of("数式の書き戻し検証に失敗したため元の数式を保持しました（候補: ");
    push_all(&mut w, &chars_of(formula_body));
    push_all(&mut w, &chars_of("）"));
    string_of(&w)
}

/// A line of the warnings sheet: sheet, cell, source, warning.
pub type WarningLine = (String, String, String, String);

pub open spec fn line_view(l: WarningLine) -> (Seq<char>, Seq<char>, Seq<char>, Seq<char>) {
    (l.0@, l.1@, l.2@, l.3@)
}

/// The lines of the rows that carry a warning, in order.
pub open spec fn row_lines(rows: Seq<ApplyPayloadRow>) -> Seq<(Seq<char>, Seq<char>, Seq<char>, Seq<char>)>
    decreases rows.len(),
{
    if rows.len() == 0 {
        Seq::empty()
    } else {
        let prev = row_lines(rows.drop_last());
        let r = rows.last();
        match r.apply_warning {
            Some(w) => prev.push((r.sheet_name@, r.anchor_address@, r.selected_source@, w@)),
            None => prev,
        }
    }
}

/// The lines of the formula-guard warnings `(sheet, cell, warning)`.
pub open spec fn extra_lines(e: Seq<(String, String, String)>) -> Seq<(Seq<char>, Seq<char>, Seq<char>, Seq<char>)> {
    Seq::new(e.len(), |i: int| (e[i].0@, e[i].1@, "formula-guard"@, e[i].2@))
}

pub open spec fn line_views(v: Seq<WarningLine>) -> Seq<(Seq<char>, Seq<char>, Seq<char>, Seq<char>)> {
    Seq::new(v.len(), |i: int| line_view(v[i]))
}

/// The lines of the warnings sheet: the rows with a warning, then the
/// formula-guard warnings.
pub fn apply_warning_lines(rows: &[ApplyPayloadRow], extra_warnings: &[(String, String, String)]) -> (r: Vec<WarningLine>)
    ensures
        line_views(r@) == row_lines(rows@) + extra_lines(extra_warnings@),
{
    let mut out: Vec<WarningLine> = Vec::new();
    let mut i: usize = 0;
    while i < rows.len()
        invariant
            i <= rows.len(),
            line_views(out@) == row_lines(rows@.take(i as int)),
        decreases rows.len() - i,
    {
        let r = &rows[i];
        let ghost before = line_views(out@);
        proof {
            assert(rows@.take(i + 1).drop_last() =~= rows@.take(i as int));
            assert(rows@.take(i + 1).last() == *r);
        }
        match &r.apply_warning {
            Some(w) => {
                out.push((r.sheet_name.clone(), r.anchor_address.clone(), r.selected_source.clone(), w.clone()));
                proof {
                    assert(line_views(out@) =~= before.push((r.sheet_name@, r.anchor_address@, r.selected_source@, w@)));
                }
            },
            None => {},
        }
        i += 1;
    }
    proof {
        assert(rows@.take(rows@.len() as int) =~= rows@);
    }
    let ghost mid = line_views(out@);
    let mut j: usize = 0;
    while j < extra_warnings.len()
        invariant
            j <= extra_warnings.len(),
            line_views(out@) == mid + extra_lines(extra_warnings@.take(j as int)),
        decreases extra_warnings.len() - j,
    {
        let e = &extra_warnings[j];
        let ghost before = line_views(out@);
        out.push((e.0.clone(), e.1.clone(), string_of(&chars_of("formula-guard")), e.2.clone()));
        proof {
            assert(line_views(out@) =~= before.push((e.0@, e.1@, "formula-guard"@, e.2@)));
            assert(extra_lines(extra_warnings@.take(j + 1)) =~= extra_lines(extra_warnings@.take(j as int)).push(
                (e.0@, e.1@, "formula-guard"@, e.2@),
            ));
        }
        j += 1;
    }
    proof {
        assert(extra_warnings@.take(extra_warnings@.len() as int) =~= extra_warnings@);
    }
    out
}

} // verus!
