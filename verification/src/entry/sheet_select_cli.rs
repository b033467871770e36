//! Which sheets of a workbook the user selects.
use vstd::prelude::*;

use crate::core2::formula_text::str_views;
use crate::core2::source_workbook_reader::split_commas;
use crate::decimal::{dec, dec_chars, parse_unsigned, parse_unsigned_range};
use crate::adapters::provider_rules::{to_lower, unicode_lower};
use crate::entry::entry_state::EntryError;
use crate::text::{chars_of, eq_vec, has_char, has_char_exec, lower_seq, lower_vec, push_all, str_eq, string_of, trim_seq, trim_vec};

verus! {

broadcast use vstd::seq_lib::group_seq_properties;

/// The sheets the tokens `toks[i..]` select, added to `acc` without repeats:
/// each token is a sheet number (from 1) or a sheet name.
pub open spec fn select_tokens(toks: Seq<Seq<char>>, i: int, names: Seq<Seq<char>>, acc: Seq<Seq<char>>) -> Result<
    Seq<Seq<char>>,
    Seq<char>,
>
    decreases toks.len() - i,
{
    if i < 0 || i >= toks.len() {
        Ok(acc)
    } else {
        let tk = trim_seq(toks[i]);
        if tk.len() == 0 {
            Err("empty sheet selection token"@)
        } else {
            match parse_unsigned(tk, usize::MAX as nat) {
                Some(n) => if 1 <= n <= names.len() {
                    let name = names[n - 1];
                    select_tokens(
                        toks,
                        i + 1,
                        names,
                        if acc.contains(name) {
                            acc
                        } else {
                            acc.push(name)
                        },
                    )
                } else {
                    Err("sheet index out of range: "@ + dec(n))
                },
                None => if names.contains(tk) {
                    select_tokens(
                        toks,
                        i + 1,
                        names,
                        if acc.contains(tk) {
                            acc
                        } else {
                            acc.push(tk)
                        },
                    )
                } else {
                    Err("unknown sheet selection token: "@ + tk)
                },
            }
        }
    }
}

/// The sheets an input selects. The experience course takes one sheet
/// number only; otherwise `all`, or comma-separated numbers and names.
pub open spec fn spec_sheet_selection(input: Seq<char>, names: Seq<Seq<char>>, experience: bool) -> Result<
    Seq<Seq<char>>,
    Seq<char>,
> {
    let t = trim_seq(input);
    if t.len() == 0 {
        Err("empty sheet selection"@)
    } else if experience {
        if lower_seq(t) == "all"@ || has_char(t, ',') {
            Err("experience course allows single sheet number only"@)
        } else {
            match parse_unsigned(t, usize::MAX as nat) {
                None => Err("experience course requires a sheet number"@),
                Some(n) => if 1 <= n <= names.len() {
                    Ok(seq![names[n - 1]])
                } else {
                    Err("sheet index out of range: "@ + dec(n))
                },
            }
        }
    } else if lower_seq(t) == "all"@ {
        Ok(names)
    } else {
        match select_tokens(split_commas(t), 0, names, Seq::empty()) {
            Err(e) => Err(e),
            Ok(r) => if r.len() == 0 {
                Err("no sheet selected"@)
            } else {
                Ok(r)
            },
        }
    }
}

pub open spec fn selection_view(r: Result<Vec<String>, EntryError>) -> Result<Seq<Seq<char>>, Seq<char>> {
    match r {
        Ok(v) => Ok(str_views(v@)),
        Err(EntryError::Internal(m)) => Err(m@),
        Err(EntryError::UserExit) => Err("exit"@),
        Err(EntryError::UserBack) => Err("back"@),
    }
}

fn internal(m: Vec<char>) -> (e: EntryError)
    ensures
        e matches EntryError::Internal(x) && x@ == m@,
{
    EntryError::Internal(string_of(&m))
}

fn out_of_range(n: usize) -> (e: EntryError)
    ensures
        e matches EntryError::Internal(x) && x@ == "sheet index out of range: "@ + dec(n as nat),
{
    let mut m = chars_of("sheet index out of range: ");
    push_all(&mut m, &dec_chars(n));
    internal(m)
}

fn index_in(names: &[String], name: &Vec<char>) -> (r: Option<usize>)
    ensures
        match r {
            Some(i) => i < names.len() && names@[i as int]@ == name@,
            None => !str_views(names@).contains(name@),
        },
{
    let mut i: usize = 0;
    while i < names.len()
        invariant
            i <= names.len(),
            forall|j: int| 0 <= j < i ==> names@[j]@ != name@,
        decreases names.len() - i,
    {
        if eq_vec(&chars_of(names[i].as_str()), name) {
            return Some(i);
        }
        i += 1;
    }
    proof {
        if str_views(names@).contains(name@) {
            let j = choose|j: int| 0 <= j < str_views(names@).len() && str_views(names@)[j] == name@;
            assert(names@[j]@ == name@);
        }
    }
    None
}

fn push_unique_name(acc: &mut Vec<String>, name: String)
    ensures
        str_views(final(acc)@) == if str_views(old(acc)@).contains(name@) {
            str_views(old(acc)@)
        } else {
            str_views(old(acc)@).push(name@)
        },
{
    let mut i: usize = 0;
    while i < acc.len()
        invariant
            i <= acc.len(),
            forall|j: int| 0 <= j < i ==> acc@[j]@ != name@,
        decreases acc.len() - i,
    {
        if str_eq(acc[i].as_str(), name.as_str()) {
            proof {
                assert(str_views(acc@)[i as int] == name@);
            }
            return;
        }
        i += 1;
    }
    proof {
        if str_views(acc@).contains(name@) {
            let j = choose|j: int| 0 <= j < str_views(acc@).len() && str_views(acc@)[j] == name@;
            assert(acc@[j]@ == name@);
        }
    }
    let ghost before = str_views(acc@);
    let ghost nv = name@;
    acc.push(name);
    proof {
        assert(str_views(acc@) =~= before.push(nv));
    }
}

fn split_tokens(s: &Vec<char>) -> (r: Vec<Vec<char>>)
    ensures
        r@.map_values(|v: Vec<char>| v@) == split_commas(s@),
{
    crate::core2::source_workbook_reader::split_commas_exec(s)
}

/// The sheets `input` selects among `sheet_names`.
pub fn parse_sheet_selection(input: &str, sheet_names: &[String], experience_mode: bool) -> (r: Result<
    Vec<String>,
    EntryError,
>)
    ensures
        selection_view(r) == spec_sheet_selection(input@, str_views(sheet_names@), experience_mode),
        r matches Err(e) ==> e is Internal,
{
    let ghost names = str_views(sheet_names@);
    let t = trim_vec(&chars_of(input));
    if t.len() == 0 {
        return Err(internal(chars_of("empty sheet selection")));
    }
    let is_all = eq_vec(&lower_vec(&t), &chars_of("all"));
    if experience_mode {
        if is_all || has_char_exec(&t, ',') {
            return Err(internal(chars_of("experience course allows single sheet number only")));
        }
        proof {
            assert(t@.subrange(0, t@.len() as int) =~= t@);
        }
        let n = match parse_unsigned_range(&t, 0, t.len(), usize::MAX as u64) {
            Some(n) => n as usize,
            None => return Err(internal(chars_of("experience course requires a sheet number"))),
        };
        if n >= 1 && n <= sheet_names.len() {
            let v = vec![sheet_names[n - 1].clone()];
            proof {
                assert(str_views(v@) =~= seq![names[n - 1]]);
            }
            return Ok(v);
        }
        return Err(out_of_range(n));
    }
    if is_all {
        let mut out: Vec<String> = Vec::new();
        let mut i: usize = 0;
        while i < sheet_names.len()
            invariant
                i <= sheet_names.len(),
                str_views(out@) == str_views(sheet_names@).take(i as int),
            decreases sheet_names.len() - i,
        {
            let ghost before = str_views(out@);
            let x = sheet_names[i].clone();
            proof {
                assert(x@ == sheet_names@[i as int]@);
            }
            out.push(x);
            proof {
                assert(str_views(out@) =~= before.push(sheet_names@[i as int]@));
                assert(str_views(sheet_names@).take(i + 1) =~= str_views(sheet_names@).take(i as int).push(
                    sheet_names@[i as int]@,
                ));
            }
            i += 1;
        }
        proof {
            assert(str_views(sheet_names@).take(names.len() as int) =~= names);
        }
        return Ok(out);
    }
    select_by_tokens(&t, sheet_names)
}

pub open spec fn tokens_result(t: Seq<char>, names: Seq<Seq<char>>) -> Result<Seq<Seq<char>>, Seq<char>> {
    match select_tokens(split_commas(t), 0, names, Seq::empty()) {
        Err(e) => Err(e),
        Ok(r) => if r.len() == 0 {
            Err("no sheet selected"@)
        } else {
            Ok(r)
        },
    }
}

fn select_by_tokens(t: &Vec<char>, sheet_names: &[String]) -> (r: Result<Vec<String>, EntryError>)
    ensures
        selection_view(r) == tokens_result(t@, str_views(sheet_names@)),
        r matches Err(e) ==> e is Internal,
{
    let ghost names = str_views(sheet_names@);
    let toks = split_tokens(t);
    let ghost tv = toks@.map_values(|v: Vec<char>| v@);
    let mut selected: Vec<String> = Vec::new();
    proof {
        assert(str_views(selected@) =~= Seq::<Seq<char>>::empty());
    }
    let mut i: usize = 0;
    while i < toks.len()
        invariant
            i <= toks.len(),
            names == str_views(sheet_names@),
            tv == toks@.map_values(|v: Vec<char>| v@),
            tv == split_commas(t@),
            select_tokens(tv, 0, names, Seq::empty()) == select_tokens(tv, i as int, names, str_views(selected@)),
        decreases toks.len() - i,
    {
        let tk = trim_vec(&toks[i]);
        proof {
            assert(tv[i as int] == toks@[i as int]@);
            assert(tk@.subrange(0, tk@.len() as int) =~= tk@);
        }
        if tk.len() == 0 {
            return Err(internal(chars_of("empty sheet selection token")));
        }
        match parse_unsigned_range(&tk, 0, tk.len(), usize::MAX as u64) {
            Some(n64) => {
                let n = n64 as usize;
                if n >= 1 && n <= sheet_names.len() {
                    let name = sheet_names[n - 1].clone();
                    proof {
                        assert(name@ == names[n - 1]);
                    }
                    push_unique_name(&mut selected, name);
                } else {
                    return Err(out_of_range(n));
                }
            },
            None => {
                match index_in(sheet_names, &tk) {
                    Some(j) => {
                        proof {
                            assert(names[j as int] == tk@);
                        }
                        push_unique_name(&mut selected, string_of(&tk));
                    },
                    None => {
                        let mut m = chars_of("unknown sheet selection token: ");
                        push_all(&mut m, &tk);
                        return Err(internal(m));
                    },
                }
            },
        }
        i += 1;
    }
    if selected.len() == 0 {
        return Err(internal(chars_of("no sheet selected")));
    }
    Ok(selected)
}


/// What one answer to the sheet question leads to.
#[derive(Debug)]
pub enum SheetPrompt {
    /// The user left (`exit` or `q`, in any ASCII case).
    Exit,
    /// The sheets the answer selects.
    Chosen(Vec<String>),
    /// The answer was refused; the question is asked again.
    Invalid(EntryError),
}

/// Whether a trimmed answer asks to leave.
pub open spec fn asks_exit(t: Seq<char>) -> bool {
    lower_seq(t) == "exit"@ || lower_seq(t) == "q"@
}

/// The outcome of one typed answer to the sheet question.
pub fn sheet_prompt_step(input: &str, sheet_names: &[String], experience_mode: bool) -> (r: SheetPrompt)
    ensures
        asks_exit(trim_seq(input@)) ==> r is Exit,
        !asks_exit(trim_seq(input@)) ==> match spec_sheet_selection(trim_seq(input@), str_views(sheet_names@), experience_mode) {
            Ok(v) => r matches SheetPrompt::Chosen(c) && str_views(c@) == v,
            Err(m) => r matches SheetPrompt::Invalid(EntryError::Internal(x)) && x@ == m,
        },
{
    let t = trim_vec(&chars_of(input));
    let lt = lower_vec(&t);
    if eq_vec(&lt, &chars_of("exit")) || eq_vec(&lt, &chars_of("q")) {
        return SheetPrompt::Exit;
    }
    let ts = string_of(&t);
    match parse_sheet_selection(ts.as_str(), sheet_names, experience_mode) {
        Ok(v) => SheetPrompt::Chosen(v),
        Err(e) => SheetPrompt::Invalid(e),
    }
}

/// What an answer to the confirmation question leads to.
#[derive(Debug, Clone, Copy, PartialEq, Eq, Structural)]
pub enum ConfirmDecision {
    Proceed,
    Back,
    Exit,
    Retry,
}

/// The decision for a trimmed, lower-cased answer: `ok`, `back`, `exit`
/// or `q`; anything else asks again.
pub open spec fn spec_confirm_lowered(lower: Seq<char>) -> ConfirmDecision {
    if lower == "ok"@ {
        ConfirmDecision::Proceed
    } else if lower == "back"@ {
        ConfirmDecision::Back
    } else if lower == "exit"@ || lower == "q"@ {
        ConfirmDecision::Exit
    } else {
        ConfirmDecision::Retry
    }
}

pub fn confirm_lowered(lower: &str) -> (d: ConfirmDecision)
    ensures
        d == spec_confirm_lowered(lower@),
{
    if str_eq(lower, "ok") {
        ConfirmDecision::Proceed
    } else if str_eq(lower, "back") {
        ConfirmDecision::Back
    } else if str_eq(lower, "exit") || str_eq(lower, "q") {
        ConfirmDecision::Exit
    } else {
        ConfirmDecision::Retry
    }
}

/// The decision for a typed answer: trimmed, then lower-cased as
/// `str::to_lowercase` does.
pub fn confirm_decision(input: &str) -> (d: ConfirmDecision)
    ensures
        d == spec_confirm_lowered(unicode_lower(trim_seq(input@))),
{
    let t = string_of(&trim_vec(&chars_of(input)));
    let lower = to_lower(t.as_str());
    confirm_lowered(lower.as_str())
}

} // verus!
