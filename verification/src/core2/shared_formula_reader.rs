//! Formula cells of a worksheet's XML, and the formulas of shared-formula
//! followers, which the file stores only once at the group's first cell.
//!
//! A follower's formula is the master's with every relative A1 reference
//! moved by the follower's offset from the master; text inside string
//! literals and absolute (`$`) parts stay as they are.
use vstd::prelude::*;

use crate::assoc::{distinct_keys, entries_map, entry_views, upsert};
use crate::decimal::{dec, dec_chars, dec_chars_u64, digits_value, parse_unsigned, parse_unsigned_range};
use crate::text::{
    ascii_upper, chars_of, find_char, find_first, first_at, first_char, is_ascii_alnum, is_ascii_alpha,
    is_ascii_digit, is_blank, prepend, push_all, push_range, replace_seq, replace_vec, res_view, string_of,
    string_of_range, trim_seq, upper_char, upper_seq,
};

verus! {

broadcast use vstd::seq_lib::group_seq_properties;

// ------------------------------------------------------------------
// Character runs
// ------------------------------------------------------------------

#[derive(Clone, Copy, PartialEq, Eq, Structural)]
pub enum CharClass {
    Alpha,
    Digit,
    /// Characters of an unquoted sheet name: ASCII letters, digits, `_`, `.`.
    Name,
}

pub open spec fn in_class(c: char, k: CharClass) -> bool {
    match k {
        CharClass::Alpha => is_ascii_alpha(c),
        CharClass::Digit => is_ascii_digit(c),
        CharClass::Name => is_ascii_alnum(c) || c == '_' || c == '.',
    }
}

/// The end of the run of `k` characters that starts at `i`.
pub open spec fn run_end(s: Seq<char>, i: int, k: CharClass) -> int
    decreases s.len() - i,
{
    if 0 <= i < s.len() && in_class(s[i], k) {
        run_end(s, i + 1, k)
    } else {
        i
    }
}

pub proof fn lemma_run_end(s: Seq<char>, i: int, k: CharClass)
    requires
        0 <= i <= s.len(),
    ensures
        i <= run_end(s, i, k) <= s.len(),
        forall|j: int| i <= j < run_end(s, i, k) ==> in_class(#[trigger] s[j], k),
        run_end(s, i, k) < s.len() ==> !in_class(s[run_end(s, i, k)], k),
    decreases s.len() - i,
{
    if i < s.len() && in_class(s[i], k) {
        lemma_run_end(s, i + 1, k);
    }
}

fn class_char(c: char, k: CharClass) -> (b: bool)
    ensures
        b == in_class(c, k),
{
    match k {
        CharClass::Alpha => ('a' <= c && c <= 'z') || ('A' <= c && c <= 'Z'),
        CharClass::Digit => '0' <= c && c <= '9',
        CharClass::Name => ('a' <= c && c <= 'z') || ('A' <= c && c <= 'Z') || ('0' <= c && c <= '9') || c
            == '_' || c == '.',
    }
}

fn scan_class(v: &Vec<char>, i: usize, k: CharClass) -> (e: usize)
    requires
        i <= v.len(),
    ensures
        e as int == run_end(v@, i as int, k),
        i <= e <= v.len(),
{
    let mut j = i;
    while j < v.len() && class_char(v[j], k)
        invariant
            i <= j <= v.len(),
            run_end(v@, i as int, k) == run_end(v@, j as int, k),
        decreases v.len() - j,
    {
        j += 1;
    }
    j
}

// ------------------------------------------------------------------
// Column letters
// ------------------------------------------------------------------

/// The value of a column letter: `A` (or `a`) is 1, `Z` is 26.
pub open spec fn letter_value(c: char) -> int {
    (ascii_upper(c) as int) - 64
}

/// Column letters read as a bijective base-26 number: `A` = 1, `Z` = 26,
/// `AA` = 27.
pub open spec fn col_value(s: Seq<char>) -> int
    decreases s.len(),
{
    if s.len() == 0 {
        0
    } else {
        col_value(s.drop_last()) * 26 + letter_value(s.last())
    }
}

pub open spec fn all_alpha(s: Seq<char>) -> bool {
    forall|i: int| 0 <= i < s.len() ==> is_ascii_alpha(#[trigger] s[i])
}

/// The column number of `s`; letters only, and no larger than `u32::MAX`.
/// The error is `prefix` followed by `s`.
pub open spec fn col_number_msg(s: Seq<char>, prefix: Seq<char>) -> Result<int, Seq<char>> {
    if all_alpha(s) && col_value(s) <= u32::MAX {
        Ok(col_value(s))
    } else {
        Err(prefix + s)
    }
}

pub open spec fn col_number(s: Seq<char>) -> Result<int, Seq<char>> {
    col_number_msg(s, "invalid column: "@)
}

/// The letters of column `n` (`n >= 1`): 1 is `A`, 27 is `AA`.
pub open spec fn col_letters(n: nat) -> Seq<char>
    decreases n,
{
    if n == 0 {
        Seq::empty()
    } else {
        col_letters(((n - 1) / 26) as nat).push((((n - 1) % 26) + 65) as char)
    }
}

proof fn lemma_col_value_grows(s: Seq<char>)
    requires
        all_alpha(s),
    ensures
        col_value(s) >= s.len(),
    decreases s.len(),
{
    if s.len() > 0 {
        assert(all_alpha(s.drop_last()));
        lemma_col_value_grows(s.drop_last());
        assert(is_ascii_alpha(s[s.len() - 1]));
    }
}

/// Writing a column number in letters and reading the letters back gives
/// the number again; the letters are upper-case ASCII letters.
pub proof fn law_col_letters_roundtrip(n: nat)
    requires
        n >= 1,
    ensures
        col_value(col_letters(n)) == n,
        all_alpha(col_letters(n)),
        col_letters(n).len() >= 1,
        upper_seq(col_letters(n)) == col_letters(n),
    decreases n,
{
    let q = ((n - 1) / 26) as nat;
    let c = (((n - 1) % 26) + 65) as char;
    assert(col_letters(n) == col_letters(q).push(c));
    if q >= 1 {
        law_col_letters_roundtrip(q);
    }
    assert(col_letters(n).drop_last() =~= col_letters(q));
    assert(ascii_upper(c) == c);
    assert(letter_value(c) == (n - 1) % 26 + 1);
    assert(col_value(col_letters(q)) == q);
    assert(q * 26 + (n - 1) % 26 + 1 == n) by (nonlinear_arith)
        requires q == (n - 1) / 26, n >= 1;
    assert(upper_seq(col_letters(n)) =~= col_letters(n));
}

/// Reading upper-case column letters as a number and writing the number in
/// letters gives the same letters.
pub proof fn law_col_value_roundtrip(s: Seq<char>)
    requires
        s.len() >= 1,
        all_alpha(s),
        upper_seq(s) == s,
    ensures
        col_value(s) >= 1,
        col_letters(col_value(s) as nat) == s,
    decreases s.len(),
{
    let p = s.drop_last();
    let c = s.last();
    assert(all_alpha(p));
    assert(is_ascii_alpha(c));
    assert(upper_seq(s)[s.len() - 1] == c);
    assert('A' <= c && c <= 'Z');
    if p.len() >= 1 {
        assert(upper_seq(p) =~= p) by {
            assert forall|i: int| 0 <= i < p.len() implies upper_seq(p)[i] == p[i] by {
                assert(upper_seq(s)[i] == s[i]);
            }
        }
        law_col_value_roundtrip(p);
    }
    lemma_col_value_grows(p);
    let v = col_value(p);
    let n = col_value(s);
    assert(n == v * 26 + (c as int - 64));
    assert((n - 1) / 26 == v && (n - 1) % 26 == c as int - 65) by (nonlinear_arith)
        requires n == v * 26 + (c as int - 64), 65 <= c as int <= 90, v >= 0;
    if p.len() == 0 {
        assert(col_letters(0) =~= p);
    }
    assert(((((n - 1) % 26) + 65) as char) == c);
    assert(col_letters(n as nat) =~= s);
}

/// Column letters to their number; anything but ASCII letters, or a number
/// beyond `u32::MAX`, is an invalid column.
pub(crate) fn col_letters_to_number_msg(s: &Vec<char>, prefix: &str) -> (r: Result<u32, String>)
    ensures
        match r {
            Ok(n) => col_number_msg(s@, prefix@) == Ok::<int, Seq<char>>(n as int),
            Err(e) => col_number_msg(s@, prefix@) == Err::<int, Seq<char>>(e@),
        },
{
    let mut acc: u64 = 0;
    let mut over = false;
    let mut i: usize = 0;
    while i < s.len()
        invariant
            i <= s.len(),
            all_alpha(s@.take(i as int)),
            col_value(s@.take(i as int)) >= 0,
            !over ==> acc as int == col_value(s@.take(i as int)) && acc <= u32::MAX,
            over ==> col_value(s@.take(i as int)) > u32::MAX,
        decreases s.len() - i,
    {
        let c = s[i];
        proof {
            assert(s@.take(i + 1).drop_last() =~= s@.take(i as int));
            assert(s@.take(i + 1).last() == c);
        }
        if !(('a' <= c && c <= 'z') || ('A' <= c && c <= 'Z')) {
            proof {
                assert(!is_ascii_alpha(s@[i as int]));
            }
            let mut m = chars_of(prefix);
            push_all(&mut m, s);
            return Err(string_of(&m));
        }
        let u = upper_char(c);
        let lv = (u as u32 - 64) as u64;
        proof {
            assert(lv as int == letter_value(c));
            assert(all_alpha(s@.take(i + 1)));
        }
        let ghost pv = col_value(s@.take(i as int));
        if !over {
            if acc > (u32::MAX as u64 - lv) / 26 {
                over = true;
                proof {
                    assert(acc * 26 + lv > u32::MAX) by (nonlinear_arith)
                        requires acc > (u32::MAX - lv) / 26, lv <= 26;
                }
            } else {
                proof {
                    assert(acc * 26 + lv <= u32::MAX) by (nonlinear_arith)
                        requires acc <= (u32::MAX - lv) / 26, lv <= 26;
                }
                acc = acc * 26 + lv;
            }
        } else {
            proof {
                assert(pv * 26 + lv > u32::MAX) by (nonlinear_arith)
                    requires pv > u32::MAX, lv >= 1;
            }
        }
        proof {
            assert(pv * 26 + lv >= 0) by (nonlinear_arith)
                requires pv >= 0, lv >= 1;
        }
        i += 1;
    }
    proof {
        assert(s@.take(s@.len() as int) =~= s@);
    }
    if over {
        let mut m = chars_of(prefix);
        push_all(&mut m, s);
        return Err(string_of(&m));
    }
    Ok(acc as u32)
}

fn col_letters_to_number(s: &Vec<char>) -> (r: Result<u32, String>)
    ensures
        match r {
            Ok(n) => col_number(s@) == Ok::<int, Seq<char>>(n as int),
            Err(e) => col_number(s@) == Err::<int, Seq<char>>(e@),
        },
{
    col_letters_to_number_msg(s, "invalid column: ")
}

/// A column number in letters.
pub(crate) fn number_to_col_letters(n: u64) -> (r: Vec<char>)
    ensures
        r@ == col_letters(n as nat),
    decreases n,
{
    if n == 0 {
        return Vec::new();
    }
    let mut r = number_to_col_letters((n - 1) / 26);
    let d = ((n - 1) % 26) as u32;
    let c = ((d + 65) as u8) as char;
    proof {
        assert(c == (((n - 1) % 26) + 65) as char);
    }
    r.push(c);
    r
}

// ------------------------------------------------------------------
// Cell addresses
// ------------------------------------------------------------------

pub open spec fn invalid_cell_ref(a: Seq<char>) -> Seq<char> {
    "invalid cell ref: "@ + a
}

/// An address such as `b12` split into upper-case column letters and row
/// number: letters then digits, at least one of each.
pub open spec fn split_cell_ref_msg(a: Seq<char>, row_prefix: Seq<char>) -> Result<(Seq<char>, nat), Seq<char>> {
    let k = run_end(a, 0, CharClass::Alpha);
    if k == 0 || k == a.len() || run_end(a, k, CharClass::Digit) != a.len() {
        Err(invalid_cell_ref(a))
    } else if digits_value(a.subrange(k, a.len() as int)) > u32::MAX {
        Err(row_prefix + a)
    } else {
        Ok((upper_seq(a.subrange(0, k)), digits_value(a.subrange(k, a.len() as int))))
    }
}

/// The letters of a split address are ASCII letters.
pub proof fn lemma_split_letters_alpha(a: Seq<char>, p: Seq<char>)
    ensures
        split_cell_ref_msg(a, p) matches Ok((l, _)) ==> all_alpha(l),
{
    let k = run_end(a, 0, CharClass::Alpha);
    lemma_run_end(a, 0, CharClass::Alpha);
    if split_cell_ref_msg(a, p) is Ok {
        let l = upper_seq(a.subrange(0, k));
        assert forall|i: int| 0 <= i < l.len() implies is_ascii_alpha(#[trigger] l[i]) by {
            assert(in_class(a[i], CharClass::Alpha));
        }
    }
}

pub open spec fn spec_split_cell_ref(a: Seq<char>) -> Result<(Seq<char>, nat), Seq<char>> {
    split_cell_ref_msg(a, "invalid row: "@)
}

fn split_cell_ref(a: &Vec<char>) -> (r: Result<(Vec<char>, u32), String>)
    ensures
        match r {
            Ok((c, n)) => spec_split_cell_ref(a@) == Ok::<(Seq<char>, nat), Seq<char>>((c@, n as nat)),
            Err(e) => spec_split_cell_ref(a@) == Err::<(Seq<char>, nat), Seq<char>>(e@),
        },
{
    split_cell_ref_msg_exec(a, "invalid row: ")
}

pub(crate) fn split_cell_ref_msg_exec(a: &Vec<char>, row_prefix: &str) -> (r: Result<(Vec<char>, u32), String>)
    ensures
        match r {
            Ok((c, n)) => split_cell_ref_msg(a@, row_prefix@) == Ok::<(Seq<char>, nat), Seq<char>>((c@, n as nat)),
            Err(e) => split_cell_ref_msg(a@, row_prefix@) == Err::<(Seq<char>, nat), Seq<char>>(e@),
        },
{
    let k = scan_class(a, 0, CharClass::Alpha);
    let mut bad = k == 0 || k == a.len();
    if !bad {
        let e = scan_class(a, k, CharClass::Digit);
        bad = e != a.len();
    }
    if bad {
        let mut m = chars_of("invalid cell ref: ");
        push_all(&mut m, a);
        return Err(string_of(&m));
    }
    proof {
        lemma_run_end(a@, k as int, CharClass::Digit);
        let d = a@.subrange(k as int, a@.len() as int);
        assert forall|j: int| 0 <= j < d.len() implies '0' <= #[trigger] d[j] && d[j] <= '9' by {
            assert(in_class(a@[k + j], CharClass::Digit));
        }
        assert(!(d.len() > 0 && d[0] == '+'));
    }
    match parse_unsigned_range(a, k, a.len(), u32::MAX as u64) {
        Some(n) => {
            let mut letters: Vec<char> = Vec::new();
            let mut i: usize = 0;
            while i < k
                invariant
                    i <= k < a.len(),
                    letters@ == upper_seq(a@.subrange(0, i as int)),
                decreases k - i,
            {
                letters.push(upper_char(a[i]));
                proof {
                    assert(upper_seq(a@.subrange(0, i + 1)) =~= upper_seq(a@.subrange(0, i as int)).push(
                        ascii_upper(a@[i as int]),
                    ));
                }
                i += 1;
            }
            Ok((letters, n as u32))
        },
        None => {
            let mut m = chars_of(row_prefix);
            push_all(&mut m, a);
            Err(string_of(&m))
        },
    }
}

// ------------------------------------------------------------------
// References inside a formula
// ------------------------------------------------------------------

/// A parsed A1 reference: absolute column?, upper-case column letters,
/// absolute row?, row number.
pub struct ParsedRef {
    pub col_abs: bool,
    pub col_letters: Vec<char>,
    pub row_abs: bool,
    pub row_number: u32,
}

pub open spec fn ref_view(r: ParsedRef) -> (bool, Seq<char>, bool, nat) {
    (r.col_abs, r.col_letters@, r.row_abs, r.row_number as nat)
}

/// A reference at `at`: optional `$`, letters, optional `$`, digits, not
/// followed by a letter, digit or `_`. Gives the end of the reference.
pub open spec fn spec_parse_single_ref(s: Seq<char>, at: int) -> Result<
    Option<(int, (bool, Seq<char>, bool, nat))>,
    Seq<char>,
> {
    let ca = at < s.len() && s[at] == '$';
    let i0 = if ca {
        at + 1
    } else {
        at
    };
    let i1 = run_end(s, i0, CharClass::Alpha);
    if i1 == i0 {
        Ok(None)
    } else {
        let ra = i1 < s.len() && s[i1] == '$';
        let i2 = if ra {
            i1 + 1
        } else {
            i1
        };
        let i3 = run_end(s, i2, CharClass::Digit);
        if i3 == i2 {
            Ok(None)
        } else if digits_value(s.subrange(i2, i3)) > u32::MAX {
            Err("invalid cell reference: "@ + s.subrange(at, i3))
        } else if i3 < s.len() && (is_ascii_alnum(s[i3]) || s[i3] == '_') {
            Ok(None)
        } else {
            Ok(Some((i3, (ca, upper_seq(s.subrange(i0, i1)), ra, digits_value(s.subrange(i2, i3))))))
        }
    }
}

fn upper_range(v: &Vec<char>, lo: usize, hi: usize) -> (r: Vec<char>)
    requires
        lo <= hi <= v.len(),
    ensures
        r@ == upper_seq(v@.subrange(lo as int, hi as int)),
{
    let mut r: Vec<char> = Vec::new();
    let mut i = lo;
    while i < hi
        invariant
            lo <= i <= hi <= v.len(),
            r@ == upper_seq(v@.subrange(lo as int, i as int)),
        decreases hi - i,
    {
        r.push(upper_char(v[i]));
        proof {
            assert(upper_seq(v@.subrange(lo as int, i + 1)) =~= upper_seq(v@.subrange(lo as int, i as int)).push(
                ascii_upper(v@[i as int]),
            ));
        }
        i += 1;
    }
    r
}

proof fn lemma_digit_run_parses(s: Seq<char>, i2: int, i3: int)
    requires
        0 <= i2 < i3 <= s.len(),
        i3 == run_end(s, i2, CharClass::Digit),
    ensures
        parse_unsigned(s.subrange(i2, i3), u32::MAX as nat) == (if digits_value(s.subrange(i2, i3)) <= u32::MAX {
            Some(digits_value(s.subrange(i2, i3)))
        } else {
            None
        }),
{
    lemma_run_end(s, i2, CharClass::Digit);
    let d = s.subrange(i2, i3);
    assert forall|j: int| 0 <= j < d.len() implies '0' <= #[trigger] d[j] && d[j] <= '9' by {
        assert(in_class(s[i2 + j], CharClass::Digit));
    }
    assert(!(d.len() > 0 && d[0] == '+'));
}

fn parse_single_ref(s: &Vec<char>, at: usize) -> (r: Result<Option<(usize, ParsedRef)>, String>)
    requires
        at <= s.len(),
    ensures
        match r {
            Ok(Some((e, p))) => spec_parse_single_ref(s@, at as int) == Ok::<
                Option<(int, (bool, Seq<char>, bool, nat))>,
                Seq<char>,
            >(Some((e as int, ref_view(p)))) && at < e <= s.len(),
            Ok(None) => spec_parse_single_ref(s@, at as int) == Ok::<
                Option<(int, (bool, Seq<char>, bool, nat))>,
                Seq<char>,
            >(None),
            Err(m) => spec_parse_single_ref(s@, at as int) == Err::<
                Option<(int, (bool, Seq<char>, bool, nat))>,
                Seq<char>,
            >(m@),
        },
{
    let ca = at < s.len() && s[at] == '$';
    let i0 = if ca {
        at + 1
    } else {
        at
    };
    let i1 = scan_class(s, i0, CharClass::Alpha);
    if i1 == i0 {
        return Ok(None);
    }
    let ra = i1 < s.len() && s[i1] == '$';
    let i2 = if ra {
        i1 + 1
    } else {
        i1
    };
    let i3 = scan_class(s, i2, CharClass::Digit);
    if i3 == i2 {
        return Ok(None);
    }
    proof {
        lemma_digit_run_parses(s@, i2 as int, i3 as int);
    }
    let row = match parse_unsigned_range(s, i2, i3, u32::MAX as u64) {
        Some(n) => n as u32,
        None => {
            let mut m = chars_of("invalid cell reference: ");
            push_range(&mut m, s, at, i3);
            return Err(string_of(&m));
        },
    };
    if i3 < s.len() {
        let c = s[i3];
        if ('a' <= c && c <= 'z') || ('A' <= c && c <= 'Z') || ('0' <= c && c <= '9') || c == '_' {
            return Ok(None);
        }
    }
    let letters = upper_range(s, i0, i1);
    Ok(Some((i3, ParsedRef { col_abs: ca, col_letters: letters, row_abs: ra, row_number: row })))
}

pub open spec fn dollar(b: bool) -> Seq<char> {
    if b {
        seq!['$']
    } else {
        Seq::empty()
    }
}

/// A reference moved by `rd` rows and `cd` columns; absolute parts stay.
pub open spec fn spec_shift_ref(r: (bool, Seq<char>, bool, nat), rd: int, cd: int) -> Result<Seq<char>, Seq<char>> {
    match col_number(r.1) {
        Err(e) => Err(e),
        Ok(c) => {
            let sc = if r.0 {
                c
            } else {
                c + cd
            };
            let sr = if r.2 {
                r.3 as int
            } else {
                r.3 + rd
            };
            if sc < 1 || sr < 1 {
                Err("reference underflow: "@ + r.1 + dec(r.3))
            } else {
                Ok(dollar(r.0) + col_letters(sc as nat) + dollar(r.2) + dec(sr as nat))
            }
        },
    }
}

/// Offsets are differences of two `u32` values.
pub open spec fn delta_ok(d: int) -> bool {
    -(u32::MAX as int) <= d <= u32::MAX
}

fn shift_single_ref(r: &ParsedRef, row_delta: i64, col_delta: i64) -> (out: Result<Vec<char>, String>)
    requires
        delta_ok(row_delta as int),
        delta_ok(col_delta as int),
    ensures
        match out {
            Ok(t) => spec_shift_ref(ref_view(*r), row_delta as int, col_delta as int) == Ok::<Seq<char>, Seq<char>>(
                t@,
            ),
            Err(e) => spec_shift_ref(ref_view(*r), row_delta as int, col_delta as int) == Err::<
                Seq<char>,
                Seq<char>,
            >(e@),
        },
{
    let col_num = match col_letters_to_number(&r.col_letters) {
        Ok(n) => n as i64,
        Err(e) => return Err(e),
    };
    let shifted_col: i64 = if r.col_abs {
        col_num
    } else {
        col_num + col_delta
    };
    let shifted_row: i64 = if r.row_abs {
        r.row_number as i64
    } else {
        r.row_number as i64 + row_delta
    };
    if shifted_col < 1 || shifted_row < 1 {
        let mut m = chars_of("reference underflow: ");
        push_all(&mut m, &r.col_letters);
        push_all(&mut m, &dec_chars_u64(r.row_number as u64));
        return Err(string_of(&m));
    }
    let mut t: Vec<char> = Vec::new();
    if r.col_abs {
        t.push('$');
    }
    push_all(&mut t, &number_to_col_letters(shifted_col as u64));
    if r.row_abs {
        t.push('$');
    }
    push_all(&mut t, &dec_chars_u64(shifted_row as u64));
    proof {
        assert(t@ =~= dollar(r.col_abs) + col_letters(shifted_col as nat) + dollar(r.row_abs) + dec(
            shifted_row as nat,
        ));
    }
    Ok(t)
}

proof fn lemma_run_end_at(s: Seq<char>, i: int, j: int, k: CharClass)
    requires
        0 <= i <= j <= s.len(),
        forall|m: int| i <= m < j ==> in_class(#[trigger] s[m], k),
        j == s.len() || !in_class(s[j], k),
    ensures
        run_end(s, i, k) == j,
    decreases j - i,
{
    if i < j {
        lemma_run_end_at(s, i + 1, j, k);
    }
}

/// A moved reference reads back as that reference moved: its `$` marks
/// are kept; a column without `$` moves by `cd` columns and one with `$`
/// stays; a row without `$` moves by `rd` rows and one with `$` stays, each
/// whatever the other part's mark says.
pub proof fn law_shifted_ref_reads_back(r: (bool, Seq<char>, bool, nat), rd: int, cd: int, t: Seq<char>)
    requires
        spec_shift_ref(r, rd, cd) == Ok::<Seq<char>, Seq<char>>(t),
        r.3 <= u32::MAX,
        r.2 || r.3 + rd <= u32::MAX,
    ensures
        spec_parse_single_ref(t, 0) matches Ok(Some((end, p))) && end == t.len() && p.0 == r.0 && p.2 == r.2 && {
            &&& r.0 ==> col_number(r.1) == Ok::<int, Seq<char>>(col_value(p.1))
            &&& !r.0 ==> (col_number(r.1) matches Ok(c) && col_value(p.1) == c + cd)
            &&& r.2 ==> p.3 == r.3
            &&& !r.2 ==> p.3 == r.3 + rd
        },
{
    let c = col_number(r.1)->Ok_0;
    let sc: int = if r.0 {
        c
    } else {
        c + cd
    };
    let sr: int = if r.2 {
        r.3 as int
    } else {
        r.3 + rd
    };
    let l = col_letters(sc as nat);
    let d = dec(sr as nat);
    law_col_letters_roundtrip(sc as nat);
    crate::decimal::lemma_dec_digits(sr as nat);
    assert(t == dollar(r.0) + l + dollar(r.2) + d);
    let a = dollar(r.0).len() as int;
    let b = a + l.len();
    let e = b + dollar(r.2).len();
    assert(t.len() == e + d.len());
    assert forall|m: int| a <= m < b implies in_class(#[trigger] t[m], CharClass::Alpha) by {
        assert(t[m] == l[m - a]);
    }
    if r.2 {
        assert(t[b] == '$');
    } else {
        assert(t[b] == d[0]);
    }
    assert(!in_class(t[b], CharClass::Alpha));
    lemma_run_end_at(t, a, b, CharClass::Alpha);
    if !r.0 {
        assert(t[0] == l[0]);
        assert(is_ascii_alpha(l[0]));
    }
    assert forall|m: int| e <= m < t.len() implies in_class(#[trigger] t[m], CharClass::Digit) by {
        assert(t[m] == d[m - e]);
    }
    lemma_run_end_at(t, e, t.len() as int, CharClass::Digit);
    assert(t.subrange(a, b) =~= l);
    assert(t.subrange(e, t.len() as int) =~= d);
}

/// A reference or a range `ref:ref` at `at`, moved; gives its end.
pub open spec fn spec_shift_ref_or_range(s: Seq<char>, at: int, rd: int, cd: int) -> Result<
    Option<(int, Seq<char>)>,
    Seq<char>,
> {
    match spec_parse_single_ref(s, at) {
        Err(e) => Err(e),
        Ok(None) => Ok(None),
        Ok(Some((l1, r1))) => {
            let single = match spec_shift_ref(r1, rd, cd) {
                Err(e) => Err(e),
                Ok(a) => Ok(Some((l1, a))),
            };
            if l1 < s.len() && s[l1] == ':' {
                match spec_parse_single_ref(s, l1 + 1) {
                    Err(e) => Err(e),
                    Ok(Some((l2, r2))) => match spec_shift_ref(r1, rd, cd) {
                        Err(e) => Err(e),
                        Ok(a) => match spec_shift_ref(r2, rd, cd) {
                            Err(e) => Err(e),
                            Ok(b) => Ok(Some((l2, a + seq![':'] + b))),
                        },
                    },
                    Ok(None) => single,
                }
            } else {
                single
            }
        },
    }
}

pub open spec fn shifted_view(r: Result<Option<(usize, Vec<char>)>, String>) -> Result<
    Option<(int, Seq<char>)>,
    Seq<char>,
> {
    match r {
        Ok(Some((e, t))) => Ok(Some((e as int, t@))),
        Ok(None) => Ok(None),
        Err(m) => Err(m@),
    }
}

fn parse_and_shift_ref_or_range(s: &Vec<char>, at: usize, row_delta: i64, col_delta: i64) -> (r: Result<
    Option<(usize, Vec<char>)>,
    String,
>)
    requires
        at <= s.len(),
        delta_ok(row_delta as int),
        delta_ok(col_delta as int),
    ensures
        shifted_view(r) == spec_shift_ref_or_range(s@, at as int, row_delta as int, col_delta as int),
        r matches Ok(Some((e, _))) ==> at < e <= s.len(),
{
    let (l1, r1) = match parse_single_ref(s, at) {
        Err(e) => return Err(e),
        Ok(None) => return Ok(None),
        Ok(Some(x)) => x,
    };
    if l1 < s.len() && s[l1] == ':' {
        match parse_single_ref(s, l1 + 1) {
            Err(e) => return Err(e),
            Ok(Some((l2, r2))) => {
                let a = match shift_single_ref(&r1, row_delta, col_delta) {
                    Err(e) => return Err(e),
                    Ok(a) => a,
                };
                let b = match shift_single_ref(&r2, row_delta, col_delta) {
                    Err(e) => return Err(e),
                    Ok(b) => b,
                };
                let mut t = a;
                let ghost av = t@;
                t.push(':');
                push_all(&mut t, &b);
                proof {
                    assert(t@ =~= av + seq![':'] + b@);
                }
                return Ok(Some((l2, t)));
            },
            Ok(None) => {},
        }
    }
    match shift_single_ref(&r1, row_delta, col_delta) {
        Err(e) => Err(e),
        Ok(a) => Ok(Some((l1, a))),
    }
}

/// The end of the character run that, after a closing quote, is followed
/// by `!`: the end of a quoted sheet name prefix such as `'My Sheet'!`.
pub open spec fn quoted_close(s: Seq<char>, i: int) -> Option<int>
    decreases s.len() - i,
{
    if i < 0 || i >= s.len() {
        None
    } else if s[i] == '\'' && i + 1 < s.len() && s[i + 1] == '!' {
        Some(i + 2)
    } else {
        quoted_close(s, i + 1)
    }
}

/// A sheet prefix at `at` (`'Any name'!` or `Name_1.x!`); gives its end.
pub open spec fn spec_sheet_prefix(s: Seq<char>, at: int) -> Option<int> {
    if at < s.len() && s[at] == '\'' {
        quoted_close(s, at + 1)
    } else {
        let k = run_end(s, at, CharClass::Name);
        if k > at && k < s.len() && s[k] == '!' {
            Some(k + 1)
        } else {
            None
        }
    }
}

fn parse_sheet_prefix(s: &Vec<char>, at: usize) -> (r: Option<usize>)
    requires
        at <= s.len(),
    ensures
        match r {
            Some(e) => spec_sheet_prefix(s@, at as int) == Some(e as int) && at < e <= s.len(),
            None => spec_sheet_prefix(s@, at as int) is None,
        },
{
    if at < s.len() && s[at] == '\'' {
        let mut i = at + 1;
        while i < s.len()
            invariant
                at < i <= s.len(),
                s@[at as int] == '\'',
                quoted_close(s@, at + 1) == quoted_close(s@, i as int),
            decreases s.len() - i,
        {
            if s[i] == '\'' && i + 1 < s.len() && s[i + 1] == '!' {
                proof {
                    assert(quoted_close(s@, i as int) == Some(i + 2));
                }
                return Some(i + 2);
            }
            i += 1;
        }
        None
    } else {
        let k = scan_class(s, at, CharClass::Name);
        if k > at && k < s.len() && s[k] == '!' {
            Some(k + 1)
        } else {
            None
        }
    }
}

/// A reference token at `at`, with an optional sheet prefix, moved; gives
/// its end and its new text.
pub open spec fn spec_try_shift(s: Seq<char>, at: int, rd: int, cd: int) -> Result<Option<(int, Seq<char>)>, Seq<char>> {
    match spec_sheet_prefix(s, at) {
        Some(p) => match spec_shift_ref_or_range(s, p, rd, cd) {
            Err(e) => Err(e),
            Ok(Some((e, t))) => Ok(Some((e, s.subrange(at, p) + t))),
            Ok(None) => spec_shift_ref_or_range(s, at, rd, cd),
        },
        None => spec_shift_ref_or_range(s, at, rd, cd),
    }
}

fn try_shift_reference_token(s: &Vec<char>, at: usize, row_delta: i64, col_delta: i64) -> (r: Result<
    Option<(usize, Vec<char>)>,
    String,
>)
    requires
        at <= s.len(),
        delta_ok(row_delta as int),
        delta_ok(col_delta as int),
    ensures
        shifted_view(r) == spec_try_shift(s@, at as int, row_delta as int, col_delta as int),
        r matches Ok(Some((e, _))) ==> at < e <= s.len(),
{
    if let Some(p) = parse_sheet_prefix(s, at) {
        match parse_and_shift_ref_or_range(s, p, row_delta, col_delta) {
            Err(e) => return Err(e),
            Ok(Some((e, t))) => {
                let mut out: Vec<char> = Vec::new();
                push_range(&mut out, s, at, p);
                push_all(&mut out, &t);
                return Ok(Some((e, out)));
            },
            Ok(None) => {},
        }
    }
    parse_and_shift_ref_or_range(s, at, row_delta, col_delta)
}

/// The formula text from `i` on, with every reference outside string
/// literals moved; `in_str` tells whether `i` is inside a literal.
pub open spec fn shift_from(s: Seq<char>, i: int, in_str: bool, rd: int, cd: int) -> Result<Seq<char>, Seq<char>>
    decreases s.len() - i,
{
    if i < 0 || i >= s.len() {
        Ok(Seq::empty())
    } else if s[i] == '"' {
        if in_str {
            if i + 1 < s.len() && s[i + 1] == '"' {
                prepend(seq!['"', '"'], shift_from(s, i + 2, true, rd, cd))
            } else {
                prepend(seq!['"'], shift_from(s, i + 1, false, rd, cd))
            }
        } else {
            prepend(seq!['"'], shift_from(s, i + 1, true, rd, cd))
        }
    } else if in_str {
        prepend(seq![s[i]], shift_from(s, i + 1, true, rd, cd))
    } else {
        match spec_try_shift(s, i, rd, cd) {
            Err(e) => Err(e),
            Ok(Some((e, t))) => if i < e <= s.len() {
                prepend(t, shift_from(s, e, false, rd, cd))
            } else {
                prepend(seq![s[i]], shift_from(s, i + 1, false, rd, cd))
            },
            Ok(None) => prepend(seq![s[i]], shift_from(s, i + 1, false, rd, cd)),
        }
    }
}

proof fn lemma_prepend_assoc(a: Seq<char>, b: Seq<char>, r: Result<Seq<char>, Seq<char>>)
    ensures
        prepend(a, prepend(b, r)) == prepend(a + b, r),
{
    match r {
        Ok(t) => {
            assert(a + (b + t) =~= (a + b) + t);
        },
        Err(_) => {},
    }
}

fn shift_formula_a1(s: &Vec<char>, row_delta: i64, col_delta: i64) -> (r: Result<Vec<char>, String>)
    requires
        delta_ok(row_delta as int),
        delta_ok(col_delta as int),
    ensures
        match r {
            Ok(t) => shift_from(s@, 0, false, row_delta as int, col_delta as int) == Ok::<Seq<char>, Seq<char>>(t@),
            Err(e) => shift_from(s@, 0, false, row_delta as int, col_delta as int) == Err::<Seq<char>, Seq<char>>(
                e@,
            ),
        },
{
    let ghost rd = row_delta as int;
    let ghost cd = col_delta as int;
    let ghost whole = shift_from(s@, 0, false, rd, cd);
    let mut out: Vec<char> = Vec::new();
    let mut i: usize = 0;
    let mut in_string = false;
    while i < s.len()
        invariant
            i <= s.len(),
            rd == row_delta as int,
            cd == col_delta as int,
            delta_ok(rd),
            delta_ok(cd),
            whole == shift_from(s@, 0, false, rd, cd),
            whole == prepend(out@, shift_from(s@, i as int, in_string, rd, cd)),
        decreases s.len() - i,
    {
        let ch = s[i];
        let ghost before = out@;
        if ch == '"' {
            out.push('"');
            if in_string {
                if i + 1 < s.len() && s[i + 1] == '"' {
                    out.push('"');
                    proof {
                        lemma_prepend_assoc(before, seq!['"', '"'], shift_from(s@, i + 2, true, rd, cd));
                        assert(before + seq!['"', '"'] =~= out@);
                    }
                    i += 2;
                } else {
                    proof {
                        lemma_prepend_assoc(before, seq!['"'], shift_from(s@, i + 1, false, rd, cd));
                        assert(before + seq!['"'] =~= out@);
                    }
                    in_string = false;
                    i += 1;
                }
            } else {
                proof {
                    lemma_prepend_assoc(before, seq!['"'], shift_from(s@, i + 1, true, rd, cd));
                    assert(before + seq!['"'] =~= out@);
                }
                in_string = true;
                i += 1;
            }
        } else if in_string {
            out.push(ch);
            proof {
                lemma_prepend_assoc(before, seq![ch], shift_from(s@, i + 1, true, rd, cd));
                assert(before + seq![ch] =~= out@);
            }
            i += 1;
        } else {
            match try_shift_reference_token(s, i, row_delta, col_delta) {
                Err(e) => {
                    return Err(e);
                },
                Ok(Some((e, t))) => {
                    push_all(&mut out, &t);
                    proof {
                        lemma_prepend_assoc(before, t@, shift_from(s@, e as int, false, rd, cd));
                    }
                    i = e;
                },
                Ok(None) => {
                    out.push(ch);
                    proof {
                        lemma_prepend_assoc(before, seq![ch], shift_from(s@, i + 1, false, rd, cd));
                        assert(before + seq![ch] =~= out@);
                    }
                    i += 1;
                },
            }
        }
    }
    proof {
        assert(out@ + Seq::<char>::empty() =~= out@);
    }
    Ok(out)
}

/// The formula of a follower of a shared formula: the master's formula
/// (without its leading `=`) with its references moved by the follower's
/// offset from the master, behind a `=`.
pub open spec fn spec_resolve_follower(mf: Seq<char>, ma: Seq<char>, fa: Seq<char>) -> Result<Seq<char>, Seq<char>> {
    match spec_split_cell_ref(ma) {
        Err(e) => Err(e),
        Ok((mc, mr)) => match spec_split_cell_ref(fa) {
            Err(e) => Err(e),
            Ok((fc, fr)) => match col_number(fc) {
                Err(e) => Err(e),
                Ok(fcn) => match col_number(mc) {
                    Err(e) => Err(e),
                    Ok(mcn) => {
                        let body = if mf.len() > 0 && mf[0] == '=' {
                            mf.drop_first()
                        } else {
                            mf
                        };
                        prepend(seq!['='], shift_from(body, 0, false, fr - mr, fcn - mcn))
                    },
                },
            },
        },
    }
}

/// The formula of the follower at `follower_anchor` of the shared formula
/// `master_formula` whose master is at `master_anchor`.
pub fn resolve_shared_formula_follower(master_formula: &str, master_anchor: &str, follower_anchor: &str) -> (r: Result<
    String,
    String,
>)
    ensures
        res_view(r) == spec_resolve_follower(master_formula@, master_anchor@, follower_anchor@),
{
    let ma = chars_of(master_anchor);
    let fa = chars_of(follower_anchor);
    let (mc, mr) = match split_cell_ref(&ma) {
        Ok(x) => x,
        Err(e) => return Err(e),
    };
    let (fc, fr) = match split_cell_ref(&fa) {
        Ok(x) => x,
        Err(e) => return Err(e),
    };
    let fcn = match col_letters_to_number(&fc) {
        Ok(n) => n,
        Err(e) => return Err(e),
    };
    let mcn = match col_letters_to_number(&mc) {
        Ok(n) => n,
        Err(e) => return Err(e),
    };
    let row_delta: i64 = fr as i64 - mr as i64;
    let col_delta: i64 = fcn as i64 - mcn as i64;
    let mf = chars_of(master_formula);
    let body = if mf.len() > 0 && mf[0] == '=' {
        let mut b: Vec<char> = Vec::new();
        push_range(&mut b, &mf, 1, mf.len());
        proof {
            assert(b@ =~= mf@.drop_first());
        }
        b
    } else {
        mf
    };
    match shift_formula_a1(&body, row_delta, col_delta) {
        Ok(t) => {
            let mut out = vec!['='];
            push_all(&mut out, &t);
            proof {
                assert(out@ =~= seq!['='] + t@);
            }
            Ok(string_of(&out))
        },
        Err(e) => Err(e),
    }
}

// ------------------------------------------------------------------
// Formula cells of a sheet
// ------------------------------------------------------------------

/// What the sheet XML says of a cell's formula.
#[derive(Debug, Clone)]
pub struct FormulaMeta {
    pub formula_text: String,
    pub has_formula_tag: bool,
    pub is_shared_parent: bool,
    pub is_shared_follower: bool,
    pub shared_index: Option<String>,
    pub resolved_formula_text: Option<String>,
}

pub struct FormulaMetaView {
    pub formula_text: Seq<char>,
    pub has_formula_tag: bool,
    pub is_shared_parent: bool,
    pub is_shared_follower: bool,
    pub shared_index: Option<Seq<char>>,
    pub resolved_formula_text: Option<Seq<char>>,
}

pub open spec fn opt_view(o: Option<String>) -> Option<Seq<char>> {
    match o {
        Some(s) => Some(s@),
        None => None,
    }
}

impl View for FormulaMeta {
    type V = FormulaMetaView;

    open spec fn view(&self) -> FormulaMetaView {
        FormulaMetaView {
            formula_text: self.formula_text@,
            has_formula_tag: self.has_formula_tag,
            is_shared_parent: self.is_shared_parent,
            is_shared_follower: self.is_shared_follower,
            shared_index: opt_view(self.shared_index),
            resolved_formula_text: opt_view(self.resolved_formula_text),
        }
    }
}

impl Default for FormulaMeta {
    fn default() -> (r: Self)
        ensures
            r@ == no_formula(),
    {
        FormulaMeta {
            formula_text: String::new(),
            has_formula_tag: false,
            is_shared_parent: false,
            is_shared_follower: false,
            shared_index: None,
            resolved_formula_text: None,
        }
    }
}

/// A cell without a formula.
pub open spec fn no_formula() -> FormulaMetaView {
    FormulaMetaView {
        formula_text: Seq::empty(),
        has_formula_tag: false,
        is_shared_parent: false,
        is_shared_follower: false,
        shared_index: None,
        resolved_formula_text: None,
    }
}

/// The value of attribute `name` in `tag`: what follows the first `name="`
/// up to the next `"`.
pub open spec fn spec_extract_attr(tag: Seq<char>, name: Seq<char>) -> Option<Seq<char>> {
    let needle = name + seq!['=', '"'];
    match first_at(tag, needle, 0) {
        None => None,
        Some(i) => match first_char(tag, '"', i + needle.len()) {
            None => None,
            Some(e) => Some(tag.subrange(i + needle.len(), e)),
        },
    }
}

pub(crate) fn extract_attr(tag: &Vec<char>, attr_name: &str) -> (r: Option<String>)
    ensures
        opt_view(r) == spec_extract_attr(tag@, attr_name@),
{
    let mut needle = chars_of(attr_name);
    needle.push('=');
    needle.push('"');
    proof {
        assert(needle@ =~= attr_name@ + seq!['=', '"']);
    }
    let found = find_first(tag, &needle, 0);
    let i = match found {
        Some(i) => i,
        None => return None,
    };
    let nl = needle.len();
    let tl = tag.len();
    proof {
        assert(i + nl <= tl);
    }
    let start = i + nl;
    match find_char(tag, '"', start) {
        Some(e) => Some(string_of_range(tag, start, e)),
        None => None,
    }
}

/// XML entity decoding, as a chain of replacements; `&amp;` last.
pub open spec fn spec_xml_unescape(t: Seq<char>) -> Seq<char> {
    replace_seq(
        replace_seq(
            replace_seq(replace_seq(replace_seq(t, "&lt;"@, "<"@), "&gt;"@, ">"@), "&quot;"@, "\""@),
            "&apos;"@,
            "'"@,
        ),
        "&amp;"@,
        "&"@,
    )
}

pub(crate) fn xml_unescape(input: &Vec<char>) -> (r: Vec<char>)
    ensures
        r@ == spec_xml_unescape(input@),
{
    proof {
        reveal_strlit("&lt;");
        reveal_strlit("&gt;");
        reveal_strlit("&quot;");
        reveal_strlit("&apos;");
        reveal_strlit("&amp;");
    }
    let a = replace_vec(input, &chars_of("&lt;"), &chars_of("<"));
    let b = replace_vec(&a, &chars_of("&gt;"), &chars_of(">"));
    let c = replace_vec(&b, &chars_of("&quot;"), &chars_of("\""));
    let d = replace_vec(&c, &chars_of("&apos;"), &chars_of("'"));
    replace_vec(&d, &chars_of("&amp;"), &chars_of("&"))
}

/// What the first `<f` tag of a cell block says: its text (decoded), and
/// whether it is the master (`t="shared"` with a formula) or a follower
/// (`t="shared"` with no formula text) of a shared formula.
pub open spec fn spec_formula_meta(b: Seq<char>) -> FormulaMetaView {
    match first_at(b, "<f"@, 0) {
        None => no_formula(),
        Some(f) => match first_char(b, '>', f) {
            None => no_formula(),
            Some(gt) => {
                let open_tag = b.subrange(f, gt + 1);
                let end = first_at(b, "</f>"@, gt + 1);
                let text = match end {
                    Some(e) => spec_xml_unescape(b.subrange(gt + 1, e)),
                    None => Seq::empty(),
                };
                let self_closing = b[gt - 1] == '/';
                let shared = spec_extract_attr(open_tag, "t"@) == Some("shared"@);
                let follower = shared && trim_seq(text).len() == 0 && (self_closing || end is Some);
                FormulaMetaView {
                    formula_text: text,
                    has_formula_tag: true,
                    is_shared_parent: shared && !follower,
                    is_shared_follower: follower,
                    shared_index: spec_extract_attr(open_tag, "si"@),
                    resolved_formula_text: None,
                }
            },
        },
    }
}

fn extract_formula_meta(block: &Vec<char>) -> (m: FormulaMeta)
    ensures
        m@ == spec_formula_meta(block@),
{
    let f = match find_first(block, &chars_of("<f"), 0) {
        Some(f) => f,
        None => return FormulaMeta::default(),
    };
    let gt = match find_char(block, '>', f) {
        Some(g) => g,
        None => return FormulaMeta::default(),
    };
    proof {
        reveal_strlit("<f");
        assert(block@.subrange(f as int, f + 2) == "<f"@);
        assert(block@[f as int + 1] == block@.subrange(f as int, f + 2)[1]);
        assert(block@[f as int] == block@.subrange(f as int, f + 2)[0]);
        assert(gt != f && gt != f + 1);
    }
    let bl = block.len();
    assert(gt < bl);
    let mut open_tag: Vec<char> = Vec::new();
    push_range(&mut open_tag, block, f, gt + 1);
    let end = find_first(block, &chars_of("</f>"), gt + 1);
    let text = match end {
        Some(e) => {
            let mut inner: Vec<char> = Vec::new();
            push_range(&mut inner, block, gt + 1, e);
            xml_unescape(&inner)
        },
        None => Vec::new(),
    };
    let self_closing = block[gt - 1] == '/';
    let t_attr = extract_attr(&open_tag, "t");
    let shared = match &t_attr {
        Some(t) => crate::text::str_eq(t.as_str(), "shared"),
        None => false,
    };
    proof {
        assert(open_tag@ =~= block@.subrange(f as int, gt + 1));
        assert(text@ == (match end {
            Some(e) => spec_xml_unescape(block@.subrange(gt + 1, e as int)),
            None => Seq::<char>::empty(),
        }));
        assert(shared == (spec_extract_attr(open_tag@, "t"@) == Some("shared"@)));
    }
    let follower = shared && is_blank(&text) && (self_closing || end.is_some());
    FormulaMeta {
        formula_text: string_of(&text),
        has_formula_tag: true,
        is_shared_parent: shared && !follower,
        is_shared_follower: follower,
        shared_index: extract_attr(&open_tag, "si"),
        resolved_formula_text: None,
    }
}

/// The cell blocks of a sheet from `pos` on: each `<c ` element, either
/// self-closing (`.../>`) or up to and including its `</c>`; the scan stops
/// at the first element that is not closed.
pub open spec fn cell_blocks(s: Seq<char>, pos: int) -> Seq<(int, int)>
    decreases s.len() - pos,
{
    if pos < 0 || pos > s.len() {
        Seq::empty()
    } else {
        match first_at(s, "<c "@, pos) {
            None => Seq::empty(),
            Some(start) => match first_char(s, '>', start) {
                None => Seq::empty(),
                Some(gt) => if !(pos <= start && start + 3 <= gt && gt < s.len()) {
                    Seq::empty()
                } else if s[gt - 1] == '/' {
                    seq![(start, gt + 1)] + cell_blocks(s, gt + 1)
                } else {
                    match first_at(s, "</c>"@, gt + 1) {
                        None => Seq::empty(),
                        Some(close) => if gt + 1 <= close && close + 4 <= s.len() {
                            seq![(start, close + 4)] + cell_blocks(s, close + 4)
                        } else {
                            Seq::empty()
                        },
                    }
                },
            },
        }
    }
}

pub open spec fn ranges_view(v: Seq<(usize, usize)>) -> Seq<(int, int)> {
    Seq::new(v.len(), |i: int| (v[i].0 as int, v[i].1 as int))
}

pub open spec fn ranges_within(v: Seq<(usize, usize)>, n: int) -> bool {
    forall|i: int| 0 <= i < v.len() ==> #[trigger] v[i].0 <= v[i].1 && v[i].1 <= n
}

fn find_cell_blocks(s: &Vec<char>) -> (r: Vec<(usize, usize)>)
    ensures
        ranges_view(r@) == cell_blocks(s@, 0),
        ranges_within(r@, s.len() as int),
{
    let open = chars_of("<c ");
    let close_tag = chars_of("</c>");
    proof {
        reveal_strlit("<c ");
        reveal_strlit("</c>");
    }
    let mut out: Vec<(usize, usize)> = Vec::new();
    let mut pos: usize = 0;
    loop
        invariant
            pos <= s.len(),
            open@ == "<c "@,
            close_tag@ == "</c>"@,
            ranges_view(out@) + cell_blocks(s@, pos as int) == cell_blocks(s@, 0),
            ranges_within(out@, s.len() as int),
        ensures
            ranges_view(out@) == cell_blocks(s@, 0),
            ranges_within(out@, s.len() as int),
        decreases s.len() + 1 - pos,
    {
        proof {
            reveal_strlit("<c ");
            reveal_strlit("</c>");
        }
        let ghost before = ranges_view(out@);
        let start = match find_first(s, &open, pos) {
            Some(x) => x,
            None => {
                proof {
                    assert(before + Seq::<(int, int)>::empty() =~= before);
                }
                break;
            },
        };
        let gt = match find_char(s, '>', start) {
            Some(g) => g,
            None => {
                proof {
                    assert(before + Seq::<(int, int)>::empty() =~= before);
                }
                break;
            },
        };
        proof {
            assert(s@.subrange(start as int, start + 3) == "<c "@);
            assert(s@[start as int] == s@.subrange(start as int, start + 3)[0]);
            assert(s@[start + 1] == s@.subrange(start as int, start + 3)[1]);
            assert(s@[start + 2] == s@.subrange(start as int, start + 3)[2]);
            assert(gt >= start + 3);
        }
        if s[gt - 1] == '/' {
            out.push((start, gt + 1));
            proof {
                assert(ranges_view(out@) =~= before.push((start as int, gt + 1)));
                assert(before.push((start as int, gt + 1)) + cell_blocks(s@, gt + 1) =~= before + (seq![
                    (start as int, gt + 1),
                ] + cell_blocks(s@, gt + 1)));
            }
            pos = gt + 1;
        } else {
            match find_first(s, &close_tag, gt + 1) {
                Some(c) => {
                    out.push((start, c + 4));
                    proof {
                        assert(ranges_view(out@) =~= before.push((start as int, c + 4)));
                        assert(before.push((start as int, c + 4)) + cell_blocks(s@, c + 4) =~= before + (seq![
                            (start as int, c + 4),
                        ] + cell_blocks(s@, c + 4)));
                    }
                    pos = c + 4;
                },
                None => {
                    proof {
                        assert(before + Seq::<(int, int)>::empty() =~= before);
                    }
                    break;
                },
            }
        }
    }
    out
}

/// A cell block with an `r` attribute and a formula tag: its address and
/// what its formula tag says.
#[verifier::opaque]
pub open spec fn block_entry(b: Seq<char>) -> Option<(Seq<char>, FormulaMetaView)> {
    match spec_extract_attr(b, "r"@) {
        Some(r) => if spec_formula_meta(b).has_formula_tag {
            Some((r, spec_formula_meta(b)))
        } else {
            None
        },
        None => None,
    }
}

/// The formula cells among the blocks `bs`, in order.
pub open spec fn block_entries(s: Seq<char>, bs: Seq<(int, int)>) -> Seq<(Seq<char>, FormulaMetaView)>
    decreases bs.len(),
{
    if bs.len() == 0 {
        Seq::empty()
    } else {
        let prev = block_entries(s, bs.drop_last());
        match block_entry(s.subrange(bs.last().0, bs.last().1)) {
            Some(e) => prev.push(e),
            None => prev,
        }
    }
}

fn entry_for_block(b: &Vec<char>) -> (r: Option<(String, FormulaMeta)>)
    ensures
        match r {
            Some((k, m)) => block_entry(b@) == Some((k@, m@)),
            None => block_entry(b@) is None,
        },
{
    proof {
        reveal(block_entry);
    }
    let reference = extract_attr(b, "r");
    let meta = extract_formula_meta(b);
    match reference {
        Some(r) => if meta.has_formula_tag {
            Some((r, meta))
        } else {
            None
        },
        None => None,
    }
}

/// The last master of the shared formula `si` among `raw`: its address and
/// its formula.
pub open spec fn master_of(raw: Seq<(Seq<char>, FormulaMetaView)>, si: Seq<char>) -> Option<(Seq<char>, Seq<char>)>
    decreases raw.len(),
{
    if raw.len() == 0 {
        None
    } else if raw.last().1.is_shared_parent && raw.last().1.shared_index == Some(si) {
        Some((raw.last().0, raw.last().1.formula_text))
    } else {
        master_of(raw.drop_last(), si)
    }
}

pub open spec fn with_resolved(m: FormulaMetaView, t: Seq<char>) -> FormulaMetaView {
    FormulaMetaView {
        formula_text: m.formula_text,
        has_formula_tag: m.has_formula_tag,
        is_shared_parent: m.is_shared_parent,
        is_shared_follower: m.is_shared_follower,
        shared_index: m.shared_index,
        resolved_formula_text: Some(t),
    }
}

/// A follower whose master is known gets the formula moved to its address,
/// when that succeeds; any other cell stays as it is.
pub open spec fn resolved_meta(raw: Seq<(Seq<char>, FormulaMetaView)>, r: Seq<char>, m: FormulaMetaView) -> FormulaMetaView {
    if m.is_shared_follower && m.shared_index is Some {
        match master_of(raw, m.shared_index->0) {
            Some((anchor, text)) => match spec_resolve_follower(text, anchor, r) {
                Ok(t) => with_resolved(m, t),
                Err(_) => m,
            },
            None => m,
        }
    } else {
        m
    }
}

pub open spec fn raw_entries(xml: Seq<char>) -> Seq<(Seq<char>, FormulaMetaView)> {
    block_entries(xml, cell_blocks(xml, 0))
}

/// The formula cells of a sheet, by address.
pub open spec fn spec_formula_cells(xml: Seq<char>) -> Map<Seq<char>, FormulaMetaView> {
    let raw = raw_entries(xml);
    entries_map(Seq::new(raw.len(), |i: int| (raw[i].0, resolved_meta(raw, raw[i].0, raw[i].1))))
}

/// The index of the last master of `si` in `raw`.
fn find_master(raw: &Vec<(String, FormulaMeta)>, si: &String) -> (r: Option<usize>)
    ensures
        match r {
            Some(j) => j < raw.len() && master_of(entry_views(raw@), si@) == Some(
                (raw@[j as int].0@, raw@[j as int].1.formula_text@),
            ),
            None => master_of(entry_views(raw@), si@) is None,
        },
{
    let ghost e = entry_views(raw@);
    let mut n = raw.len();
    while n > 0
        invariant
            n <= raw.len(),
            e == entry_views(raw@),
            master_of(e, si@) == master_of(e.take(n as int), si@),
        decreases n,
    {
        let m = &raw[n - 1].1;
        let is_master = m.is_shared_parent && match &m.shared_index {
            Some(x) => crate::text::str_eq(x.as_str(), si.as_str()),
            None => false,
        };
        proof {
            assert(e.take(n as int).drop_last() =~= e.take(n - 1));
            assert(e.take(n as int).last() == e[n - 1]);
        }
        if is_master {
            return Some(n - 1);
        }
        n -= 1;
    }
    None
}

fn copy_opt(o: &Option<String>) -> (r: Option<String>)
    ensures
        r == *o,
{
    match o {
        Some(x) => Some(x.clone()),
        None => None,
    }
}

pub open spec fn resolved_entries(rawv: Seq<(Seq<char>, FormulaMetaView)>) -> Seq<(Seq<char>, FormulaMetaView)> {
    Seq::new(rawv.len(), |j: int| (rawv[j].0, resolved_meta(rawv, rawv[j].0, rawv[j].1)))
}

fn collect_formula_entries(s: &Vec<char>) -> (raw: Vec<(String, FormulaMeta)>)
    ensures
        entry_views(raw@) == raw_entries(s@),
{
    let blocks = find_cell_blocks(s);
    let ghost bs = ranges_view(blocks@);
    let mut raw: Vec<(String, FormulaMeta)> = Vec::new();
    let mut i: usize = 0;
    while i < blocks.len()
        invariant
            i <= blocks.len(),
            bs == ranges_view(blocks@),
            bs == cell_blocks(s@, 0),
            ranges_within(blocks@, s.len() as int),
            entry_views(raw@) == block_entries(s@, bs.take(i as int)),
        decreases blocks.len() - i,
    {
        let (lo, hi) = blocks[i];
        proof {
            assert(blocks@[i as int].0 <= blocks@[i as int].1 && blocks@[i as int].1 <= s.len());
        }
        let mut b: Vec<char> = Vec::new();
        push_range(&mut b, s, lo, hi);
        let ghost prev = entry_views(raw@);
        proof {
            assert(bs.take(i + 1).drop_last() =~= bs.take(i as int));
            assert(bs.take(i + 1).last() == (lo as int, hi as int));
            assert(b@ =~= s@.subrange(lo as int, hi as int));
        }
        if let Some((r, meta)) = entry_for_block(&b) {
            let ghost rv = r@;
            let ghost mv = meta@;
            raw.push((r, meta));
            proof {
                assert(entry_views(raw@) =~= prev.push((rv, mv)));
            }
        }
        i += 1;
    }
    proof {
        assert(bs.take(bs.len() as int) =~= bs);
    }
    raw
}

fn resolve_entry(raw: &Vec<(String, FormulaMeta)>, j: usize) -> (m: FormulaMeta)
    requires
        j < raw.len(),
    ensures
        m@ == resolved_meta(entry_views(raw@), raw@[j as int].0@, raw@[j as int].1@),
{
    let src = &raw[j].1;
    let mut meta = FormulaMeta {
        formula_text: src.formula_text.clone(),
        has_formula_tag: src.has_formula_tag,
        is_shared_parent: src.is_shared_parent,
        is_shared_follower: src.is_shared_follower,
        shared_index: copy_opt(&src.shared_index),
        resolved_formula_text: copy_opt(&src.resolved_formula_text),
    };
    if meta.is_shared_follower {
        if let Some(si) = &src.shared_index {
            if let Some(k) = find_master(raw, si) {
                let resolved = resolve_shared_formula_follower(
                    raw[k].1.formula_text.as_str(),
                    raw[k].0.as_str(),
                    raw[j].0.as_str(),
                );
                if let Ok(t) = resolved {
                    meta.resolved_formula_text = Some(t);
                }
            }
        }
    }
    meta
}

fn resolve_entries(raw: &Vec<(String, FormulaMeta)>) -> (out: Vec<(String, FormulaMeta)>)
    ensures
        distinct_keys(entry_views(out@)),
        entries_map(entry_views(out@)) == entries_map(resolved_entries(entry_views(raw@))),
{
    let ghost rawv = entry_views(raw@);
    let ghost target = resolved_entries(rawv);
    let mut out: Vec<(String, FormulaMeta)> = Vec::new();
    let mut j: usize = 0;
    while j < raw.len()
        invariant
            j <= raw.len(),
            rawv == entry_views(raw@),
            target == resolved_entries(rawv),
            distinct_keys(entry_views(out@)),
            entries_map(entry_views(out@)) == entries_map(target.take(j as int)),
        decreases raw.len() - j,
    {
        let reference = raw[j].0.clone();
        let meta = resolve_entry(raw, j);
        proof {
            assert(target.take(j + 1).drop_last() =~= target.take(j as int));
            assert(target.take(j + 1).last() == target[j as int]);
        }
        upsert(&mut out, reference, meta);
        j += 1;
    }
    proof {
        assert(target.take(target.len() as int) =~= target);
    }
    out
}

/// The formula cells of a worksheet's XML, one entry per cell address (a
/// later cell with the same address replaces an earlier one); a follower
/// of a shared formula gets the formula moved to its address.
pub fn parse_formula_cells(sheet_xml: &str) -> (out: Vec<(String, FormulaMeta)>)
    ensures
        distinct_keys(entry_views(out@)),
        entries_map(entry_views(out@)) == spec_formula_cells(sheet_xml@),
{
    let s = chars_of(sheet_xml);
    let raw = collect_formula_entries(&s);
    resolve_entries(&raw)
}

} // verus!
