//! The workbook that checks sheet protection by hand: which cells are
//! locked (gray) and which stay editable (orange), and the password that
//! protects the sheet. Building and writing the workbook stays outside the
//! library.
use vstd::prelude::*;

use crate::core2::shared_formula_reader::opt_view;
use crate::text::{chars_of, trim_seq, trim_vec};

verus! {

/// A cell style as the check workbook uses it: whether the cell is locked
/// under sheet protection, and its solid fill colour (ARGB).
#[derive(Debug, Clone)]
pub struct ProtectStyle {
    pub locked: bool,
    pub fill_argb: String,
}

/// Locked, gray fill.
pub fn locked_gray() -> (s: ProtectStyle)
    ensures
        s.locked,
        s.fill_argb@ == "FFE7E6E6"@,
{
    ProtectStyle { locked: true, fill_argb: "FFE7E6E6".to_owned() }
}

/// Editable, orange fill.
pub fn unlocked_orange() -> (s: ProtectStyle)
    ensures
        !s.locked,
        s.fill_argb@ == "FFFFF2CC"@,
{
    ProtectStyle { locked: false, fill_argb: "FFFFF2CC".to_owned() }
}

/// Rows 3 and 4 of the check sheet are editable; the others are locked.
pub open spec fn row_editable(row: u32) -> bool {
    row == 3 || row == 4
}

pub fn style_for_row(row: u32) -> (s: ProtectStyle)
    ensures
        s.locked == !row_editable(row),
        row_editable(row) ==> s.fill_argb@ == "FFFFF2CC"@,
        !row_editable(row) ==> s.fill_argb@ == "FFE7E6E6"@,
{
    if row == 3 || row == 4 {
        unlocked_orange()
    } else {
        locked_gray()
    }
}

/// A setting counts when it is present and not blank.
pub open spec fn usable(o: Option<Seq<char>>) -> bool {
    match o {
        Some(v) => trim_seq(v).len() > 0,
        None => false,
    }
}

/// The protection password: the first setting that counts, else
/// `ETB_PROTECT`.
pub open spec fn spec_protection_password(primary: Option<Seq<char>>, secondary: Option<Seq<char>>) -> Seq<char> {
    if usable(primary) {
        primary->0
    } else if usable(secondary) {
        secondary->0
    } else {
        "ETB_PROTECT"@
    }
}

fn usable_exec(o: &Option<String>) -> (b: bool)
    ensures
        b == usable(opt_view(*o)),
{
    match o {
        Some(v) => trim_vec(&chars_of(v.as_str())).len() > 0,
        None => false,
    }
}

pub fn protection_password(primary: Option<String>, secondary: Option<String>) -> (r: String)
    ensures
        r@ == spec_protection_password(opt_view(primary), opt_view(secondary)),
{
    if usable_exec(&primary) {
        match primary {
            Some(v) => v,
            None => "ETB_PROTECT".to_owned(),
        }
    } else if usable_exec(&secondary) {
        match secondary {
            Some(v) => v,
            None => "ETB_PROTECT".to_owned(),
        }
    } else {
        "ETB_PROTECT".to_owned()
    }
}

} // verus!
