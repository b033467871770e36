//! The audit of an applied workbook: every written cell holds the chosen text.
use vstd::prelude::*;

use crate::core2::apply_workbook_writer::ApplyPayloadRow;
use crate::text::{chars_of, eq_vec, push_all, string_of};

verus! {

/// The first row whose cell does not hold its chosen text, given what the
/// output workbook holds at each row's cell (`None` when its sheet is
/// missing).
pub open spec fn first_mismatch(rows: Seq<ApplyPayloadRow>, values: Seq<Option<String>>, i: int) -> Option<int>
    decreases rows.len() - i,
{
    if i < 0 || i >= rows.len() {
        None
    } else if values[i] is None || values[i]->0@ != rows[i].selected_text@ {
        Some(i)
    } else {
        first_mismatch(rows, values, i + 1)
    }
}

pub open spec fn audit_message(row: ApplyPayloadRow, value: Option<String>) -> Seq<char> {
    match value {
        None => "audit output missing sheet: "@ + row.sheet_name@,
        Some(v) => "audit value mismatch at "@ + row.sheet_name@ + "!"@ + row.anchor_address@ + " expected="@
            + row.selected_text@ + " actual="@ + v@,
    }
}

/// Checks the output: `output_values[i]` is what the output holds at the
/// cell of `rows[i]`, or `None` when that row's sheet is missing. The first
/// row that differs is reported.
pub fn verify_apply_output(rows: &[ApplyPayloadRow], output_values: &Vec<Option<String>>) -> (r: Result<(), String>)
    requires
        output_values@.len() == rows@.len(),
    ensures
        match first_mismatch(rows@, output_values@, 0) {
            None => r is Ok,
            Some(i) => r matches Err(m) && m@ == audit_message(rows@[i], output_values@[i]),
        },
{
    let mut i: usize = 0;
    while i < rows.len()
        invariant
            i <= rows.len(),
            output_values@.len() == rows@.len(),
            first_mismatch(rows@, output_values@, 0) == first_mismatch(rows@, output_values@, i as int),
        decreases rows.len() - i,
    {
        let row = &rows[i];
        match &output_values[i] {
            None => {
                let mut m = chars_of("audit output missing sheet: ");
                push_all(&mut m, &chars_of(row.sheet_name.as_str()));
                return Err(string_of(&m));
            },
            Some(v) => {
                if !eq_vec(&chars_of(v.as_str()), &chars_of(row.selected_text.as_str())) {
                    let mut m = chars_of("audit value mismatch at ");
                    push_all(&mut m, &chars_of(row.sheet_name.as_str()));
                    push_all(&mut m, &chars_of("!"));
                    push_all(&mut m, &chars_of(row.anchor_address.as_str()));
                    push_all(&mut m, &chars_of(" expected="));
                    push_all(&mut m, &chars_of(row.selected_text.as_str()));
                    push_all(&mut m, &chars_of(" actual="));
                    push_all(&mut m, &chars_of(v.as_str()));
                    return Err(string_of(&m));
                }
            },
        }
        i += 1;
    }
    Ok(())
}

} // verus!
