//! The first logical cell of what a sheet read gave.
use vstd::prelude::*;

use crate::core2::structure_types::LogicalCell;
use crate::infra::app_error::AppError;
use crate::text::{chars_of, string_of};

verus! {

/// The first of the logical cells read; none read is a read failure.
pub fn read_first_logical_cell(cells: Vec<LogicalCell>) -> (r: Result<LogicalCell, AppError>)
    ensures
        cells@.len() > 0 ==> r == Ok::<LogicalCell, AppError>(cells@[0]),
        cells@.len() == 0 ==> (r matches Err(AppError::WorkbookReadFailed(m)) && m@ == "no logical cells found"@),
{
    let mut cells = cells;
    if cells.len() == 0 {
        return Err(AppError::WorkbookReadFailed(string_of(&chars_of("no logical cells found"))));
    }
    Ok(cells.remove(0))
}

} // verus!
