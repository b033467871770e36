//! Errors of the pipeline.
use vstd::prelude::*;

verus! {

#[derive(Debug, Clone)]
pub enum AppError {
    Internal(String),
    WorkbookReadFailed(String),
}

} // verus!
