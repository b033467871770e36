//! What the entry steps hand to each other.
use vstd::prelude::*;

verus! {

#[verifier::external_type_specification]
#[verifier::external_body]
pub struct ExPathBuf(std::path::PathBuf);

/// The paths of a job: the stored original, the working replica and the
/// UI workbook written for it.
#[derive(Debug)]
pub struct JobPaths {
    pub job_id: String,
    pub original_path: std::path::PathBuf,
    pub replica_path: std::path::PathBuf,
    pub output_ui_path: std::path::PathBuf,
}

/// The sheet names of a workbook, in order.
#[derive(Debug, Clone)]
pub struct SheetInventory {
    pub sheets: Vec<String>,
}

/// What the generate step produced.
#[derive(Debug)]
pub struct GenerateSelectResult {
    pub job_id: String,
    pub output_ui_path: std::path::PathBuf,
    pub selected_sheets: Vec<String>,
}

/// Why an entry step stopped: the user left, went back, or something failed.
#[derive(Debug)]
pub enum EntryError {
    UserExit,
    UserBack,
    Internal(String),
}

} // verus!
