//! Result types of the candidate-generation core.
use vstd::prelude::*;

use crate::adapters::types::{Lang, ProviderKind};
use crate::core2::structure_types::LogicalCell;

verus! {

#[derive(Debug, Clone, Copy, PartialEq, Eq, Structural)]
pub enum EntryRoute {
    Translate,
    Skip,
    Warn,
    Reject,
}

#[derive(Debug, Clone)]
pub struct Core1Policy {
    pub translator_order: Vec<ProviderKind>,
    pub max_retry_count: u32,
}

#[derive(Debug, Clone)]
pub struct Core1AnalyzeInput {
    pub logical_cell: LogicalCell,
    pub source_lang: Lang,
    pub target_lang: Lang,
    pub policy: Core1Policy,
}

/// A run of characters that is (target) or is not (not target) sent to translation.
#[derive(Debug, Clone)]
pub struct Segment {
    pub text: String,
    pub target: bool,
}

#[derive(Debug, Clone)]
pub struct Core1AnalysisResult {
    pub logical_cell_id: String,
    pub route: EntryRoute,
    pub shape: Option<String>,
    pub note: String,
    pub segments: Vec<Segment>,
}

/// The error text of each failed candidate.
#[derive(Debug, Clone)]
pub struct CandidateAlarms {
    pub candidate1_alarm: Option<String>,
    pub candidate2_alarm: Option<String>,
    pub candidate3_alarm: Option<String>,
}

impl Default for CandidateAlarms {
    fn default() -> (r: Self)
        ensures
            r.candidate1_alarm is None,
            r.candidate2_alarm is None,
            r.candidate3_alarm is None,
    {
        CandidateAlarms { candidate1_alarm: None, candidate2_alarm: None, candidate3_alarm: None }
    }
}

/// Which text a cell shows by default: the original or one of three candidates.
#[derive(Debug, Clone, Copy, PartialEq, Eq, Structural)]
pub enum DefaultSelect {
    Original,
    Candidate1,
    Candidate2,
    Candidate3,
}

impl DefaultSelect {
    /// The number written to the UI sheet: 0 for the original, n for candidate n.
    pub fn to_index(self) -> (r: u8)
        ensures
            r == match self {
                DefaultSelect::Original => 0u8,
                DefaultSelect::Candidate1 => 1u8,
                DefaultSelect::Candidate2 => 2u8,
                DefaultSelect::Candidate3 => 3u8,
            },
    {
        match self {
            DefaultSelect::Original => 0,
            DefaultSelect::Candidate1 => 1,
            DefaultSelect::Candidate2 => 2,
            DefaultSelect::Candidate3 => 3,
        }
    }
}

#[derive(Debug, Clone)]
pub struct CandidateBundle {
    pub logical_cell_id: String,
    pub original: String,
    pub candidate1: Option<String>,
    pub candidate2: Option<String>,
    pub candidate3: Option<String>,
    pub default_select: DefaultSelect,
    pub alarms: CandidateAlarms,
    pub note: String,
}

} // verus!
