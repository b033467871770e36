pub mod analyzer;
pub mod batches;
pub mod candidates;
pub mod default_select;
pub mod text_structure_analyzer;
pub mod tokens;
pub mod translation_policy;
pub mod types;
