pub mod entry_state;
pub mod estimate_entry_pipeline;
pub mod generate_entry_pipeline;
pub mod job_plan_settings;
pub mod sheet_select_cli;
