pub mod structure_types;
pub mod formula_text;
pub mod protected_text_detector;
pub mod shared_formula_reader;
pub mod shared_formula_apply_patch;
pub mod apply_workbook_writer;
pub mod generate_workbook_writer;
pub mod source_workbook_reader;
pub mod workbook_reader;
