pub mod structure_verify;
