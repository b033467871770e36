pub mod app_error;
pub mod config_loader;
