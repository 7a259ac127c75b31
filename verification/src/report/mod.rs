pub mod formatter;
pub mod tui;
pub mod config_fields;
pub mod ranking;
pub mod layout;
