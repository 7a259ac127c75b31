pub mod args;
pub mod commands;
