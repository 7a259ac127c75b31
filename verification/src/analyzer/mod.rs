pub mod classifier;
pub mod config;
pub mod param_counter;
pub mod safetensor;
