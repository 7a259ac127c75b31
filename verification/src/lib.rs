//! dissectlm: inspection of language-model architectures from their metadata.
//! Tensor classification, parameter statistics, attention-layout inference,
//! configuration reading, safetensors header handling, the architecture graph
//! and the layout of the text and terminal reports, each with a proved
//! contract.
pub mod analyzer;
pub mod cli;
pub mod graph;
pub mod hf;
pub mod report;
pub mod text;
pub mod types;
pub mod json;
pub mod python_bridge;
