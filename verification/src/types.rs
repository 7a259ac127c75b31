//! Plain data types shared by the analyzer, the graph builder and the reports.
use crate::json::JsonValue;
use vstd::prelude::*;

verus! {

/// Where a model's metadata was read from.
#[derive(Debug, Clone, Copy, PartialEq, Eq, Structural)]
pub enum ModelSourceKind {
    LocalPath,
    HuggingFace,
}

/// The source of a model: its kind and the path or repository id.
#[derive(Debug, Clone)]
pub struct ModelSource {
    pub kind: ModelSourceKind,
    pub location: String,
}

/// The functional role of a tensor inside a model.
#[derive(Debug, Clone, Copy, PartialEq, Eq, Hash, Structural)]
pub enum LayerCategory {
    Attention,
    FeedForward,
    Embedding,
    Normalization,
    OutputHead,
    Other,
}

/// One tensor of a model, with its parameter count and category.
#[derive(Debug)]
pub struct TensorMeta {
    pub name: String,
    pub shape: Vec<u64>,
    pub dtype: String,
    pub data_offsets: (u64, u64),
    pub param_count: u64,
    pub category: LayerCategory,
}

impl Clone for TensorMeta {
    fn clone(&self) -> (r: Self)
        ensures
            r.name@ == self.name@,
            r.shape@ == self.shape@,
            r.dtype@ == self.dtype@,
            r.data_offsets == self.data_offsets,
            r.param_count == self.param_count,
            r.category == self.category,
    {
        TensorMeta {
            name: self.name.clone(),
            shape: self.shape.clone(),
            dtype: self.dtype.clone(),
            data_offsets: (self.data_offsets.0, self.data_offsets.1),
            param_count: self.param_count,
            category: self.category,
        }
    }
}

/// Parameter totals per category.
#[derive(Debug, Clone, Copy, Default)]
pub struct CategoryTotals {
    pub attention: u64,
    pub feedforward: u64,
    pub embedding: u64,
    pub normalization: u64,
    pub output_head: u64,
    pub other: u64,
}

/// Parameter totals of a model: without the output head, with it, and per category.
#[derive(Debug, Clone, Copy, Default)]
pub struct ParamStats {
    pub total_params: u64,
    pub total_params_all: u64,
    pub categories: CategoryTotals,
}

/// Architecture fields read from a model's configuration.
#[derive(Debug, Clone, Default)]
pub struct ArchitectureInfo {
    pub model_type: Option<String>,
    pub hidden_size: Option<u64>,
    pub num_layers: Option<u64>,
    pub num_heads: Option<u64>,
    pub num_key_value_heads: Option<u64>,
    pub attention_type: Option<String>,
}

/// Attention layout inferred from configuration and tensor shapes.
#[derive(Debug, Clone, Default)]
pub struct AttentionInfo {
    pub head_dim: Option<u64>,
    pub num_heads: Option<u64>,
    pub kv_heads: Option<u64>,
    pub attention_type: Option<String>,
    pub q_proj_params: u64,
    pub k_proj_params: u64,
    pub v_proj_params: u64,
    pub o_proj_params: u64,
}

/// One row of a model comparison.
#[derive(Debug, Clone)]
pub struct CompareMetricDiff {
    pub metric: String,
    pub left: String,
    pub right: String,
}

/// Everything the inspection of one model found.
#[derive(Debug)]
pub struct ModelReport {
    pub model: String,
    pub source: ModelSource,
    pub config: Option<JsonValue>,
    pub config_key_count: usize,
    pub architecture: ArchitectureInfo,
    pub params: ParamStats,
    pub attention: AttentionInfo,
    pub tensor_files_found: usize,
    pub model_size_bytes: Option<u64>,
    pub tensor_dtypes: Vec<String>,
    pub tensor_count: usize,
    pub tensors: Option<Vec<TensorMeta>>,
    pub graph: Option<String>,
    pub deep: Option<JsonValue>,
    pub warnings: Vec<String>,
}

/// Two model reports and the metrics in which they are compared.
#[derive(Debug)]
pub struct CompareReport {
    pub left: ModelReport,
    pub right: ModelReport,
    pub diffs: Vec<CompareMetricDiff>,
}

/// The text of an optional string, as a sequence of characters.
pub open spec fn opt_view(o: Option<String>) -> Option<Seq<char>> {
    match o {
        Some(s) => Some(s@),
        None => None,
    }
}

/// The text of an optional string slice, as a sequence of characters.
pub open spec fn opt_str_view(o: Option<&str>) -> Option<Seq<char>> {
    match o {
        Some(s) => Some(s@),
        None => None,
    }
}

/// Borrows the text of an optional string (`Option::as_deref`).
pub fn opt_as_str(o: &Option<String>) -> (r: Option<&str>)
    ensures
        opt_str_view(r) == opt_view(*o),
{
    match o {
        Some(s) => Some(s.as_str()),
        None => None,
    }
}

} // verus!
