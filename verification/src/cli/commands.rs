//! What the commands decide and compute once the inputs have been read: the
//! report of one model, the comparison of two, and the choices made from the
//! command line.
use crate::analyzer::config::{
    alias_count, architecture_from_config, config_model_type, head_count_keys, hidden_size_keys,
    kv_head_count_keys, layer_count_keys,
};
use crate::analyzer::param_counter::{
    attention_layout_of, attention_type_of, describes, stats_of, summarize_tensors,
};
use crate::analyzer::safetensor::TensorMetaRaw;
use crate::cli::args::Cli;
use crate::graph::architecture::{build_architecture_graph, graph_text};
use crate::json::{member_count, JsonValue};
use crate::report::formatter::{changed_count, opt_u64_text, opt_u64 as fmt_opt_u64};
use crate::text::{
    trim_end_char, trimmed_end,
    ascii_lower, decimal, lowercase_chars, owned, sorted_unique_texts, string_views, strictly_sorted,
    text_eq, u64_to_string, join, join_strings, concat3,
};
use crate::types::{
    opt_view, CategoryTotals, ModelSourceKind, ArchitectureInfo, AttentionInfo, CompareMetricDiff, ModelReport, ModelSource, ParamStats,
    TensorMeta,
};
use vstd::prelude::*;

verus! {

/// What a single-model inspection shows.
#[derive(Debug, Clone, Default)]
pub struct InspectOptions {
    pub show_params: bool,
    pub show_graph: bool,
    pub show_attention_breakdown: bool,
    pub deep: bool,
    pub json: bool,
    pub checkpoint: Option<String>,
}

/// How two models are compared.
#[derive(Debug, Clone, Copy, Default)]
pub struct CompareOptions {
    pub deep: bool,
    pub json: bool,
}

/// What was read about a model before it is analysed.
#[derive(Debug)]
pub struct ResolvedInput {
    pub source: ModelSource,
    pub config: Option<JsonValue>,
    pub tensors: Vec<TensorMetaRaw>,
    pub tensor_files_found: usize,
    pub model_size_bytes: Option<u64>,
    pub warnings: Vec<String>,
}

// ---------------------------------------------------------------------------
// The report of one model
// ---------------------------------------------------------------------------
/// The warning added when no tensor metadata was found.
pub open spec fn no_tensor_warning() -> Seq<char> {
    "No safetensors metadata found. Fast mode is metadata-only; try --deep for raw checkpoint inspection."@
}

/// The architecture fields read from the configuration (all absent without one).
pub open spec fn config_fields_match(arch: ArchitectureInfo, config: Option<JsonValue>) -> bool {
    match config {
        Some(c) => {
            &&& opt_view(arch.model_type) == config_model_type(c)
            &&& arch.hidden_size == alias_count(c, hidden_size_keys())
            &&& arch.num_layers == alias_count(c, layer_count_keys())
            &&& arch.num_heads == alias_count(c, head_count_keys())
            &&& arch.num_key_value_heads == alias_count(c, kv_head_count_keys())
        },
        None => {
            &&& arch.model_type is None
            &&& arch.hidden_size is None
            &&& arch.num_layers is None
            &&& arch.num_heads is None
            &&& arch.num_key_value_heads is None
        },
    }
}

/// The dtypes of some tensors.
pub open spec fn dtype_views(ts: Seq<TensorMetaRaw>) -> Seq<Seq<char>> {
    ts.map_values(|t: TensorMetaRaw| t.dtype@)
}

/// The report of the model `model` whose inputs are `resolved` and whose deep
/// inspection result is `deep`:
/// the architecture comes from the configuration, its attention kind from the
/// tensor analysis; parameters and attention layout are those of the tensors;
/// the dtypes are the distinct tensor dtypes in increasing order; the tensor
/// list is kept only when parameters are shown, the graph drawn only when asked
/// for; a warning is added when no tensor was found.
pub open spec fn is_report_of(
    r: ModelReport,
    model: Seq<char>,
    resolved: ResolvedInput,
    options: InspectOptions,
    deep: Option<JsonValue>,
) -> bool {
    let ts = resolved.tensors@;
    &&& r.model@ == model
    &&& r.source == resolved.source
    &&& r.config == resolved.config
    &&& r.config_key_count == match resolved.config {
        Some(c) => member_count(c),
        None => 0,
    }
    &&& config_fields_match(r.architecture, resolved.config)
    &&& opt_view(r.architecture.attention_type) == attention_type_of(ts, r.architecture)
    &&& stats_of(r.params, ts, r.architecture)
    &&& attention_layout_of(r.attention, ts, r.architecture)
    &&& opt_view(r.attention.attention_type) == attention_type_of(ts, r.architecture)
    &&& r.tensor_files_found == resolved.tensor_files_found
    &&& r.model_size_bytes == resolved.model_size_bytes
    &&& strictly_sorted(string_views(r.tensor_dtypes@))
    &&& (forall|t: Seq<char>|
        string_views(r.tensor_dtypes@).contains(t) <==> dtype_views(ts).contains(t))
    &&& r.tensor_count == ts.len()
    &&& (options.show_params <==> r.tensors is Some)
    &&& (r.tensors matches Some(metas) ==> metas@.len() == ts.len() && forall|i: int|
        0 <= i < ts.len() ==> describes(
            #[trigger] metas@[i],
            ts[i],
            opt_view(r.architecture.model_type),
        ))
    &&& (options.show_graph <==> r.graph is Some)
    &&& (r.graph matches Some(g) ==> g@ == graph_text(r.architecture))
    &&& r.deep == deep
    &&& string_views(r.warnings@) == if ts.len() == 0 {
        string_views(resolved.warnings@).push(no_tensor_warning())
    } else {
        string_views(resolved.warnings@)
    }
}

/// Analyses what was read about a model and assembles its report.
pub fn build_model_report(
    model: &str,
    resolved: ResolvedInput,
    options: &InspectOptions,
    deep: Option<JsonValue>,
) -> (r: ModelReport)
    ensures
        is_report_of(r, model@, resolved, *options, deep),
{
    let ghost resolved0 = resolved;
    let ResolvedInput { source, config, tensors, tensor_files_found, model_size_bytes, warnings } =
        resolved;
    let mut warnings = warnings;
    let mut architecture = match &config {
        Some(cfg) => architecture_from_config(cfg),
        None => ArchitectureInfo {
            model_type: None,
            hidden_size: None,
            num_layers: None,
            num_heads: None,
            num_key_value_heads: None,
            attention_type: None,
        },
    };
    let (tensor_metas, param_stats, attention_info) = summarize_tensors(tensors.as_slice(), &architecture);
    let mut attention_info = attention_info;
    if architecture.attention_type.is_none() {
        architecture.attention_type = attention_info.attention_type.clone();
    }
    let graph = if options.show_graph {
        Some(build_architecture_graph(&architecture))
    } else {
        None
    };
    if tensors.len() == 0 {
        let ghost before = warnings@;
        let w = owned(
            "No safetensors metadata found. Fast mode is metadata-only; try --deep for raw checkpoint inspection.",
        );
        warnings.push(w);
        assert(string_views(warnings@) =~= string_views(before).push(no_tensor_warning()));
    }
    if attention_info.attention_type.is_none() {
        attention_info.attention_type = architecture.attention_type.clone();
    }
    let mut dtypes: Vec<String> = Vec::new();
    let mut i: usize = 0;
    while i < tensor_metas.len()
        invariant
            i <= tensor_metas.len(),
            tensor_metas@.len() == tensors@.len(),
            forall|j: int|
                0 <= j < tensors@.len() ==> describes(
                    #[trigger] tensor_metas@[j],
                    tensors@[j],
                    opt_view(architecture.model_type),
                ),
            string_views(dtypes@) == dtype_views(tensors@.take(i as int)),
        decreases tensor_metas.len() - i,
    {
        let d = tensor_metas[i].dtype.clone();
        let ghost before = dtypes@;
        dtypes.push(d);
        proof {
            assert(string_views(dtypes@) =~= string_views(before).push(tensors@[i as int].dtype@));
            assert(dtype_views(tensors@.take(i + 1)) =~= dtype_views(tensors@.take(i as int)).push(
                tensors@[i as int].dtype@,
            ));
        }
        i += 1;
    }
    assert(tensors@.take(tensors@.len() as int) =~= tensors@);
    let tensor_dtypes = sorted_unique_texts(&dtypes);
    let config_key_count = match &config {
        Some(c) => c.member_count(),
        None => 0,
    };
    let tensor_count = tensor_metas.len();
    let tensors_shown = if options.show_params {
        Some(tensor_metas)
    } else {
        None
    };
    ModelReport {
        model: owned(model),
        source,
        config,
        config_key_count,
        architecture,
        params: param_stats,
        attention: attention_info,
        tensor_files_found,
        model_size_bytes,
        tensor_dtypes,
        tensor_count,
        tensors: tensors_shown,
        graph,
        deep,
        warnings,
    }
}

/// The report of a checkpoint inspected in deep mode alone: no metadata is
/// read, so the report names the model, gives the checkpoint as a local
/// source, holds the deep inspection's result, and is empty otherwise.
pub open spec fn is_checkpoint_report(r: ModelReport, model: Seq<char>, checkpoint: Seq<char>, deep: JsonValue) -> bool {
    &&& r.model@ == model
    &&& r.source.kind == ModelSourceKind::LocalPath
    &&& r.source.location@ == checkpoint
    &&& r.config is None
    &&& r.config_key_count == 0
    &&& r.architecture.model_type is None && r.architecture.hidden_size is None
    &&& r.architecture.num_layers is None && r.architecture.num_heads is None
    &&& r.architecture.num_key_value_heads is None && r.architecture.attention_type is None
    &&& r.params.total_params == 0 && r.params.total_params_all == 0
    &&& r.params.categories == CategoryTotals {
        attention: 0,
        feedforward: 0,
        embedding: 0,
        normalization: 0,
        output_head: 0,
        other: 0,
    }
    &&& r.attention.head_dim is None && r.attention.num_heads is None
    &&& r.attention.kv_heads is None && r.attention.attention_type is None
    &&& r.attention.q_proj_params == 0 && r.attention.k_proj_params == 0
    &&& r.attention.v_proj_params == 0 && r.attention.o_proj_params == 0
    &&& r.tensor_files_found == 0
    &&& r.model_size_bytes is None
    &&& r.tensor_dtypes@.len() == 0
    &&& r.tensor_count == 0
    &&& r.tensors is None
    &&& r.graph is None
    &&& r.deep == Some(deep)
    &&& r.warnings@.len() == 0
}

/// The report of a checkpoint file inspected by the deep inspection alone,
/// without reading any metadata.
pub fn checkpoint_report(model: &str, checkpoint: &str, deep: JsonValue) -> (r: ModelReport)
    ensures
        is_checkpoint_report(r, model@, checkpoint@, deep),
{
    ModelReport {
        model: owned(model),
        source: ModelSource { kind: ModelSourceKind::LocalPath, location: owned(checkpoint) },
        config: None,
        config_key_count: 0,
        architecture: ArchitectureInfo {
            model_type: None,
            hidden_size: None,
            num_layers: None,
            num_heads: None,
            num_key_value_heads: None,
            attention_type: None,
        },
        params: ParamStats {
            total_params: 0,
            total_params_all: 0,
            categories: CategoryTotals {
                attention: 0,
                feedforward: 0,
                embedding: 0,
                normalization: 0,
                output_head: 0,
                other: 0,
            },
        },
        attention: AttentionInfo {
            head_dim: None,
            num_heads: None,
            kv_heads: None,
            attention_type: None,
            q_proj_params: 0,
            k_proj_params: 0,
            v_proj_params: 0,
            o_proj_params: 0,
        },
        tensor_files_found: 0,
        model_size_bytes: None,
        tensor_dtypes: Vec::new(),
        tensor_count: 0,
        tensors: None,
        graph: None,
        deep: Some(deep),
        warnings: Vec::new(),
    }
}

// ---------------------------------------------------------------------------
// Comparing two models
// ---------------------------------------------------------------------------
/// One compared metric.
pub fn diff_metric(metric: &str, left: String, right: String) -> (r: CompareMetricDiff)
    ensures
        r.metric@ == metric@,
        r.left == left,
        r.right == right,
{
    CompareMetricDiff { metric: owned(metric), left, right }
}

/// An optional count as text, `-` when absent.
pub fn opt_u64(value: Option<u64>) -> (r: String)
    ensures
        r@ == opt_u64_text(value),
{
    fmt_opt_u64(value)
}

/// An optional text, `-` when absent.
pub open spec fn opt_string_text(value: Option<String>) -> Seq<char> {
    match value {
        Some(s) => s@,
        None => "-"@,
    }
}

/// An optional text, `-` when absent.
pub fn opt_string(value: Option<String>) -> (r: String)
    ensures
        r@ == opt_string_text(value),
{
    match value {
        Some(s) => s,
        None => owned("-"),
    }
}

/// `a` if present, else `b`.
pub open spec fn first_some<T>(a: Option<T>, b: Option<T>) -> Option<T> {
    if a is Some {
        a
    } else {
        b
    }
}

/// The key/value head count shown for a model: the configured one, else the
/// inferred one.
pub open spec fn shown_kv_heads(r: ModelReport) -> Option<u64> {
    first_some(r.architecture.num_key_value_heads, r.attention.kv_heads)
}

/// The attention kind shown for a model.
pub open spec fn shown_attention(r: ModelReport) -> Option<String> {
    first_some(r.architecture.attention_type, r.attention.attention_type)
}

/// A compared metric, as views.
pub open spec fn diff_view(d: CompareMetricDiff) -> (Seq<char>, Seq<char>, Seq<char>) {
    (d.metric@, d.left@, d.right@)
}

/// The metrics that compare two models without percentages: layers, hidden
/// size, heads, key/value heads, attention kind and parameters without the
/// output head, in that order.
pub open spec fn structural_diffs(l: ModelReport, r: ModelReport) -> Seq<(Seq<char>, Seq<char>, Seq<char>)> {
    seq![
        ("Layers"@, opt_u64_text(l.architecture.num_layers), opt_u64_text(r.architecture.num_layers)),
        ("Hidden size"@, opt_u64_text(l.architecture.hidden_size), opt_u64_text(r.architecture.hidden_size)),
        ("Heads"@, opt_u64_text(l.architecture.num_heads), opt_u64_text(r.architecture.num_heads)),
        ("KV heads"@, opt_u64_text(shown_kv_heads(l)), opt_u64_text(shown_kv_heads(r))),
        ("Attention"@, opt_string_text(shown_attention(l)), opt_string_text(shown_attention(r))),
        (
            "Params (excl head)"@,
            decimal(l.params.total_params as nat),
            decimal(r.params.total_params as nat),
        ),
    ]
}

/// `a` if present, else `b`.
pub(crate) fn or_u64(a: Option<u64>, b: Option<u64>) -> (r: Option<u64>)
    ensures
        r == first_some(a, b),
{
    match a {
        Some(v) => Some(v),
        None => b,
    }
}

fn shown_attention_exec(r: &ModelReport) -> (s: Option<String>)
    ensures
        opt_string_text(s) == opt_string_text(shown_attention(*r)),
{
    match &r.architecture.attention_type {
        Some(a) => Some(a.clone()),
        None => match &r.attention.attention_type {
            Some(a) => Some(a.clone()),
            None => None,
        },
    }
}

/// The metrics comparing two models that need no percentages.
pub fn comparison_diffs(left: &ModelReport, right: &ModelReport) -> (r: Vec<CompareMetricDiff>)
    ensures
        r@.map_values(|d: CompareMetricDiff| diff_view(d)) == structural_diffs(*left, *right),
{
    let mut diffs: Vec<CompareMetricDiff> = Vec::new();
    diffs.push(
        diff_metric(
            "Layers",
            opt_u64(left.architecture.num_layers),
            opt_u64(right.architecture.num_layers),
        ),
    );
    diffs.push(
        diff_metric(
            "Hidden size",
            opt_u64(left.architecture.hidden_size),
            opt_u64(right.architecture.hidden_size),
        ),
    );
    diffs.push(
        diff_metric("Heads", opt_u64(left.architecture.num_heads), opt_u64(right.architecture.num_heads)),
    );
    diffs.push(
        diff_metric(
            "KV heads",
            opt_u64(or_u64(left.architecture.num_key_value_heads, left.attention.kv_heads)),
            opt_u64(or_u64(right.architecture.num_key_value_heads, right.attention.kv_heads)),
        ),
    );
    diffs.push(
        diff_metric(
            "Attention",
            opt_string(shown_attention_exec(left)),
            opt_string(shown_attention_exec(right)),
        ),
    );
    diffs.push(
        diff_metric(
            "Params (excl head)",
            u64_to_string(left.params.total_params),
            u64_to_string(right.params.total_params),
        ),
    );
    assert(diffs@.map_values(|d: CompareMetricDiff| diff_view(d)) =~= structural_diffs(*left, *right));
    diffs
}

proof fn lemma_no_change_counted(diffs: Seq<CompareMetricDiff>)
    requires
        forall|i: int| 0 <= i < diffs.len() ==> (#[trigger] diffs[i]).left@ == diffs[i].right@,
    ensures
        changed_count(diffs) == 0,
    decreases diffs.len(),
{
    if diffs.len() > 0 {
        let pre = diffs.drop_last();
        assert forall|i: int| 0 <= i < pre.len() implies (#[trigger] pre[i]).left@ == pre[i].right@ by {
            assert(pre[i] == diffs[i]);
        }
        lemma_no_change_counted(pre);
        assert(diffs.last() == diffs[diffs.len() - 1]);
    }
}

/// A model compared with itself shows no changed metric: every row of the
/// comparison has equal sides.
pub proof fn self_comparison_changes_nothing(r: ModelReport, diffs: Seq<CompareMetricDiff>)
    requires
        diffs.map_values(|d: CompareMetricDiff| diff_view(d)) == structural_diffs(r, r),
    ensures
        changed_count(diffs) == 0,
{
    let views = diffs.map_values(|d: CompareMetricDiff| diff_view(d));
    let sd = structural_diffs(r, r);
    assert(views.len() == 6);
    assert forall|i: int| 0 <= i < diffs.len() implies (#[trigger] diffs[i]).left@ == diffs[i].right@ by {
        assert(views[i] == diff_view(diffs[i]));
        assert(views[i] == sd[i]);
        assert(sd[i].1 == sd[i].2) by {
            if i == 0 {
            } else if i == 1 {
            } else if i == 2 {
            } else if i == 3 {
            } else if i == 4 {
            } else {
                assert(i == 5);
            }
        }
    }
    lemma_no_change_counted(diffs);
}

// ---------------------------------------------------------------------------
// Tensors gathered from several headers
// ---------------------------------------------------------------------------
/// Whether some tensor of `ts` is named `name`.
pub open spec fn has_name(ts: Seq<TensorMetaRaw>, name: Seq<char>) -> bool {
    exists|j: int| 0 <= j < ts.len() && #[trigger] ts[j].name@ == name
}

/// The tensors of `ts` whose name did not occur before, in order (each name
/// keeps its first tensor).
pub open spec fn first_of_each_name(ts: Seq<TensorMetaRaw>) -> Seq<TensorMetaRaw>
    decreases ts.len(),
{
    if ts.len() == 0 {
        Seq::empty()
    } else {
        first_of_each_name(ts.drop_last()) + if has_name(ts.drop_last(), ts.last().name@) {
            Seq::empty()
        } else {
            seq![ts.last()]
        }
    }
}

/// Keeping the first tensor of each name leaves every name exactly once: no two
/// kept tensors share a name, every name of the input is kept, and every kept
/// tensor comes from the input.
pub proof fn first_of_each_name_keeps_each_name_once(ts: Seq<TensorMetaRaw>)
    ensures
        forall|i: int, j: int|
            0 <= i < j < first_of_each_name(ts).len() ==> (#[trigger] first_of_each_name(ts)[i]).name@
                != (#[trigger] first_of_each_name(ts)[j]).name@,
        forall|k: int| 0 <= k < ts.len() ==> has_name(first_of_each_name(ts), #[trigger] ts[k].name@),
        forall|i: int|
            0 <= i < first_of_each_name(ts).len() ==> ts.contains(#[trigger] first_of_each_name(ts)[i]),
    decreases ts.len(),
{
    if ts.len() > 0 {
        let pre = ts.drop_last();
        let last = ts.last();
        first_of_each_name_keeps_each_name_once(pre);
        let fp = first_of_each_name(pre);
        let f = first_of_each_name(ts);
        assert forall|i: int| 0 <= i < fp.len() implies ts.contains(#[trigger] fp[i]) by {
            let k = choose|k: int| 0 <= k < pre.len() && pre[k] == fp[i];
            assert(ts[k] == fp[i]);
        }
        if has_name(pre, last.name@) {
            assert(f =~= fp);
            assert forall|k: int| 0 <= k < ts.len() implies has_name(f, #[trigger] ts[k].name@) by {
                if k == ts.len() - 1 {
                    let j = choose|j: int| 0 <= j < pre.len() && #[trigger] pre[j].name@ == last.name@;
                    assert(pre[j] == ts[j]);
                } else {
                    assert(pre[k] == ts[k]);
                }
            }
        } else {
            assert(f =~= fp.push(last));
            assert forall|i: int| 0 <= i < fp.len() implies (#[trigger] fp[i]).name@ != last.name@ by {
                let k = choose|k: int| 0 <= k < pre.len() && pre[k] == fp[i];
                if fp[i].name@ == last.name@ {
                    assert(pre[k].name@ == last.name@);
                }
            }
            assert forall|i: int, j: int| 0 <= i < j < f.len() implies (#[trigger] f[i]).name@
                != (#[trigger] f[j]).name@ by {
                if j == f.len() - 1 {
                    assert(f[i] == fp[i]);
                    assert(f[j] == last);
                } else {
                    assert(f[i] == fp[i] && f[j] == fp[j]);
                }
            }
            assert forall|k: int| 0 <= k < ts.len() implies has_name(f, #[trigger] ts[k].name@) by {
                if k == ts.len() - 1 {
                    assert(f[f.len() - 1] == last);
                } else {
                    assert(pre[k] == ts[k]);
                    let j = choose|j: int| 0 <= j < fp.len() && #[trigger] fp[j].name@ == pre[k].name@;
                    assert(f[j] == fp[j]);
                }
            }
            assert forall|i: int| 0 <= i < f.len() implies ts.contains(#[trigger] f[i]) by {
                if i == f.len() - 1 {
                    assert(ts[ts.len() - 1] == last);
                } else {
                    assert(f[i] == fp[i]);
                }
            }
        }
    }
}

/// All tensors of a list of lists, in order.
pub open spec fn concat_tensors(lists: Seq<Vec<TensorMetaRaw>>) -> Seq<TensorMetaRaw>
    decreases lists.len(),
{
    if lists.len() == 0 {
        Seq::empty()
    } else {
        concat_tensors(lists.drop_last()) + lists.last()@
    }
}

/// Why a repository yields nothing to inspect.
#[derive(Debug, Clone, Copy, PartialEq, Eq, Structural)]
pub enum ResolveError {
    /// Neither a configuration nor any tensor metadata was found.
    NoMetadata,
}

/// Keeps the first tensor of each name, in order.
pub fn dedup_tensors_by_name(tensors: Vec<TensorMetaRaw>) -> (r: Vec<TensorMetaRaw>)
    ensures
        r@ == first_of_each_name(tensors@),
{
    let ghost all = tensors@;
    let mut rest = tensors;
    let mut out: Vec<TensorMetaRaw> = Vec::new();
    let mut names: Vec<String> = Vec::new();
    let mut i: usize = 0;
    let n0 = rest.len();
    assert(all.len() == n0);
    while rest.len() > 0
        invariant
            i + rest@.len() == all.len(),
            all.len() <= usize::MAX,
            rest@ == all.skip(i as int),
            out@ == first_of_each_name(all.take(i as int)),
            string_views(names@) == all.take(i as int).map_values(|t: TensorMetaRaw| t.name@),
        decreases rest@.len(),
    {
        let t = rest.remove(0);
        let ghost pre = all.take(i as int);
        proof {
            assert(t == all[i as int]);
            assert(all.take(i + 1).drop_last() =~= pre);
            assert(all.take(i + 1).last() == t);
        }
        let mut seen = false;
        let mut k: usize = 0;
        assert(string_views(names@).len() == names@.len());
        while k < names.len()
            invariant
                k <= names.len(),
                names@.len() == pre.len(),
                string_views(names@) == pre.map_values(|t: TensorMetaRaw| t.name@),
                seen == exists|j: int| 0 <= j < k && #[trigger] pre[j].name@ == t.name@,
            decreases names.len() - k,
        {
            proof {
                assert(string_views(names@)[k as int] == pre[k as int].name@);
            }
            if text_eq(names[k].as_str(), t.name.as_str()) {
                seen = true;
            }
            proof {
                if !seen {
                    assert forall|j: int| 0 <= j < k + 1 implies #[trigger] pre[j].name@ != t.name@ by {}
                }
            }
            k += 1;
        }
        assert(seen == has_name(pre, t.name@));
        let ghost before_names = names@;
        names.push(t.name.clone());
        proof {
            assert(string_views(names@) =~= string_views(before_names).push(t.name@));
            assert(all.take(i + 1).map_values(|t: TensorMetaRaw| t.name@) =~= pre.map_values(
                |t: TensorMetaRaw| t.name@,
            ).push(t.name@));
        }
        if !seen {
            out.push(t);
        }
        proof {
            assert(rest@ =~= all.skip(i + 1));
        }
        i += 1;
    }
    assert(all.take(i as int) =~= all);
    out
}

/// Puts together the tensors of several headers: refused when there are none
/// and no configuration either; otherwise the first tensor of each name, in
/// order.
pub fn merge_header_tensors(lists: Vec<Vec<TensorMetaRaw>>, has_config: bool) -> (r: Result<
    Vec<TensorMetaRaw>,
    ResolveError,
>)
    ensures
        r is Err <==> concat_tensors(lists@).len() == 0 && !has_config,
        r matches Ok(ts) ==> ts@ == first_of_each_name(concat_tensors(lists@)),
{
    let ghost all = lists@;
    let mut rest = lists;
    let mut tensors: Vec<TensorMetaRaw> = Vec::new();
    let mut i: usize = 0;
    let n0 = rest.len();
    assert(all.len() == n0);
    while rest.len() > 0
        invariant
            i + rest@.len() == all.len(),
            all.len() <= usize::MAX,
            rest@ == all.skip(i as int),
            tensors@ == concat_tensors(all.take(i as int)),
        decreases rest@.len(),
    {
        let mut list = rest.remove(0);
        proof {
            assert(list == all[i as int]);
            assert(all.take(i + 1).drop_last() =~= all.take(i as int));
            assert(all.take(i + 1).last() == list);
        }
        let ghost before = tensors@;
        tensors.append(&mut list);
        proof {
            assert(rest@ =~= all.skip(i + 1));
        }
        i += 1;
    }
    assert(all.take(i as int) =~= all);
    if tensors.len() == 0 && !has_config {
        return Err(ResolveError::NoMetadata);
    }
    Ok(dedup_tensors_by_name(tensors))
}

// ---------------------------------------------------------------------------
// Local files
// ---------------------------------------------------------------------------
/// What a local file is for the fast inspection.
#[derive(Debug, Clone, Copy, PartialEq, Eq, Structural)]
pub enum LocalFileKind {
    /// A safetensors file, whose header is read.
    Safetensors,
    /// A `config.json`.
    Config,
    /// A file with another extension, not readable in fast mode.
    Unsupported,
    /// A file without a (text) extension, which is skipped.
    Skipped,
}

/// The kind of a local file from its extension and name.
pub open spec fn local_file_kind_of(ext: Option<Seq<char>>, file_name: Option<Seq<char>>) -> LocalFileKind {
    match ext {
        None => LocalFileKind::Skipped,
        Some(e) => if ascii_lower(e) == "safetensors"@ {
            LocalFileKind::Safetensors
        } else if ascii_lower(e) == "json"@ && file_name == Some("config.json"@) {
            LocalFileKind::Config
        } else {
            LocalFileKind::Unsupported
        },
    }
}

fn lower_equals(text: &str, lower: &str) -> (r: bool)
    ensures
        r == (ascii_lower(text@) == lower@),
{
    let t = crate::text::to_ascii_lowercase(text);
    text_eq(t.as_str(), lower)
}

/// The kind of a local file from its extension and name.
pub fn local_file_kind(ext: Option<&str>, file_name: Option<&str>) -> (r: LocalFileKind)
    ensures
        r == local_file_kind_of(crate::types::opt_str_view(ext), crate::types::opt_str_view(file_name)),
{
    match ext {
        None => LocalFileKind::Skipped,
        Some(e) => if lower_equals(e, "safetensors") {
            LocalFileKind::Safetensors
        } else if lower_equals(e, "json") && match file_name {
            Some(n) => text_eq(n, "config.json"),
            None => false,
        } {
            LocalFileKind::Config
        } else {
            LocalFileKind::Unsupported
        },
    }
}

/// Checkpoint formats that only the deep inspection can read.
pub open spec fn unsupported_checkpoint_ext(ext: Seq<char>) -> bool {
    let e = ascii_lower(ext);
    e == "bin"@ || e == "pt"@ || e == "ckpt"@ || e == "h5"@ || e == "pb"@
}

/// Whether a file extension names a checkpoint format that only the deep
/// inspection can read (compared without regard to ASCII case).
pub fn is_unsupported_checkpoint_ext(ext: &str) -> (r: bool)
    ensures
        r == unsupported_checkpoint_ext(ext@),
{
    lower_equals(ext, "bin") || lower_equals(ext, "pt") || lower_equals(ext, "ckpt") || lower_equals(
        ext,
        "h5",
    ) || lower_equals(ext, "pb")
}

/// The sum of a list of sizes.
pub open spec fn sum_sizes(sizes: Seq<u64>) -> nat
    decreases sizes.len(),
{
    if sizes.len() == 0 {
        0
    } else {
        sum_sizes(sizes.drop_last()) + sizes.last() as nat
    }
}

/// The total size of the safetensors files of a directory: the saturating sum
/// of their sizes, or nothing when there is no such file.
pub fn directory_model_size(sizes: &Vec<u64>) -> (r: Option<u64>)
    ensures
        sizes@.len() == 0 <==> r is None,
        r matches Some(v) ==> v == crate::analyzer::param_counter::saturate(sum_sizes(sizes@)),
{
    if sizes.len() == 0 {
        return None;
    }
    let mut total: u64 = 0;
    let mut i: usize = 0;
    while i < sizes.len()
        invariant
            i <= sizes.len(),
            total == crate::analyzer::param_counter::saturate(sum_sizes(sizes@.take(i as int))),
        decreases sizes.len() - i,
    {
        proof {
            assert(sizes@.take(i + 1).drop_last() =~= sizes@.take(i as int));
        }
        total = total.saturating_add(sizes[i]);
        i += 1;
    }
    assert(sizes@.take(sizes.len() as int) =~= sizes@);
    Some(total)
}

/// The warning about checkpoint files of a directory that fast mode cannot read,
/// when there are any.
pub open spec fn unreadable_files_warning(files: Seq<Seq<char>>) -> Option<Seq<char>> {
    if files.len() == 0 {
        None
    } else {
        Some(
            "Found checkpoint files not inspectable in fast mode: "@ + join(files, ", "@)
                + ". Use --deep."@,
        )
    }
}

/// The warning about checkpoint files of a directory that fast mode cannot read.
pub fn unsupported_files_warning(files: &Vec<String>) -> (r: Option<String>)
    ensures
        match r {
            Some(w) => unreadable_files_warning(string_views(files@)) == Some(w@),
            None => unreadable_files_warning(string_views(files@)) is None,
        },
{
    if files.len() == 0 {
        return None;
    }
    let joined = join_strings(files, ", ");
    Some(concat3("Found checkpoint files not inspectable in fast mode: ", joined.as_str(), ". Use --deep."))
}

// ---------------------------------------------------------------------------
// Choices made from the command line
// ---------------------------------------------------------------------------
/// The model an inspection is about: the positional model, else the checkpoint.
pub fn inspect_target(cli: &Cli) -> (r: Option<String>)
    ensures
        opt_view(r) == first_some(opt_view(cli.model), opt_view(cli.checkpoint)),
{
    match &cli.model {
        Some(m) => Some(m.clone()),
        None => match &cli.checkpoint {
            Some(c) => Some(c.clone()),
            None => None,
        },
    }
}

/// The inspection options that the command line selects.
pub fn inspect_options(cli: &Cli) -> (r: InspectOptions)
    ensures
        r.show_params == cli.params,
        r.show_graph == cli.graph,
        r.show_attention_breakdown == cli.attention_breakdown,
        r.deep == cli.deep,
        r.json == cli.json,
        opt_view(r.checkpoint) == opt_view(cli.checkpoint),
{
    InspectOptions {
        show_params: cli.params,
        show_graph: cli.graph,
        show_attention_breakdown: cli.attention_breakdown,
        deep: cli.deep,
        json: cli.json,
        checkpoint: match &cli.checkpoint {
            Some(c) => Some(c.clone()),
            None => None,
        },
    }
}

/// The options of each side of a comparison: only `deep` and `json` carry over.
pub fn side_options(options: &CompareOptions) -> (r: InspectOptions)
    ensures
        r.deep == options.deep,
        r.json == options.json,
        !r.show_params && !r.show_graph && !r.show_attention_breakdown,
        r.checkpoint is None,
{
    InspectOptions {
        show_params: false,
        show_graph: false,
        show_attention_breakdown: false,
        deep: options.deep,
        json: options.json,
        checkpoint: None,
    }
}

/// How a report is written out.
#[derive(Debug, Clone, Copy, PartialEq, Eq, Structural)]
pub enum OutputMode {
    /// Machine-readable JSON.
    Json,
    /// The interactive terminal view.
    Tui,
    /// Text, after warning that the interactive view needs a terminal.
    TextFallback,
    /// Text.
    Text,
}

/// The output mode: JSON when asked for; else the interactive view when asked
/// for and standard output is a terminal, text with a warning when it is not;
/// else text.
pub fn output_mode(json: bool, tui: bool, stdout_is_terminal: bool) -> (r: OutputMode)
    ensures
        json ==> r == OutputMode::Json,
        !json && tui && stdout_is_terminal ==> r == OutputMode::Tui,
        !json && tui && !stdout_is_terminal ==> r == OutputMode::TextFallback,
        !json && !tui ==> r == OutputMode::Text,
{
    if json {
        OutputMode::Json
    } else if tui {
        if stdout_is_terminal {
            OutputMode::Tui
        } else {
            OutputMode::TextFallback
        }
    } else {
        OutputMode::Text
    }
}

/// A progress message as shown: its trailing dots replaced by an ellipsis of
/// three dots.
pub fn stage_text(message: &str) -> (r: String)
    ensures
        r@ == trimmed_end(message@, '.') + "..."@,
{
    let mut r = trim_end_char(message, '.');
    r.append("...");
    r
}

} // verus!
