use dissectlm::analyzer::safetensor::TensorMetaRaw;
use dissectlm::cli::args::Cli;
use dissectlm::cli::commands::{
    build_model_report, checkpoint_report, comparison_diffs, dedup_tensors_by_name, diff_metric,
    directory_model_size, inspect_options, inspect_target, is_unsupported_checkpoint_ext,
    local_file_kind, merge_header_tensors, output_mode, side_options, unsupported_files_warning,
    CompareOptions, InspectOptions, LocalFileKind, OutputMode, ResolveError, ResolvedInput,
};
use dissectlm::json::{JsonNumber, JsonValue};
use dissectlm::python_bridge::runner::inspector_args;
use dissectlm::types::{ModelSource, ModelSourceKind};

fn raw(name: &str, shape: &[u64], dtype: &str) -> TensorMetaRaw {
    TensorMetaRaw {
        name: name.to_string(),
        shape: shape.to_vec(),
        dtype: dtype.to_string(),
        data_offsets: (0, 0),
    }
}

fn cli(model: Option<&str>, checkpoint: Option<&str>) -> Cli {
    Cli {
        json: false,
        tui: false,
        command: None,
        model: model.map(|s| s.to_string()),
        checkpoint: checkpoint.map(|s| s.to_string()),
        params: true,
        graph: false,
        attention_breakdown: true,
        deep: checkpoint.is_some(),
    }
}

fn resolved(tensors: Vec<TensorMetaRaw>, config: Option<JsonValue>) -> ResolvedInput {
    ResolvedInput {
        source: ModelSource {
            kind: ModelSourceKind::LocalPath,
            location: "/models/tiny".to_string(),
        },
        config,
        tensors,
        tensor_files_found: 1,
        model_size_bytes: Some(1024),
        warnings: vec!["earlier".to_string()],
    }
}

fn llama_config() -> JsonValue {
    JsonValue::Object(vec![
        ("model_type".to_string(), JsonValue::Str("llama".to_string())),
        (
            "hidden_size".to_string(),
            JsonValue::Number(JsonNumber::PosInt(8)),
        ),
        (
            "num_attention_heads".to_string(),
            JsonValue::Number(JsonNumber::PosInt(4)),
        ),
        (
            "num_hidden_layers".to_string(),
            JsonValue::Number(JsonNumber::PosInt(2)),
        ),
    ])
}

fn tiny_tensors() -> Vec<TensorMetaRaw> {
    vec![
        raw("model.layers.0.self_attn.q_proj.weight", &[8, 8], "F32"),
        raw("model.layers.0.self_attn.k_proj.weight", &[4, 8], "BF16"),
        raw("lm_head.weight", &[16, 8], "F32"),
    ]
}

#[test]
fn model_report_from_resolved_input() {
    let options = InspectOptions {
        show_params: true,
        show_graph: true,
        ..InspectOptions::default()
    };
    let report = build_model_report("tiny", resolved(tiny_tensors(), Some(llama_config())), &options, None);
    assert_eq!(report.model, "tiny");
    assert_eq!(report.config_key_count, 4);
    assert_eq!(report.architecture.model_type.as_deref(), Some("llama"));
    assert_eq!(report.architecture.num_layers, Some(2));
    assert_eq!(report.architecture.attention_type.as_deref(), Some("GQA"));
    assert_eq!(report.attention.kv_heads, Some(2));
    assert_eq!(report.params.total_params_all, 64 + 32 + 128);
    assert_eq!(report.params.total_params, 64 + 32);
    assert_eq!(report.tensor_dtypes, vec!["BF16".to_string(), "F32".to_string()]);
    assert_eq!(report.tensor_count, 3);
    assert_eq!(report.tensors.as_ref().map(|t| t.len()), Some(3));
    assert!(report.graph.as_deref().unwrap_or("").contains("x 2"));
    assert_eq!(report.warnings, vec!["earlier".to_string()]);
    assert_eq!(report.model_size_bytes, Some(1024));
    assert!(report.deep.is_none());
}

#[test]
fn model_report_without_tensors_warns() {
    let report = build_model_report("empty", resolved(Vec::new(), None), &InspectOptions::default(), None);
    assert_eq!(report.tensor_count, 0);
    assert!(report.tensors.is_none());
    assert!(report.graph.is_none());
    assert_eq!(report.config_key_count, 0);
    assert_eq!(report.architecture.hidden_size, None);
    assert_eq!(report.warnings.len(), 2);
    assert_eq!(
        report.warnings[1],
        "No safetensors metadata found. Fast mode is metadata-only; try --deep for raw checkpoint inspection."
    );
}

#[test]
fn comparison_rows_without_percentages() {
    let left = build_model_report("a", resolved(tiny_tensors(), Some(llama_config())), &InspectOptions::default(), None);
    let right = build_model_report("b", resolved(Vec::new(), None), &InspectOptions::default(), None);
    let diffs = comparison_diffs(&left, &right);
    let rows: Vec<(String, String, String)> = diffs
        .into_iter()
        .map(|d| (d.metric, d.left, d.right))
        .collect();
    let expected: Vec<(String, String, String)> = vec![
        ("Layers", "2", "-"),
        ("Hidden size", "8", "-"),
        ("Heads", "4", "-"),
        ("KV heads", "2", "-"),
        ("Attention", "GQA", "-"),
        ("Params (excl head)", "96", "0"),
    ]
    .into_iter()
    .map(|(a, b, c)| (a.to_string(), b.to_string(), c.to_string()))
    .collect();
    assert_eq!(rows, expected);
    let d = diff_metric("X", "1".to_string(), "2".to_string());
    assert_eq!((d.metric.as_str(), d.left.as_str(), d.right.as_str()), ("X", "1", "2"));
}

#[test]
fn shards_are_merged_by_first_name() {
    let merged = merge_header_tensors(
        vec![
            vec![raw("a", &[1], "F32"), raw("b", &[2], "F32")],
            vec![raw("a", &[3], "F16"), raw("c", &[4], "F32")],
        ],
        false,
    )
    .expect("tensors present");
    let names: Vec<&str> = merged.iter().map(|t| t.name.as_str()).collect();
    assert_eq!(names, vec!["a", "b", "c"]);
    assert_eq!(merged[0].shape, vec![1]);
    assert!(matches!(
        merge_header_tensors(vec![Vec::new()], false),
        Err(ResolveError::NoMetadata)
    ));
    assert_eq!(merge_header_tensors(Vec::new(), true).map(|v| v.len()).ok(), Some(0));
    let deduped = dedup_tensors_by_name(vec![raw("x", &[1], "F32"), raw("x", &[2], "F32")]);
    assert_eq!(deduped.len(), 1);
    assert_eq!(deduped[0].shape, vec![1]);
}

#[test]
fn local_files_are_sorted_by_kind() {
    assert_eq!(
        local_file_kind(Some("SafeTensors"), Some("m.SafeTensors")),
        LocalFileKind::Safetensors
    );
    assert_eq!(
        local_file_kind(Some("json"), Some("config.json")),
        LocalFileKind::Config
    );
    assert_eq!(
        local_file_kind(Some("json"), Some("tokenizer.json")),
        LocalFileKind::Unsupported
    );
    assert_eq!(local_file_kind(None, Some("README")), LocalFileKind::Skipped);
    assert!(is_unsupported_checkpoint_ext("BIN"));
    assert!(is_unsupported_checkpoint_ext("ckpt"));
    assert!(!is_unsupported_checkpoint_ext("txt"));
    assert_eq!(directory_model_size(&vec![3, 4]), Some(7));
    assert_eq!(directory_model_size(&vec![u64::MAX, 4]), Some(u64::MAX));
    assert_eq!(directory_model_size(&Vec::new()), None);
    assert_eq!(
        unsupported_files_warning(&vec!["a.bin".to_string(), "b.pt".to_string()]),
        Some("Found checkpoint files not inspectable in fast mode: a.bin, b.pt. Use --deep.".to_string())
    );
    assert_eq!(unsupported_files_warning(&Vec::new()), None);
}

#[test]
fn command_line_choices() {
    assert_eq!(inspect_target(&cli(Some("gpt2"), None)), Some("gpt2".to_string()));
    assert_eq!(
        inspect_target(&cli(None, Some("/tmp/model.ckpt"))),
        Some("/tmp/model.ckpt".to_string())
    );
    assert_eq!(inspect_target(&cli(None, None)), None);
    let opts = inspect_options(&cli(None, Some("/tmp/model.ckpt")));
    assert!(opts.show_params && !opts.show_graph && opts.show_attention_breakdown && opts.deep);
    assert_eq!(opts.checkpoint.as_deref(), Some("/tmp/model.ckpt"));
    let side = side_options(&CompareOptions { deep: true, json: true });
    assert!(side.deep && side.json && !side.show_params && side.checkpoint.is_none());
}

#[test]
fn output_modes() {
    assert_eq!(output_mode(true, true, true), OutputMode::Json);
    assert_eq!(output_mode(false, true, true), OutputMode::Tui);
    assert_eq!(output_mode(false, true, false), OutputMode::TextFallback);
    assert_eq!(output_mode(false, false, true), OutputMode::Text);
}

#[test]
fn inspector_command_line() {
    assert_eq!(
        inspector_args("gpt2", None),
        vec!["run", "--project", "python", "python", "-m", "dissectlm.inspector", "--model", "gpt2"]
    );
    assert_eq!(
        inspector_args("gpt2", Some("/tmp/m.ckpt")),
        vec![
            "run",
            "--project",
            "python",
            "python",
            "-m",
            "dissectlm.inspector",
            "--checkpoint",
            "/tmp/m.ckpt"
        ]
    );
}

#[test]
fn checkpoint_reports_hold_only_the_deep_result() {
    let deep = JsonValue::Object(vec![(
        "num_tensors".to_string(),
        JsonValue::Number(JsonNumber::PosInt(3)),
    )]);
    let report = checkpoint_report("/tmp/model.ckpt", "/tmp/model.ckpt", deep);
    assert_eq!(report.model, "/tmp/model.ckpt");
    assert_eq!(report.source.kind, ModelSourceKind::LocalPath);
    assert_eq!(report.source.location, "/tmp/model.ckpt");
    assert!(report.config.is_none());
    assert_eq!(report.tensor_count, 0);
    assert_eq!(report.params.total_params, 0);
    assert!(report.architecture.num_layers.is_none());
    assert!(report.warnings.is_empty());
    assert!(matches!(
        report.deep,
        Some(JsonValue::Object(ref members)) if members.len() == 1
    ));
}

#[test]
fn a_model_compared_with_itself_changes_nothing() {
    let r = build_model_report("a", resolved(tiny_tensors(), Some(llama_config())), &InspectOptions::default(), None);
    let diffs = comparison_diffs(&r, &r);
    assert_eq!(dissectlm::report::formatter::count_changed(&diffs), 0);
    assert!(diffs.iter().all(|d| d.left == d.right));
}

#[test]
fn deep_inspection_progress_messages() {
    assert_eq!(
        dissectlm::python_bridge::runner::loading_message(true),
        "Running deep inspection: loading checkpoint in Python..."
    );
    assert_eq!(
        dissectlm::python_bridge::runner::loading_message(false),
        "Running deep inspection: loading model in Python..."
    );
    assert_eq!(
        dissectlm::python_bridge::runner::analyzing_message(42),
        "Running deep inspection: analyzing weights... 42s elapsed"
    );
}
