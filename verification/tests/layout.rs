use dissectlm::analyzer::safetensor::TensorMetaRaw;
use dissectlm::cli::commands::{
    build_model_report, comparison_diffs, stage_text, InspectOptions, ResolvedInput,
};
use dissectlm::json::{JsonNumber, JsonValue};
use dissectlm::report::layout::{
    architecture_rows, change_between, compare_table_lines, compare_widths, diff_positions,
    distribution_widths, dtypes_label, kv_key_width, kv_lines, labelled_warnings, models_rows,
    model_sections, pad_right, render_layout, side_architecture_rows, top_tensor_listing,
    top_tensor_widths, Change, ModelSection,
};
use dissectlm::report::formatter::RenderOptions;
use dissectlm::types::{CompareMetricDiff, CompareReport, ModelReport, ModelSource, ModelSourceKind};

fn pairs(v: Vec<(&str, &str)>) -> Vec<(String, String)> {
    v.into_iter()
        .map(|(a, b)| (a.to_string(), b.to_string()))
        .collect()
}

fn diff(metric: &str, left: &str, right: &str) -> CompareMetricDiff {
    CompareMetricDiff {
        metric: metric.to_string(),
        left: left.to_string(),
        right: right.to_string(),
    }
}

fn report(name: &str, with_model: bool) -> ModelReport {
    let config = JsonValue::Object(vec![
        ("model_type".to_string(), JsonValue::Str("llama".to_string())),
        ("hidden_size".to_string(), JsonValue::Number(JsonNumber::PosInt(8))),
        (
            "num_attention_heads".to_string(),
            JsonValue::Number(JsonNumber::PosInt(4)),
        ),
        (
            "num_hidden_layers".to_string(),
            JsonValue::Number(JsonNumber::PosInt(2)),
        ),
    ]);
    let tensors = vec![
        TensorMetaRaw {
            name: "model.layers.0.self_attn.q_proj.weight".to_string(),
            shape: vec![8, 8],
            dtype: "F32".to_string(),
            data_offsets: (0, 0),
        },
        TensorMetaRaw {
            name: "model.layers.0.self_attn.k_proj.weight".to_string(),
            shape: vec![4, 8],
            dtype: "F32".to_string(),
            data_offsets: (0, 0),
        },
    ];
    let resolved = ResolvedInput {
        source: ModelSource {
            kind: ModelSourceKind::LocalPath,
            location: name.to_string(),
        },
        config: if with_model { Some(config) } else { None },
        tensors: if with_model { tensors } else { Vec::new() },
        tensor_files_found: 1,
        model_size_bytes: None,
        warnings: vec!["earlier".to_string()],
    };
    build_model_report(name, resolved, &InspectOptions::default(), None)
}

#[test]
fn layouts_follow_the_terminal() {
    let wide = render_layout(Some(200));
    assert_eq!((wide.panel_width, wide.inner_width, wide.bar_width), (196, 192, 40));
    let default = render_layout(None);
    assert_eq!(
        (default.panel_width, default.inner_width, default.bar_width),
        (96, 92, 26)
    );
    let narrow = render_layout(Some(20));
    assert_eq!(
        (narrow.panel_width, narrow.inner_width, narrow.bar_width),
        (40, 36, 10)
    );
    let huge = render_layout(Some(usize::MAX));
    assert_eq!(huge.bar_width, 40);
}

#[test]
fn column_widths() {
    assert_eq!(kv_key_width(92), 24);
    assert_eq!(kv_key_width(36), 12);
    assert_eq!(kv_key_width(60), 17);
    assert_eq!(distribution_widths(92, 26), (14, 26));
    assert_eq!(distribution_widths(36, 10), (9, 4));
    assert_eq!(top_tensor_widths(92), (14, 72));
    assert_eq!(top_tensor_widths(20), (8, 8));
    assert_eq!(compare_widths(92), (26, 30, 30));
    assert_eq!(compare_widths(36), (12, 9, 9));
    assert_eq!(compare_widths(10), (0, 2, 2));
    assert_eq!(compare_widths(79), (25, 24, 24));
}

#[test]
fn key_value_lines_pad_keys() {
    assert_eq!(pad_right("ab", 4), "ab  ");
    assert_eq!(pad_right("abcdef", 3), "abcdef");
    let lines = kv_lines(&pairs(vec![("a", "1"), ("longer key here!", "v")]), 36);
    assert_eq!(
        lines,
        vec![format!("{:<12} {}", "a", "1"), "longer key here! v".to_string()]
    );
}

#[test]
fn comparison_table_is_cut_to_columns() {
    let diffs = vec![diff("Params (excl head)", "123456789012", "9"), diff("Heads", "8", "8")];
    let lines = compare_table_lines(&diffs, 36);
    assert_eq!(
        lines,
        vec![
            format!("{:<3} {:<12} {:<9} {:<9}", " ", "Metric", "Left", "Right"),
            "─".repeat(36),
            format!("{:<3} {:<12} {:<9} {:<9}", "≠", "Params (exc…", "12345678…", "9"),
            format!("{:<3} {:<12} {:<9} {:<9}", "=", "Heads", "8", "8"),
        ]
    );
    for width in [28, 36, 50, 92] {
        for line in compare_table_lines(&diffs, width) {
            assert_eq!(line.chars().count(), width);
        }
    }
}

#[test]
fn architecture_rows_of_a_report() {
    let r = report("tiny", true);
    assert_eq!(
        architecture_rows(&r),
        pairs(vec![
            ("Layers", "2"),
            ("Hidden size", "8"),
            ("Heads", "4"),
            ("KV heads", "2"),
            ("Attention type", "GQA"),
            ("cfg.hidden_size", "8"),
            ("cfg.model_type", "llama"),
            ("cfg.num_attention_heads", "4"),
            ("cfg.num_hidden_layers", "2"),
        ])
    );
    assert_eq!(
        side_architecture_rows(&r),
        pairs(vec![
            ("Model type", "llama"),
            ("Layers", "2"),
            ("Hidden size", "8"),
            ("Heads", "4"),
            ("KV heads", "2"),
            ("Attention", "GQA"),
        ])
    );
    let empty = report("empty", false);
    assert_eq!(
        architecture_rows(&empty),
        pairs(vec![
            ("Layers", "-"),
            ("Hidden size", "-"),
            ("Heads", "-"),
            ("KV heads", "-"),
            ("Attention type", "-"),
        ])
    );
}

#[test]
fn comparison_summaries() {
    let left = report("a", true);
    let right = report("b", false);
    let diffs = comparison_diffs(&left, &right);
    let compare = CompareReport { left, right, diffs };
    assert_eq!(
        models_rows(&compare),
        pairs(vec![("Left", "a"), ("Right", "b"), ("Metrics changed", "6 / 6")])
    );
    assert_eq!(
        labelled_warnings(&compare),
        vec![
            "[Left] earlier".to_string(),
            "[Right] earlier".to_string(),
            "[Right] No safetensors metadata found. Fast mode is metadata-only; try --deep for raw checkpoint inspection."
                .to_string(),
        ]
    );
    let mixed = vec![diff("x", "1", "2"), diff("y", "3", "3"), diff("z", "4", "5")];
    assert_eq!(diff_positions(&mixed, true), vec![0, 2]);
    assert_eq!(diff_positions(&mixed, false), vec![1]);
}

#[test]
fn deltas_and_labels() {
    assert_eq!(change_between(5, 9), Change::Up(4));
    assert_eq!(change_between(9, 5), Change::Down(4));
    assert_eq!(change_between(3, 3), Change::Same);
    assert_eq!(change_between(0, u64::MAX), Change::Up(u64::MAX));
    assert_eq!(dtypes_label(&Vec::new()), "-");
    assert_eq!(
        dtypes_label(&vec!["BF16".to_string(), "F32".to_string()]),
        "BF16, F32"
    );
    assert_eq!(stage_text("Loading config.json"), "Loading config.json...");
    assert_eq!(stage_text("Done.."), "Done...");
    assert_eq!(stage_text(""), "...");
}

#[test]
fn model_sections_follow_the_options() {
    let r = report("tiny", true);
    assert_eq!(
        model_sections(&RenderOptions::default(), &r),
        vec![
            ModelSection::Summary,
            ModelSection::Distribution,
            ModelSection::Architecture,
            ModelSection::Warnings,
        ]
    );
    let all = RenderOptions {
        show_params: true,
        show_graph: true,
        show_attention_breakdown: true,
    };
    assert_eq!(
        model_sections(&all, &r),
        vec![
            ModelSection::Summary,
            ModelSection::Distribution,
            ModelSection::Architecture,
            ModelSection::AttentionBreakdown,
            ModelSection::Graph,
            ModelSection::TopTensors,
            ModelSection::Warnings,
        ]
    );
    assert!(top_tensor_listing(&r).is_none());
}
