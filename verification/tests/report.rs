use dissectlm::json::{JsonNumber, JsonValue};
use dissectlm::report::config_fields::flatten_config_fields;
use dissectlm::report::formatter::{
    change_marker, compute_panel_width, count_changed, opt_u64, panel_body, source_kind_label,
    split_word, truncate, wrap_line,
};
use dissectlm::report::ranking::top_tensor_indices;
use dissectlm::report::tui::{
    bordered_segments, component_segments, graph_line_kind, handle_key, is_border_char,
    is_pure_border, split_trailing_border, GraphLineKind, NavKey, Segment, SegmentRole, TabCursor,
};
use dissectlm::types::{CompareMetricDiff, LayerCategory, ModelSourceKind, TensorMeta};

fn meta(name: &str, param_count: u64) -> TensorMeta {
    TensorMeta {
        name: name.to_string(),
        shape: vec![param_count],
        dtype: "F32".to_string(),
        data_offsets: (0, 0),
        param_count,
        category: LayerCategory::Other,
    }
}

fn seg_view(segs: &[Segment]) -> Vec<(String, SegmentRole)> {
    segs.iter().map(|s| (s.text.clone(), s.role)).collect()
}

#[test]
fn panel_width_uses_full_terminal() {
    assert_eq!(compute_panel_width(Some(200)), 196);
    assert_eq!(compute_panel_width(Some(80)), 76);
    assert_eq!(compute_panel_width(Some(20)), 40);
    assert_eq!(compute_panel_width(None), 96);
}

#[test]
fn wrap_line_splits_long_words() {
    let wrapped = wrap_line("aaaaaaaaaaaa", 5);
    assert_eq!(wrapped, vec!["aaaaa", "aaaaa", "aa"]);
}

#[test]
fn split_word_handles_exact_chunks() {
    let chunks = split_word("abcdef", 3);
    assert_eq!(chunks, vec!["abc", "def"]);
}

#[test]
fn truncate_uses_ellipsis() {
    assert_eq!(truncate("hello", 10), "hello");
    assert_eq!(truncate("hello world", 6), "hello…");
}

#[test]
fn truncate_edge_cases() {
    assert_eq!(truncate("hello", 0), "");
    assert_eq!(truncate("hello", 5), "hello");
    assert_eq!(truncate("hello", 1), "…");
    assert_eq!(
        dissectlm::report::tui::truncate("hello world", 6),
        "hello…"
    );
}

#[test]
fn wrap_line_packs_words() {
    assert_eq!(
        wrap_line("the quick brown fox", 10),
        vec!["the quick", "brown fox"]
    );
    assert_eq!(wrap_line("short", 10), vec!["short"]);
    assert_eq!(wrap_line("anything", 0), vec![""]);
    assert_eq!(wrap_line("ab abcdefgh c", 4), vec!["ab", "abcd", "efgh", "c"]);
    assert_eq!(wrap_line("            ", 4), vec!["    ", "    ", "    "]);
    for line in wrap_line("a fairly long sentence with several words in it", 7) {
        assert!(line.chars().count() <= 7);
    }
}

#[test]
fn split_word_rejoins() {
    let word = "αβγδεζη";
    let chunks = split_word(word, 3);
    assert_eq!(chunks, vec!["αβγ", "δεζ", "η"]);
    assert_eq!(chunks.concat(), word);
    assert_eq!(split_word("abc", 0), vec![""]);
    assert!(split_word("", 3).is_empty());
}

#[test]
fn panel_rows_are_padded() {
    let lines = vec!["abc".to_string(), "one two three".to_string()];
    let rows = panel_body(&lines, 8);
    assert_eq!(rows, vec!["abc     ", "one two ", "three   "]);
    for row in &rows {
        assert_eq!(row.chars().count(), 8);
    }
}

#[test]
fn small_labels() {
    assert_eq!(opt_u64(Some(42)), "42");
    assert_eq!(opt_u64(None), "-");
    assert_eq!(source_kind_label(&ModelSourceKind::LocalPath), "local_path");
    assert_eq!(source_kind_label(&ModelSourceKind::HuggingFace), "hugging_face");
}

#[test]
fn compare_markers() {
    let diffs = vec![
        CompareMetricDiff {
            metric: "layers".to_string(),
            left: "12".to_string(),
            right: "24".to_string(),
        },
        CompareMetricDiff {
            metric: "heads".to_string(),
            left: "8".to_string(),
            right: "8".to_string(),
        },
    ];
    assert_eq!(count_changed(&diffs), 1);
    assert_eq!(change_marker(&diffs[0]), "≠");
    assert_eq!(change_marker(&diffs[1]), "=");
}

#[test]
fn top_tensors_are_largest_first_and_stable() {
    let tensors = vec![
        meta("a", 10),
        meta("b", 30),
        meta("c", 10),
        meta("d", 20),
        meta("e", 30),
    ];
    assert_eq!(top_tensor_indices(&tensors, 20), vec![1, 4, 3, 0, 2]);
    assert_eq!(top_tensor_indices(&tensors, 3), vec![1, 4, 3]);
    assert!(top_tensor_indices(&tensors, 0).is_empty());
    assert!(top_tensor_indices(&Vec::new(), 5).is_empty());
}

#[test]
fn tab_cursor_wraps_and_undoes() {
    let mut cursor = TabCursor::new(3);
    cursor.scroll_down(5);
    assert_eq!(cursor.scroll, 5);
    cursor.next_tab();
    assert_eq!(cursor.active, 1);
    assert_eq!(cursor.scroll, 0);
    cursor.prev_tab();
    assert_eq!(cursor.active, 0);
    cursor.prev_tab();
    assert_eq!(cursor.active, 2);
    cursor.next_tab();
    assert_eq!(cursor.active, 0);
    cursor.scroll_up(3);
    assert_eq!(cursor.scroll, 0);
    cursor.scroll_down(u16::MAX);
    cursor.scroll_down(1);
    assert_eq!(cursor.scroll, u16::MAX);
    let mut empty = TabCursor::new(0);
    empty.next_tab();
    assert_eq!(empty.active, 0);
}

#[test]
fn graph_lines_are_classified() {
    assert_eq!(graph_line_kind("          ▼  "), GraphLineKind::Arrow);
    assert_eq!(graph_line_kind("╭──────╮"), GraphLineKind::Border);
    assert_eq!(graph_line_kind("┊ │ ○ RMSNorm │ ┊"), GraphLineKind::Component);
    assert_eq!(graph_line_kind("┊ │ title │ ┊"), GraphLineKind::RepeatedContent);
    assert_eq!(graph_line_kind("│  Final RMSNorm  │"), GraphLineKind::Title);
    assert_eq!(graph_line_kind("plain"), GraphLineKind::Plain);
    assert!(is_border_char('┊'));
    assert!(!is_border_char(' '));
    assert!(is_pure_border("╰─ ─╯"));
    assert!(!is_pure_border("│ x │"));
}

#[test]
fn boxed_rows_split_into_runs() {
    let segs = bordered_segments("│ Title │", false);
    assert_eq!(
        seg_view(&segs),
        vec![
            ("│".to_string(), SegmentRole::Border),
            (" Title ".to_string(), SegmentRole::Title),
            ("│".to_string(), SegmentRole::Border),
        ]
    );
    let segs = bordered_segments("┊ │ x", true);
    assert_eq!(
        seg_view(&segs),
        vec![
            ("┊".to_string(), SegmentRole::Repeat),
            (" ".to_string(), SegmentRole::Title),
            ("│".to_string(), SegmentRole::Border),
            (" x".to_string(), SegmentRole::Title),
        ]
    );
}

#[test]
fn component_rows_split_into_parts() {
    let segs = component_segments("┊ │ ○ Self-Attention (GQA) │ ┊");
    assert_eq!(
        seg_view(&segs),
        vec![
            ("┊ │ ".to_string(), SegmentRole::Border),
            ("○".to_string(), SegmentRole::Bullet),
            (" Self-Attention ".to_string(), SegmentRole::Component),
            ("(GQA)".to_string(), SegmentRole::Detail),
            (" │ ┊".to_string(), SegmentRole::Border),
        ]
    );
    let segs = component_segments("│ ○ RMSNorm   │");
    assert_eq!(
        seg_view(&segs),
        vec![
            ("│ ".to_string(), SegmentRole::Border),
            ("○".to_string(), SegmentRole::Bullet),
            (" RMSNorm".to_string(), SegmentRole::Component),
            ("   │".to_string(), SegmentRole::Border),
        ]
    );
    assert_eq!(split_trailing_border("abc │ "), ("abc", " │ "));
    assert_eq!(split_trailing_border("abc"), ("abc", ""));
}

#[test]
fn config_fields_are_flattened_in_key_order() {
    let config = JsonValue::Object(vec![
        ("zeta".to_string(), JsonValue::Number(JsonNumber::PosInt(1))),
        (
            "alpha".to_string(),
            JsonValue::Array(vec![JsonValue::Bool(true), JsonValue::Null]),
        ),
        (
            "mid".to_string(),
            JsonValue::Object(vec![(
                "name".to_string(),
                JsonValue::Str("x".to_string()),
            )]),
        ),
        ("neg".to_string(), JsonValue::Number(JsonNumber::NegInt(-3))),
    ]);
    let rows = flatten_config_fields("config", &config);
    let expected: Vec<(String, String)> = vec![
        ("config.alpha[0]", "true"),
        ("config.alpha[1]", "null"),
        ("config.mid.name", "x"),
        ("config.neg", "-3"),
        ("config.zeta", "1"),
    ]
    .into_iter()
    .map(|(a, b)| (a.to_string(), b.to_string()))
    .collect();
    assert_eq!(rows, expected);
    assert_eq!(
        flatten_config_fields("x", &JsonValue::Str("y".to_string())),
        vec![("x".to_string(), "y".to_string())]
    );
}

#[test]
fn keys_move_the_cursor() {
    let mut c = TabCursor::new(3);
    assert!(!handle_key(&mut c, NavKey::Right, true));
    assert_eq!(c.active, 1);
    assert!(!handle_key(&mut c, NavKey::Char('l'), false));
    assert_eq!(c.active, 1);
    assert!(!handle_key(&mut c, NavKey::Char(' '), true));
    assert_eq!(c.scroll, 8);
    assert!(!handle_key(&mut c, NavKey::Char('k'), true));
    assert_eq!(c.scroll, 7);
    assert!(!handle_key(&mut c, NavKey::Home, true));
    assert_eq!(c.scroll, 0);
    assert!(!handle_key(&mut c, NavKey::End, true));
    assert_eq!(c.scroll, 1000);
    assert!(!handle_key(&mut c, NavKey::Char('h'), true));
    assert_eq!((c.active, c.scroll), (0, 0));
    assert!(!handle_key(&mut c, NavKey::Left, true));
    assert_eq!(c.active, 2);
    assert!(!handle_key(&mut c, NavKey::Other, true));
    assert_eq!(c.active, 2);
    assert!(handle_key(&mut c, NavKey::Char('q'), true));
    assert!(handle_key(&mut c, NavKey::Esc, true));
    assert!(!handle_key(&mut c, NavKey::Esc, false));
}

#[test]
fn empty_config_values_keep_their_key() {
    let config = JsonValue::Object(vec![
        ("b".to_string(), JsonValue::Number(JsonNumber::PosInt(1))),
        (
            "a".to_string(),
            JsonValue::Object(vec![("x".to_string(), JsonValue::Str("s".to_string()))]),
        ),
        (
            "c".to_string(),
            JsonValue::Array(vec![JsonValue::Bool(true), JsonValue::Null]),
        ),
        ("e".to_string(), JsonValue::Array(Vec::new())),
        ("f".to_string(), JsonValue::Object(Vec::new())),
    ]);
    let expected: Vec<(String, String)> = vec![
        ("cfg.a.x", "s"),
        ("cfg.b", "1"),
        ("cfg.c[0]", "true"),
        ("cfg.c[1]", "null"),
        ("cfg.e", "[]"),
        ("cfg.f", "{}"),
    ]
    .into_iter()
    .map(|(a, b)| (a.to_string(), b.to_string()))
    .collect();
    assert_eq!(flatten_config_fields("cfg", &config), expected);
    assert!(flatten_config_fields("cfg", &JsonValue::Object(Vec::new())).is_empty());
    let nested = JsonValue::Object(vec![(
        "c".to_string(),
        JsonValue::Array(vec![
            JsonValue::Array(Vec::new()),
            JsonValue::Number(JsonNumber::PosInt(1)),
        ]),
    )]);
    assert_eq!(
        flatten_config_fields("cfg", &nested),
        vec![("cfg.c[1]".to_string(), "1".to_string())]
    );
}

#[test]
fn coloured_runs_rebuild_the_line() {
    for line in [
        "┊ │   ○ Self-Attention (GQA, 32 heads) │ ┊",
        "┊ │   ○ RMSNorm                          │ ┊",
        "│ ○ open (paren",
        "no bullet here",
    ] {
        let joined: String = component_segments(line).into_iter().map(|s| s.text).collect();
        assert_eq!(joined, line);
        for mark in [true, false] {
            let joined: String = bordered_segments(line, mark).into_iter().map(|s| s.text).collect();
            assert_eq!(joined, line);
        }
    }
}
