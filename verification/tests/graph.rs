use dissectlm::graph::architecture::{build_architecture_graph, center_pad, center_text, left_pad};
use dissectlm::graph::layer_map::{block_layout, block_pattern};
use dissectlm::types::ArchitectureInfo;

#[test]
fn default_graph_has_all_sections() {
    let arch = ArchitectureInfo {
        model_type: Some("llama".to_string()),
        hidden_size: Some(4096),
        num_layers: Some(32),
        num_heads: Some(32),
        num_key_value_heads: Some(8),
        attention_type: Some("GQA".to_string()),
    };
    let graph = build_architecture_graph(&arch);

    assert!(graph.contains("Token Embedding Layer"));
    assert!(graph.contains("hidden_size = 4096"));
    assert!(graph.contains("x 32"));
    assert!(graph.contains("Self-Attention"));
    assert!(graph.contains("GQA"));
    assert!(graph.contains("32 heads"));
    assert!(graph.contains("8 kv"));
    assert!(graph.contains("Feed-Forward (SwiGLU)"));
    assert!(graph.contains("LM Head (Output)"));
    assert!(graph.contains("Final RMSNorm"));
}

#[test]
fn bert_graph_shows_encoder_block() {
    let arch = ArchitectureInfo {
        model_type: Some("bert".to_string()),
        hidden_size: Some(768),
        num_layers: Some(12),
        num_heads: Some(12),
        num_key_value_heads: None,
        attention_type: Some("MHA".to_string()),
    };
    let graph = build_architecture_graph(&arch);

    assert!(graph.contains("Encoder Block"));
    assert!(graph.contains("Multi-Head Self-Attention"));
    assert!(graph.contains("Feed-Forward Network"));
    assert!(graph.contains("x 12"));
}

#[test]
fn unknown_model_uses_default_layout() {
    let arch = ArchitectureInfo::default();
    let graph = build_architecture_graph(&arch);

    assert!(graph.contains("Transformer Block"));
    assert!(graph.contains("x N"));
    assert!(graph.contains("LM Head (Output)"));
}

#[test]
fn graph_is_deterministic_and_ends_with_a_box() {
    let arch = ArchitectureInfo {
        model_type: Some("gpt2".to_string()),
        hidden_size: Some(768),
        num_layers: Some(12),
        num_heads: Some(12),
        num_key_value_heads: None,
        attention_type: None,
    };
    let first = build_architecture_graph(&arch);
    let second = build_architecture_graph(&arch);
    assert_eq!(first, second);
    assert!(first.contains("MLP (GELU)"));
    assert!(first.ends_with('╯'));
    assert!(!first.ends_with('\n'));
}

#[test]
fn layouts_by_model_family() {
    assert_eq!(block_pattern(Some("BertForMaskedLM")), "Encoder Block");
    assert_eq!(block_pattern(Some("t5")), "Enc-Dec Block");
    assert_eq!(block_pattern(Some("MambaForCausalLM")), "SSM Block");
    assert_eq!(block_pattern(None), "Transformer Block");
    let (label, parts) = block_layout(Some("phi3"));
    assert_eq!(label, "Transformer Block");
    assert_eq!(
        parts,
        vec!["LayerNorm", "Parallel Attention + MLP", "Residual Add"]
    );
    let (_, gemma) = block_layout(Some("GEMMA"));
    assert_eq!(gemma[1], "Multi-Query Attention");
    let (_, default_parts) = block_layout(Some("unheard-of"));
    assert_eq!(default_parts.len(), 6);
    assert_eq!(default_parts[4], "Feed-Forward (SwiGLU)");
}

#[test]
fn layout_ignores_case() {
    assert_eq!(block_layout(Some("MISTRAL")), block_layout(Some("mistral")));
}

#[test]
fn padding_helpers_fill_the_width() {
    assert_eq!(center_pad("ab", 6), "  ab  ");
    assert_eq!(center_pad("abc", 6), " abc  ");
    assert_eq!(center_pad("abcdefgh", 4), "abcd");
    assert_eq!(left_pad("ab", 6, 1), " ab   ");
    assert_eq!(left_pad("abcdefgh", 4, 1), " abc");
    assert_eq!(center_text("ab", 6), "  ab");
    assert_eq!(center_text("abcdefgh", 3), "abcdefgh");
}

#[test]
fn repeated_block_lines_up_with_the_boxes() {
    let arch = ArchitectureInfo {
        model_type: Some("llama".to_string()),
        hidden_size: Some(4096),
        num_layers: Some(32),
        num_heads: Some(32),
        num_key_value_heads: Some(8),
        attention_type: Some("GQA".to_string()),
    };
    let graph = build_architecture_graph(&arch);
    let framed: Vec<&str> = graph.lines().filter(|l| !l.trim().starts_with('▼')).collect();
    assert!(framed.iter().any(|l| l.starts_with("┊ ╭")));
    for line in framed {
        assert_eq!(line.chars().count(), 54, "{line}");
    }
    assert!(graph.contains("│ ┊\n"));
    assert!(!graph.contains("│  ┊"));
}
