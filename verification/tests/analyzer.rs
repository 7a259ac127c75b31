use dissectlm::analyzer::classifier::{classify_tensor, classify_tensor_for_model};
use dissectlm::analyzer::config::architecture_from_config;
use dissectlm::analyzer::param_counter::{param_count_from_shape, summarize_tensors};
use dissectlm::analyzer::safetensor::{
    decode_header_length, header_range_request, tensors_from_header_entries, HeaderEntry,
    HeaderError, HeaderLengthError, HeaderTensor, TensorMetaRaw,
};
use dissectlm::json::{JsonNumber, JsonValue, RealNumber};
use dissectlm::types::{ArchitectureInfo, LayerCategory};

fn tensor(name: &str, shape: &[u64]) -> TensorMetaRaw {
    TensorMetaRaw {
        name: name.to_string(),
        shape: shape.to_vec(),
        dtype: "F32".to_string(),
        data_offsets: (0, 0),
    }
}

fn num(n: u64) -> JsonValue {
    JsonValue::Number(JsonNumber::PosInt(n))
}

fn object(members: Vec<(&str, JsonValue)>) -> JsonValue {
    JsonValue::Object(members.into_iter().map(|(k, v)| (k.to_string(), v)).collect())
}

#[test]
fn classifier_maps_expected_patterns() {
    assert_eq!(
        classify_tensor("model.layers.0.self_attn.q_proj.weight"),
        LayerCategory::Attention
    );
    assert_eq!(
        classify_tensor("decoder.mlp.up_proj.weight"),
        LayerCategory::FeedForward
    );
    assert_eq!(
        classify_tensor("model.embed_tokens.weight"),
        LayerCategory::Embedding
    );
    assert_eq!(classify_tensor("token_emb.weight"), LayerCategory::Embedding);
    assert_eq!(
        classify_tensor("model.norm.weight"),
        LayerCategory::Normalization
    );
    assert_eq!(classify_tensor("lm_head.weight"), LayerCategory::OutputHead);
    assert_eq!(
        classify_tensor("transformer.wte.weight"),
        LayerCategory::Embedding
    );
    assert_eq!(
        classify_tensor("decoder.layers.0.attn.out_proj.weight"),
        LayerCategory::Attention
    );
}

#[test]
fn model_type_overrides_apply_before_generic() {
    assert_eq!(
        classify_tensor_for_model("transformer.h.0.mlp.c_fc.weight", Some("GPT2LMHeadModel")),
        LayerCategory::FeedForward
    );
    assert_eq!(
        classify_tensor_for_model(
            "bert.encoder.layer.0.attention.self.query.weight",
            Some("BertForMaskedLM")
        ),
        LayerCategory::Attention
    );
}

#[test]
fn classification_is_case_insensitive() {
    assert_eq!(
        classify_tensor("MODEL.LAYERS.0.SELF_ATTN.Q_PROJ.WEIGHT"),
        LayerCategory::Attention
    );
    assert_eq!(
        classify_tensor_for_model("transformer.h.0.mlp.c_fc.weight", Some("gpt2")),
        classify_tensor_for_model("transformer.h.0.mlp.c_fc.weight", Some("GPT2"))
    );
}

#[test]
fn classification_without_model_type_is_generic() {
    for name in [
        "lm_head.weight",
        "model.layers.3.mlp.down_proj.weight",
        "something.else",
    ] {
        assert_eq!(classify_tensor_for_model(name, None), classify_tensor(name));
    }
    assert_eq!(classify_tensor("something.else"), LayerCategory::Other);
}

#[test]
fn extracts_aliases_and_model_type() {
    let cfg = object(vec![
        (
            "architectures",
            JsonValue::Array(vec![JsonValue::Str("LlamaForCausalLM".to_string())]),
        ),
        ("n_embd", num(768)),
        ("n_layer", num(12)),
        ("n_head", num(12)),
        ("n_head_kv", num(4)),
    ]);

    let arch = architecture_from_config(&cfg);
    assert_eq!(arch.model_type.as_deref(), Some("LlamaForCausalLM"));
    assert_eq!(arch.hidden_size, Some(768));
    assert_eq!(arch.num_layers, Some(12));
    assert_eq!(arch.num_heads, Some(12));
    assert_eq!(arch.num_key_value_heads, Some(4));
}

#[test]
fn config_prefers_first_alias_and_model_type_field() {
    let cfg = object(vec![
        ("model_type", JsonValue::Str("llama".to_string())),
        (
            "architectures",
            JsonValue::Array(vec![JsonValue::Str("LlamaForCausalLM".to_string())]),
        ),
        ("n_embd", num(512)),
        ("hidden_size", num(1024)),
        (
            "num_attention_heads",
            JsonValue::Number(JsonNumber::Real(RealNumber {
                text: "16.0".to_string(),
                whole: Some(16),
            })),
        ),
        ("num_hidden_layers", JsonValue::Str("24".to_string())),
    ]);
    let arch = architecture_from_config(&cfg);
    assert_eq!(arch.model_type.as_deref(), Some("llama"));
    assert_eq!(arch.hidden_size, Some(1024));
    assert_eq!(arch.num_heads, Some(16));
    assert_eq!(arch.num_layers, None);
    assert_eq!(arch.num_key_value_heads, None);
}

#[test]
fn counts_parameters_and_detects_attention_type() {
    let tensors = vec![
        tensor("model.layers.0.self_attn.q_proj.weight", &[8, 8]),
        tensor("model.layers.0.self_attn.k_proj.weight", &[4, 8]),
        tensor("model.layers.0.self_attn.v_proj.weight", &[4, 8]),
        tensor("model.layers.0.self_attn.o_proj.weight", &[8, 8]),
        tensor("model.layers.0.mlp.up_proj.weight", &[8, 16]),
        tensor("model.embed_tokens.weight", &[128, 8]),
        tensor("model.norm.weight", &[8]),
        tensor("lm_head.weight", &[128, 8]),
    ];

    let arch = ArchitectureInfo {
        hidden_size: Some(8),
        num_heads: Some(4),
        ..ArchitectureInfo::default()
    };

    let (_, stats, attention) = summarize_tensors(&tensors, &arch);
    assert_eq!(stats.categories.attention, 64 + 32 + 32 + 64);
    assert_eq!(stats.categories.feedforward, 128);
    assert_eq!(stats.categories.embedding, 1024);
    assert_eq!(stats.categories.normalization, 8);
    assert_eq!(stats.categories.output_head, 1024);
    assert_eq!(attention.kv_heads, Some(2));
    assert_eq!(attention.attention_type.as_deref(), Some("GQA"));
}

#[test]
fn infers_kv_heads_from_transposed_k_proj_shape() {
    let tensors = vec![
        tensor("attn.q_proj.weight", &[768, 768]),
        tensor("attn.k_proj.weight", &[768, 384]),
        tensor("attn.o_proj.weight", &[768, 768]),
    ];

    let arch = ArchitectureInfo {
        hidden_size: Some(768),
        num_heads: Some(16),
        ..ArchitectureInfo::default()
    };

    let (_, _, attention) = summarize_tensors(&tensors, &arch);
    assert_eq!(attention.head_dim, Some(48));
    assert_eq!(attention.kv_heads, Some(8));
    assert_eq!(attention.attention_type.as_deref(), Some("GQA"));
}

#[test]
fn infers_num_heads_from_q_scale_when_missing_in_config() {
    let tensors = vec![
        tensor("attn.q_proj.weight", &[768, 768]),
        tensor("attn.k_proj.weight", &[384, 768]),
        tensor("attn.o_proj.weight", &[768, 768]),
        tensor("attn.q_scale", &[16, 1, 1]),
    ];

    let arch = ArchitectureInfo {
        hidden_size: Some(768),
        ..ArchitectureInfo::default()
    };

    let (_, _, attention) = summarize_tensors(&tensors, &arch);
    assert_eq!(attention.num_heads, Some(16));
    assert_eq!(attention.head_dim, Some(48));
    assert_eq!(attention.kv_heads, Some(8));
}

#[test]
fn category_totals_add_up_to_all_parameters() {
    let tensors = vec![
        tensor("model.layers.0.self_attn.q_proj.weight", &[8, 8]),
        tensor("model.layers.0.mlp.up_proj.weight", &[8, 16]),
        tensor("model.embed_tokens.weight", &[128, 8]),
        tensor("model.norm.weight", &[8]),
        tensor("lm_head.weight", &[128, 8]),
        tensor("rotary.inv_freq", &[4]),
    ];
    let (metas, stats, _) = summarize_tensors(&tensors, &ArchitectureInfo::default());
    let c = stats.categories;
    let sum = c.attention + c.feedforward + c.embedding + c.normalization + c.output_head + c.other;
    assert_eq!(sum, stats.total_params_all);
    assert_eq!(stats.total_params_all, 64 + 128 + 1024 + 8 + 1024 + 4);
    assert_eq!(stats.total_params, stats.total_params_all - c.output_head);
    assert_eq!(c.other, 4);
    assert_eq!(metas.len(), tensors.len());
    assert_eq!(metas[1].param_count, 128);
    assert_eq!(metas[1].category, LayerCategory::FeedForward);
}

#[test]
fn multi_head_attention_when_kv_heads_match() {
    let tensors = vec![
        tensor("attn.q_proj.weight", &[64, 64]),
        tensor("attn.k_proj.weight", &[64, 64]),
    ];
    let arch = ArchitectureInfo {
        hidden_size: Some(64),
        num_heads: Some(8),
        ..ArchitectureInfo::default()
    };
    let (_, _, attention) = summarize_tensors(&tensors, &arch);
    assert_eq!(attention.head_dim, Some(8));
    assert_eq!(attention.kv_heads, Some(8));
    assert_eq!(attention.attention_type.as_deref(), Some("MHA"));
    assert_eq!(attention.q_proj_params, 4096);
    assert_eq!(attention.k_proj_params, 4096);
}

#[test]
fn param_count_of_shapes() {
    assert_eq!(param_count_from_shape(&[]), 1);
    assert_eq!(param_count_from_shape(&[3, 4, 5]), 60);
    assert_eq!(param_count_from_shape(&[7, 0]), 0);
    assert_eq!(param_count_from_shape(&[u64::MAX, 2]), u64::MAX);
}

#[test]
fn header_entries_skip_metadata() {
    let entries = vec![
        HeaderEntry {
            name: "__metadata".to_string(),
            tensor: Some(HeaderTensor {
                dtype: "F32".to_string(),
                shape: vec![1],
                data_offsets: (0, 4),
            }),
        },
        HeaderEntry {
            name: "__metadata__".to_string(),
            tensor: None,
        },
        HeaderEntry {
            name: "model.layers.0.self_attn.q_proj.weight".to_string(),
            tensor: Some(HeaderTensor {
                dtype: "F32".to_string(),
                shape: vec![4, 4],
                data_offsets: (0, 64),
            }),
        },
    ];
    let tensors = tensors_from_header_entries(&entries).expect("header should parse");
    assert_eq!(tensors.len(), 1);
    assert_eq!(tensors[0].shape, vec![4, 4]);
    assert_eq!(tensors[0].name, "model.layers.0.self_attn.q_proj.weight");
    assert_eq!(tensors[0].data_offsets, (0, 64));
}

#[test]
fn header_without_tensors_is_refused() {
    let entries = vec![HeaderEntry {
        name: "__metadata__".to_string(),
        tensor: None,
    }];
    assert!(matches!(
        tensors_from_header_entries(&entries),
        Err(HeaderError::NoTensorMetadata)
    ));
    assert!(matches!(
        tensors_from_header_entries(&Vec::new()),
        Err(HeaderError::NoTensorMetadata)
    ));
}

#[test]
fn header_length_is_little_endian() {
    assert_eq!(decode_header_length(&[1, 0, 0, 0, 0, 0, 0, 0]), Some(1));
    assert_eq!(
        decode_header_length(&[0x10, 0x02, 0, 0, 0, 0, 0, 0, 0xff]),
        Some(0x0210)
    );
    assert_eq!(decode_header_length(&[0xff; 8]), Some(u64::MAX));
    assert_eq!(decode_header_length(&[1, 2, 3]), None);
}

#[test]
fn header_range_request_values() {
    assert_eq!(
        header_range_request(&[100, 0, 0, 0, 0, 0, 0, 0]),
        Ok("bytes=8-107".to_string())
    );
    assert_eq!(
        header_range_request(&[1, 0, 0, 0, 0, 0, 0, 0]),
        Ok("bytes=8-8".to_string())
    );
    assert_eq!(
        header_range_request(&[0, 0, 0, 0, 0, 0, 0, 0]),
        Err(HeaderLengthError::Empty)
    );
    assert_eq!(header_range_request(&[5, 0]), Err(HeaderLengthError::Short));
}
