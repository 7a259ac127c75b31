use dissectlm::hf::repo::{
    extract_sibling_files, has_config_file, index_file_name, next_hf_fetch, resolve_url,
    sanitize_repo_id, HfFetch,
    shard_files_from_index, shard_files_from_listing, shard_total_size,
    unsupported_checkpoint_warning, HfSiblingFile,
};
use dissectlm::json::{JsonNumber, JsonValue};

fn object(members: Vec<(&str, JsonValue)>) -> JsonValue {
    JsonValue::Object(members.into_iter().map(|(k, v)| (k.to_string(), v)).collect())
}

fn text(s: &str) -> JsonValue {
    JsonValue::Str(s.to_string())
}

fn file(name: &str, size: Option<u64>) -> HfSiblingFile {
    HfSiblingFile {
        name: name.to_string(),
        size_bytes: size,
    }
}

#[test]
fn sibling_extraction_handles_missing() {
    let manifest = object(vec![("modelId", text("x"))]);
    let files = extract_sibling_files(&manifest);
    assert!(files.is_empty());
}

#[test]
fn sibling_extraction_reads_names_and_sizes() {
    let manifest = object(vec![(
        "siblings",
        JsonValue::Array(vec![
            object(vec![
                ("rfilename", text("config.json")),
                ("size", JsonValue::Number(JsonNumber::PosInt(512))),
            ]),
            object(vec![("size", JsonValue::Number(JsonNumber::PosInt(3)))]),
            object(vec![("rfilename", text("model.safetensors"))]),
        ]),
    )]);
    let files = extract_sibling_files(&manifest);
    assert_eq!(files.len(), 2);
    assert_eq!(files[0].name, "config.json");
    assert_eq!(files[0].size_bytes, Some(512));
    assert_eq!(files[1].name, "model.safetensors");
    assert_eq!(files[1].size_bytes, None);
    assert!(has_config_file(&files));
    assert!(!has_config_file(&vec![file("model.safetensors", None)]));
}

#[test]
fn urls_and_cache_names() {
    assert_eq!(sanitize_repo_id("org/model"), "org/model");
    assert_eq!(
        resolve_url("https://huggingface.co//", "org/model", "config.json"),
        "https://huggingface.co/org/model/resolve/main/config.json"
    );
    assert_eq!(
        resolve_url("http://h", "m", "a.safetensors"),
        "http://h/m/resolve/main/a.safetensors"
    );
}

#[test]
fn shard_files_come_sorted_and_distinct() {
    let index = object(vec![
        ("metadata", object(vec![])),
        (
            "weight_map",
            object(vec![
                ("w1", text("model-00002-of-00002.safetensors")),
                ("w2", text("model-00001-of-00002.safetensors")),
                ("w3", text("model-00002-of-00002.safetensors")),
                ("w4", JsonValue::Null),
            ]),
        ),
    ]);
    assert_eq!(
        shard_files_from_index(&index),
        vec![
            "model-00001-of-00002.safetensors".to_string(),
            "model-00002-of-00002.safetensors".to_string()
        ]
    );
    assert!(shard_files_from_index(&object(vec![])).is_empty());

    let listing = vec![
        file("b.safetensors", Some(10)),
        file("a.safetensors", Some(5)),
        file("README.md", None),
        file("b.safetensors", Some(99)),
        file("sub/model.safetensors.index.json", Some(1)),
    ];
    assert_eq!(
        shard_files_from_listing(&listing),
        vec!["a.safetensors".to_string(), "b.safetensors".to_string()]
    );
    assert_eq!(
        index_file_name(&listing),
        Some("sub/model.safetensors.index.json".to_string())
    );
    assert_eq!(
        index_file_name(&vec![file("b.safetensors", Some(10)), file("a.safetensors", Some(5))]),
        None
    );
}

#[test]
fn shard_sizes_need_every_size() {
    let listing = vec![
        file("a.safetensors", Some(5)),
        file("b.safetensors", Some(10)),
        file("c.safetensors", None),
        file("d.safetensors", Some(u64::MAX)),
    ];
    let ab = vec!["a.safetensors".to_string(), "b.safetensors".to_string()];
    assert_eq!(shard_total_size(&ab, &listing), Some(15));
    let ac = vec!["a.safetensors".to_string(), "c.safetensors".to_string()];
    assert_eq!(shard_total_size(&ac, &listing), None);
    let ad = vec!["a.safetensors".to_string(), "d.safetensors".to_string()];
    assert_eq!(shard_total_size(&ad, &listing), Some(u64::MAX));
    assert_eq!(shard_total_size(&Vec::new(), &listing), None);
    let missing = vec!["zzz.safetensors".to_string()];
    assert_eq!(shard_total_size(&missing, &listing), None);
}

#[test]
fn checkpoint_only_repositories_are_flagged() {
    let listing = vec![
        file("config.json", None),
        file("pytorch_model.bin", None),
        file("tf_model.h5", None),
    ];
    assert_eq!(
        unsupported_checkpoint_warning(&listing),
        Some(
            "Only non-safetensors checkpoints found (pytorch_model.bin, tf_model.h5). Use --deep for raw checkpoint inspection."
                .to_string()
        )
    );
    assert_eq!(
        unsupported_checkpoint_warning(&vec![file("config.json", None)]),
        None
    );
}

#[test]
fn fetches_follow_config_index_then_headers() {
    let listing = vec![
        file("config.json", None),
        file("model.safetensors.index.json", None),
    ];
    assert!(matches!(next_hf_fetch(&listing, false, false, 0, 0), HfFetch::Config));
    assert!(matches!(
        next_hf_fetch(&listing, true, false, 0, 0),
        HfFetch::Index(ref n) if n == "model.safetensors.index.json"
    ));
    assert!(matches!(next_hf_fetch(&listing, true, true, 2, 0), HfFetch::Header(0)));
    assert!(matches!(next_hf_fetch(&listing, true, true, 2, 1), HfFetch::Header(1)));
    assert!(matches!(next_hf_fetch(&listing, true, true, 2, 2), HfFetch::Done));
    let bare = vec![file("a.safetensors", None)];
    assert!(matches!(next_hf_fetch(&bare, false, false, 1, 0), HfFetch::Header(0)));
    assert!(matches!(next_hf_fetch(&bare, false, false, 0, 0), HfFetch::Done));
}
