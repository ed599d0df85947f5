use susi::engine::InferenceHost;
use susi::gguf::{MetaEntry, MetaValue};

fn u32_entry(key: &str, source: usize, v: u32) -> MetaEntry {
    MetaEntry { key: key.to_string(), value: MetaValue { source: Some(source), as_u32: Some(v) } }
}

fn get_u32(metadata: &[MetaEntry], key: &str) -> Option<u32> {
    metadata.iter().find(|e| e.key == key).and_then(|e| e.value.as_u32)
}

#[test]
fn test_shim_derives_missing_rope_dimension_count_from_embedding_and_head_count() {
    let mut metadata = vec![
        u32_entry("qwen2.attention.head_count", 0, 14),
        u32_entry("qwen2.embedding_length", 1, 896),
    ];
    InferenceHost::shim_llama_compatible_metadata(&mut metadata);
    assert_eq!(get_u32(&metadata, "llama.rope.dimension_count"), Some(64));
}

#[test]
fn test_shim_prefers_existing_rope_dimension_count_over_derived_value() {
    let mut metadata = vec![
        u32_entry("qwen2.attention.head_count", 0, 14),
        u32_entry("qwen2.embedding_length", 1, 896),
        u32_entry("qwen2.rope.dimension_count", 2, 128),
    ];
    InferenceHost::shim_llama_compatible_metadata(&mut metadata);
    assert_eq!(get_u32(&metadata, "llama.rope.dimension_count"), Some(128));
}

#[test]
fn shim_copies_values_and_keeps_existing_llama_keys() {
    let mut metadata = vec![
        MetaEntry {
            key: "phi3.attention.layer_norm_rms_epsilon".to_string(),
            value: MetaValue { source: Some(0), as_u32: None },
        },
        u32_entry("llama.block_count", 1, 24),
        u32_entry("phi3.block_count", 2, 32),
        u32_entry("phi3.attention.head_count", 3, 7),
        u32_entry("phi3.embedding_length", 4, 100),
    ];
    InferenceHost::shim_llama_compatible_metadata(&mut metadata);
    let eps = metadata.iter().find(|e| e.key == "llama.attention.layer_norm_rms_epsilon").unwrap();
    assert_eq!(eps.value.source, Some(0));
    assert_eq!(get_u32(&metadata, "llama.block_count"), Some(24));
    assert_eq!(get_u32(&metadata, "llama.attention.head_count"), Some(7));
    // 100 is not a multiple of 7: no rope dimension is derived.
    assert_eq!(get_u32(&metadata, "llama.rope.dimension_count"), None);
    assert_eq!(metadata.len(), 8);
}
