use std::collections::BTreeMap;

use semantic_events::CacheNamespace;

fn namespace() -> CacheNamespace {
    CacheNamespace {
        model: "qwen2.5-7b".to_string(),
        tokenizer: "qwen2.5".to_string(),
        kv_layout: "flashinfer-fp16".to_string(),
        block_size: 16,
        lora: None,
        quant: None,
        extra: BTreeMap::new(),
    }
}

#[test]
fn namespace_hard_vs_full_compatibility() {
    let base = namespace();
    let mut lora_a = namespace();
    lora_a.lora = Some("adapter-a".to_string());
    // Different LoRA: byte-compatible base, not fully compatible.
    assert!(base.hard_compatible_with(&lora_a));
    assert!(!base.fully_compatible_with(&lora_a));
    // Different kv_layout: not even byte-compatible.
    let mut other_layout = namespace();
    other_layout.kv_layout = "trtllm-fp8".to_string();
    assert!(!base.hard_compatible_with(&other_layout));
}

#[test]
fn every_hard_field_counts() {
    let base = namespace();
    let mut model = namespace();
    model.model = "qwen2.5-14b".to_string();
    let mut tokenizer = namespace();
    tokenizer.tokenizer = "qwen3".to_string();
    let mut block_size = namespace();
    block_size.block_size = 32;
    for other in [model, tokenizer, block_size] {
        assert!(!base.hard_compatible_with(&other));
        assert!(!other.hard_compatible_with(&base));
        assert!(!base.fully_compatible_with(&other));
        assert!(other.hard_compatible_with(&other));
    }
}

#[test]
fn extra_entries_are_part_of_the_hard_key() {
    let base = namespace();
    let mut tagged = namespace();
    tagged.extra.insert("rope".to_string(), "yarn".to_string());
    let mut retagged = namespace();
    retagged.extra.insert("rope".to_string(), "linear".to_string());
    // One-sided key, in both directions.
    assert!(!base.hard_compatible_with(&tagged));
    assert!(!tagged.hard_compatible_with(&base));
    // Same key, other value.
    assert!(!tagged.hard_compatible_with(&retagged));
    // Same entries, whatever the order of insertion.
    let mut ab = namespace();
    ab.extra.insert("a".to_string(), "1".to_string());
    ab.extra.insert("b".to_string(), "2".to_string());
    let mut ba = namespace();
    ba.extra.insert("b".to_string(), "2".to_string());
    ba.extra.insert("a".to_string(), "1".to_string());
    assert!(ab.hard_compatible_with(&ba));
    assert!(ab.fully_compatible_with(&ba));
}

#[test]
fn quantization_counts_only_in_full() {
    let base = namespace();
    let mut int8 = namespace();
    int8.quant = Some("int8".to_string());
    let mut int4 = namespace();
    int4.quant = Some("int4".to_string());
    assert!(base.hard_compatible_with(&int8));
    assert!(!base.fully_compatible_with(&int8));
    assert!(!int4.fully_compatible_with(&int8));
    assert!(int8.fully_compatible_with(&int8.clone()));
}

#[test]
fn full_compatibility_agrees_with_equality() {
    let mut a = namespace();
    a.lora = Some("adapter-a".to_string());
    a.extra.insert("k".to_string(), "v".to_string());
    let b = a.clone();
    assert_eq!(a, b);
    assert!(a.fully_compatible_with(&b));
    let mut c = b.clone();
    c.lora = Some("adapter-c".to_string());
    assert_ne!(a, c);
    assert!(!a.fully_compatible_with(&c));
    assert!(a.hard_compatible_with(&c));
}
