use metal_attention::gguf::metadata::{GgufMetadata, GgufMetadataValue};

fn sample_metadata() -> GgufMetadata {
    let mut map = Vec::new();
    map.push((
        "general.architecture".to_string(),
        GgufMetadataValue::String("llama".to_string()),
    ));
    map.push((
        "general.name".to_string(),
        GgufMetadataValue::String("TinyLlama".to_string()),
    ));
    map.push((
        "llama.block_count".to_string(),
        GgufMetadataValue::Uint32(22),
    ));
    map.push((
        "llama.context_length".to_string(),
        GgufMetadataValue::Uint32(2048),
    ));
    map.push((
        "llama.rope.freq_base".to_string(),
        GgufMetadataValue::Float32(10000.0f32.to_bits()),
    ));
    map.push((
        "tokenizer.ggml.tokens".to_string(),
        GgufMetadataValue::Array(vec![
            GgufMetadataValue::String("<unk>".to_string()),
            GgufMetadataValue::String("<s>".to_string()),
            GgufMetadataValue::String("</s>".to_string()),
        ]),
    ));
    GgufMetadata::new(map)
}

#[test]
fn test_get_string() {
    let md = sample_metadata();
    assert_eq!(md.get_string("general.architecture"), Some("llama"));
    assert_eq!(md.get_string("general.name"), Some("TinyLlama"));
    assert_eq!(md.get_string("nonexistent"), None);
    // Wrong type returns None
    assert_eq!(md.get_string("llama.block_count"), None);
}

#[test]
fn test_get_u32() {
    let md = sample_metadata();
    assert_eq!(md.get_u32("llama.block_count"), Some(22));
    assert_eq!(md.get_u32("llama.context_length"), Some(2048));
    assert_eq!(md.get_u32("general.architecture"), None);
}

#[test]
fn test_get_f32() {
    let md = sample_metadata();
    assert_eq!(md.get_f32("llama.rope.freq_base"), Some(10000.0f32.to_bits()));
    assert_eq!(md.get_f32("nonexistent"), None);
}

#[test]
fn test_get_array_string() {
    let md = sample_metadata();
    let tokens = md.get_array_string("tokenizer.ggml.tokens").unwrap();
    assert_eq!(tokens, vec!["<unk>", "<s>", "</s>"]);
    assert_eq!(md.get_array_string("nonexistent"), None);
    // Non-array returns None
    assert_eq!(md.get_array_string("general.architecture"), None);
}

#[test]
fn test_len_and_contains() {
    let md = sample_metadata();
    assert_eq!(md.len(), 6);
    assert!(!md.is_empty());
    assert!(md.contains_key("general.architecture"));
    assert!(!md.contains_key("missing"));
}

#[test]
fn clones_hold_the_same_values() {
    let metadata = sample_metadata();
    let copy = metadata.clone();
    assert_eq!(copy.len(), metadata.len());
    for (key, value) in metadata.iter() {
        assert_eq!(copy.get(key), Some(value));
    }
    let nested = GgufMetadataValue::Array(vec![
        GgufMetadataValue::Array(vec![GgufMetadataValue::Int8(-3)]),
        GgufMetadataValue::String("x".to_string()),
    ]);
    assert_eq!(nested.clone(), nested);
}

#[test]
fn floats_in_values_are_compared_as_floats() {
    let single = |x: f32| GgufMetadataValue::Float32(x.to_bits());
    let double = |x: f64| GgufMetadataValue::Float64(x.to_bits());
    let xs = [0.0, -0.0, 1.5, -1.5, f32::INFINITY, f32::NEG_INFINITY, f32::NAN, -f32::NAN];
    for a in xs {
        for b in xs {
            assert_eq!(single(a) == single(b), a == b);
            let (a, b) = (a as f64, b as f64);
            assert_eq!(double(a) == double(b), a == b);
        }
    }
    assert_eq!(single(f32::from_bits(1)), single(f32::from_bits(1)));
    assert_ne!(single(f32::from_bits(1)), single(f32::from_bits(0x8000_0001)));
    let array = |x: f32| GgufMetadataValue::Array(vec![GgufMetadataValue::Bool(true), single(x)]);
    assert_eq!(array(0.0), array(-0.0));
    assert_ne!(array(f32::NAN), array(f32::NAN));
    assert_ne!(array(1.0), GgufMetadataValue::Array(vec![GgufMetadataValue::Bool(true)]));
    assert_ne!(GgufMetadataValue::Uint32(1), GgufMetadataValue::Int32(1));
    assert_ne!(single(1.0), GgufMetadataValue::Uint32(1.0f32.to_bits()));
}
