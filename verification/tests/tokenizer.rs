use metal_attention::gguf::metadata::{GgufMetadata, GgufMetadataValue};
use metal_attention::gguf::tokenizer::GgufTokenizer;

/// Build a minimal metadata map with a small BPE vocabulary + merges.
fn build_test_metadata() -> GgufMetadata {
    let mut map = Vec::new();

    // Tokenizer model type
    map.push((
        "tokenizer.ggml.model".to_string(),
        GgufMetadataValue::String("llama".to_string()),
    ));

    // Vocabulary: individual chars + merged tokens
    // Indices: 0=<unk>, 1=<s>, 2=</s>, 3=h, 4=e, 5=l, 6=o, 7=he, 8=ll, 9=lo, 10=hel, 11=hello
    let tokens = vec![
        "<unk>", "<s>", "</s>", "h", "e", "l", "o", "he", "ll", "lo", "hel", "hello",
    ];
    map.push((
        "tokenizer.ggml.tokens".to_string(),
        GgufMetadataValue::Array(
            tokens
                .iter()
                .map(|s| GgufMetadataValue::String(s.to_string()))
                .collect(),
        ),
    ));

    // BPE merges in priority order
    // "h e" -> "he" (rank 0)
    // "l l" -> "ll" (rank 1)
    // "l o" -> "lo" (rank 2)
    // "he l" -> "hel" (rank 3)
    // "hel lo" -> "hello" (rank 4)
    let merges = vec!["h e", "l l", "l o", "he l", "hel lo"];
    map.push((
        "tokenizer.ggml.merges".to_string(),
        GgufMetadataValue::Array(
            merges
                .iter()
                .map(|s| GgufMetadataValue::String(s.to_string()))
                .collect(),
        ),
    ));

    // Special tokens
    map.push((
        "tokenizer.ggml.bos_token_id".to_string(),
        GgufMetadataValue::Uint32(1),
    ));
    map.push((
        "tokenizer.ggml.eos_token_id".to_string(),
        GgufMetadataValue::Uint32(2),
    ));

    GgufMetadata::new(map)
}

#[test]
fn tokenizer_from_metadata() {
    let metadata = build_test_metadata();
    let tok = GgufTokenizer::from_metadata(&metadata).expect("should parse tokenizer");
    assert_eq!(tok.vocab_size(), 12);
    assert_eq!(tok.bos_token_id(), 1);
    assert_eq!(tok.eos_token_id(), 2);
}

#[test]
fn tokenizer_encode_single_merge() {
    let metadata = build_test_metadata();
    let tok = GgufTokenizer::from_metadata(&metadata).unwrap();

    // "he" should merge h+e -> "he" (id=7)
    let ids = tok.encode("he");
    assert_eq!(ids, vec![7]);
}

#[test]
fn tokenizer_encode_full_word() {
    let metadata = build_test_metadata();
    let tok = GgufTokenizer::from_metadata(&metadata).unwrap();

    // h e l l o -> he l l o (rank 0) -> he ll o (rank 1); neither "he ll" nor
    // "ll o" is a merge, so the result is [he, ll, o].
    let ids = tok.encode("hello");
    assert_eq!(ids, vec![7, 8, 6]);
}

#[test]
fn tokenizer_encode_unknown() {
    let metadata = build_test_metadata();
    let tok = GgufTokenizer::from_metadata(&metadata).unwrap();

    // "x" is not in vocabulary -> <unk> = 0
    let ids = tok.encode("x");
    assert_eq!(ids, vec![0]);
}

#[test]
fn tokenizer_decode_roundtrip() {
    let metadata = build_test_metadata();
    let tok = GgufTokenizer::from_metadata(&metadata).unwrap();

    // Encode then decode
    let text = "hello";
    let ids = tok.encode(text);
    let decoded = tok.decode(&ids);
    assert_eq!(decoded, text);
}

#[test]
fn tokenizer_decode_special_tokens() {
    let metadata = build_test_metadata();
    let tok = GgufTokenizer::from_metadata(&metadata).unwrap();

    assert_eq!(tok.decode(&[1]), "<s>");
    assert_eq!(tok.decode(&[2]), "</s>");
}

#[test]
fn tokenizer_encode_empty() {
    let metadata = build_test_metadata();
    let tok = GgufTokenizer::from_metadata(&metadata).unwrap();

    let ids = tok.encode("");
    assert!(ids.is_empty());
}

#[test]
fn tokenizer_decode_out_of_range() {
    let metadata = build_test_metadata();
    let tok = GgufTokenizer::from_metadata(&metadata).unwrap();

    // Token ID way out of range -> <unk>
    let decoded = tok.decode(&[9999]);
    assert_eq!(decoded, "<unk>");
}

#[test]
fn tokenizer_missing_tokens_field() {
    let map = Vec::new();
    let metadata = GgufMetadata::new(map);
    let result = GgufTokenizer::from_metadata(&metadata);
    assert!(result.is_err());
}

#[test]
fn a_clone_tokenizes_alike() {
    let metadata = build_test_metadata();
    let tok = GgufTokenizer::from_metadata(&metadata.clone()).unwrap();
    let copy = tok.clone();
    assert_eq!(copy.encode("hellox"), tok.encode("hellox"));
    assert_eq!(copy.decode(&[10, 6, 99]), tok.decode(&[10, 6, 99]));
    assert_eq!(copy.vocab_size(), 12);
    assert_eq!((copy.bos_token_id(), copy.eos_token_id()), (1, 2));
}

#[test]
fn texts_over_the_vocabulary_decode_back() {
    let tok = GgufTokenizer::from_metadata(&build_test_metadata()).unwrap();
    for text in ["", "h", "olleh", "hellohello", "lolohel", "eeellloooo"] {
        assert_eq!(tok.decode(&tok.encode(text)), text);
    }
}
