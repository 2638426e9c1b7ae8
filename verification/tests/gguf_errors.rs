use metal_attention::gguf::builder::GgufBuilder;
use metal_attention::gguf::format::{GgufError, GGUF_MAGIC};
use metal_attention::gguf::metadata::{GgufMetadata, GgufMetadataValue, GgufMetadataValueType};
use metal_attention::gguf::parser::GgufFile;
use metal_attention::gguf::quantize::GgufType;
use metal_attention::gguf::tokenizer::{GgufTokenizer, TokenizerError};

/// A header with the given numbers of tensors and of metadata entries, and what follows it.
fn file(tensors: u64, entries: u64, rest: &[u8]) -> Vec<u8> {
    let mut data = GGUF_MAGIC.to_le_bytes().to_vec();
    data.extend(3u32.to_le_bytes());
    data.extend(tensors.to_le_bytes());
    data.extend(entries.to_le_bytes());
    data.extend(rest);
    data
}

fn text(s: &[u8]) -> Vec<u8> {
    let mut data = (s.len() as u64).to_le_bytes().to_vec();
    data.extend(s);
    data
}

fn error_of(data: Vec<u8>) -> GgufError {
    GgufFile::from_bytes(data).err().unwrap()
}

#[test]
fn data_ends_too_early() {
    assert_eq!(error_of(vec![]), GgufError::UnexpectedEof(0));
    assert_eq!(error_of(GGUF_MAGIC.to_le_bytes().to_vec()), GgufError::UnexpectedEof(4));
    assert_eq!(error_of(file(0, 1, &[])), GgufError::UnexpectedEof(24));
    assert_eq!(error_of(file(1, 0, &[])), GgufError::UnexpectedEof(24));
    // A text that is longer than the rest of the data.
    assert_eq!(error_of(file(0, 1, &100u64.to_le_bytes())), GgufError::UnexpectedEof(32));
}

#[test]
fn huge_counts_do_not_matter_where_the_data_ends() {
    assert_eq!(error_of(file(u64::MAX, 0, &[])), GgufError::UnexpectedEof(24));
    assert_eq!(error_of(file(0, u64::MAX, &[])), GgufError::UnexpectedEof(24));
}

#[test]
fn unknown_numbers_are_reported() {
    let mut entry = text(b"key");
    entry.extend(13u32.to_le_bytes());
    assert_eq!(error_of(file(0, 1, &entry)), GgufError::UnknownValueType(13));
    let mut tensor = text(b"t");
    tensor.extend(1u32.to_le_bytes());
    tensor.extend(8u64.to_le_bytes());
    tensor.extend(4u32.to_le_bytes());
    tensor.extend(0u64.to_le_bytes());
    assert_eq!(error_of(file(1, 0, &tensor)), GgufError::UnknownTensorType(4));
}

#[test]
fn texts_are_utf8() {
    let mut entry = text(&[b'a', 0xFF]);
    entry.extend(4u32.to_le_bytes());
    entry.extend(1u32.to_le_bytes());
    assert_eq!(error_of(file(0, 1, &entry)), GgufError::InvalidUtf8(32));
    let mut entry = text("schl\u{fc}ssel".as_bytes());
    entry.extend(4u32.to_le_bytes());
    entry.extend(7u32.to_le_bytes());
    let parsed = GgufFile::from_bytes(file(0, 1, &entry)).unwrap();
    assert_eq!(parsed.metadata.get_u32("schl\u{fc}ssel"), Some(7));
}

#[test]
fn every_kind_of_value_is_read() {
    let mut rest = Vec::new();
    let mut entry = |key: &str, kind: u32, value: &[u8]| {
        rest.extend(text(key.as_bytes()));
        rest.extend(kind.to_le_bytes());
        rest.extend(value);
    };
    entry("u8", 0, &[200]);
    entry("i8", 1, &[200]);
    entry("u16", 2, &[1, 2]);
    entry("i16", 3, &[0xFE, 0xFF]);
    entry("u32", 4, &[1, 0, 0, 0]);
    entry("i32", 5, &[0xFF, 0xFF, 0xFF, 0xFF]);
    entry("f32", 6, &1.5f32.to_le_bytes());
    entry("bool", 7, &[2]);
    entry("string", 8, &text(b"x"));
    let mut array = 0u32.to_le_bytes().to_vec();
    array.extend(2u64.to_le_bytes());
    array.extend([7, 8]);
    entry("array", 9, &array);
    entry("u64", 10, &[1, 0, 0, 0, 0, 0, 0, 1]);
    entry("i64", 11, &[0xFF; 8]);
    entry("f64", 12, &2.5f64.to_le_bytes());
    let md = GgufFile::from_bytes(file(0, 13, &rest)).unwrap().metadata;
    assert_eq!(md.len(), 13);
    assert_eq!(md.get("u8"), Some(&GgufMetadataValue::Uint8(200)));
    assert_eq!(md.get("i8"), Some(&GgufMetadataValue::Int8(-56)));
    assert_eq!(md.get("u16"), Some(&GgufMetadataValue::Uint16(0x0201)));
    assert_eq!(md.get("i16"), Some(&GgufMetadataValue::Int16(-2)));
    assert_eq!(md.get("u32"), Some(&GgufMetadataValue::Uint32(1)));
    assert_eq!(md.get("i32"), Some(&GgufMetadataValue::Int32(-1)));
    assert_eq!(md.get("f32"), Some(&GgufMetadataValue::Float32(1.5f32.to_bits())));
    assert_eq!(md.get("bool"), Some(&GgufMetadataValue::Bool(true)));
    assert_eq!(md.get_string("string"), Some("x"));
    assert_eq!(
        md.get("array"),
        Some(&GgufMetadataValue::Array(vec![
            GgufMetadataValue::Uint8(7),
            GgufMetadataValue::Uint8(8)
        ]))
    );
    assert_eq!(md.get_u64("u64"), Some(0x0100_0000_0000_0001));
    assert_eq!(md.get("i64"), Some(&GgufMetadataValue::Int64(-1)));
    assert_eq!(md.get("f64"), Some(&GgufMetadataValue::Float64(2.5f64.to_bits())));
}

#[test]
fn value_types_have_numbers() {
    for v in 0..13 {
        assert_eq!(GgufMetadataValueType::from_u32(v).unwrap().to_u32(), v);
    }
    assert_eq!(GgufMetadataValueType::from_u32(13), None);
    for v in 0..40 {
        if let Some(t) = GgufType::from_u32(v) {
            assert_eq!(t.to_u32(), v);
        }
    }
    assert_eq!(GgufType::Q4_K.name(), "Q4_K");
    assert_eq!(GgufType::BF16.name(), "BF16");
}

#[test]
fn a_later_entry_with_the_same_key_counts() {
    let md = GgufMetadata::new(vec![
        ("a".to_string(), GgufMetadataValue::Uint32(1)),
        ("a".to_string(), GgufMetadataValue::Uint32(2)),
        ("b".to_string(), GgufMetadataValue::Bool(true)),
    ]);
    assert_eq!(md.get_u32("a"), Some(2));
    assert_eq!(md.len(), 2);
    assert_eq!(md.iter().len(), 2);
    assert_eq!(md.get_bool("b"), Some(true));
    assert!(GgufMetadata::new(vec![]).is_empty());
}

#[test]
fn arrays_of_floats() {
    let data = GgufBuilder::new()
        .add_f32_array("scores", &[1.0f32.to_bits(), (-2.0f32).to_bits()])
        .add_string("text", "x")
        .build();
    let md = GgufFile::from_bytes(data).unwrap().metadata;
    assert_eq!(md.get_array_f32("scores"), Some(vec![0x3F80_0000, 0xC000_0000]));
    assert_eq!(md.get_array_f32("text"), None);
    assert_eq!(md.get_array_string("scores"), None);
}

#[test]
fn alignment_is_taken_from_the_metadata() {
    let data = GgufBuilder::new()
        .add_u32("general.alignment", 64)
        .add_tensor("t", &[1], GgufType::F32, vec![1, 2, 3, 4])
        .build();
    let parsed = GgufFile::from_bytes(data).unwrap();
    assert_eq!(parsed.data_offset % 64, 0);
}

#[test]
fn several_tensors_come_back_with_their_data() {
    let data = GgufBuilder::new()
        .add_tensor("a", &[3], GgufType::I8, vec![1, 2, 3])
        .add_tensor("b", &[2], GgufType::I16, vec![4, 5, 6, 7])
        .add_tensor("a", &[1], GgufType::I8, vec![9])
        .build();
    let parsed = GgufFile::from_bytes(data).unwrap();
    assert_eq!(parsed.tensor_data(&parsed.tensors[0]), &[1, 2, 3]);
    assert_eq!(parsed.tensor_data(&parsed.tensors[1]), &[4, 5, 6, 7]);
    assert_eq!(parsed.tensor_data(&parsed.tensors[2]), &[9]);
    // The first of two tensors with one name is found.
    assert_eq!(parsed.tensor_data(parsed.find_tensor("a").unwrap()), &[1, 2, 3]);
    assert!(parsed.find_tensor("c").is_none());
    assert_eq!(parsed.mmap_bytes()[..4], GGUF_MAGIC.to_le_bytes());
}

fn strings(texts: &[&str]) -> GgufMetadataValue {
    GgufMetadataValue::Array(
        texts.iter().map(|t| GgufMetadataValue::String(t.to_string())).collect(),
    )
}

#[test]
fn tokenizers_need_tokens() {
    let missing = GgufTokenizer::from_metadata(&GgufMetadata::new(vec![]));
    assert!(matches!(missing, Err(TokenizerError::MissingField("tokenizer.ggml.tokens"))));
    let md = GgufMetadata::new(vec![(
        "tokenizer.ggml.tokens".to_string(),
        GgufMetadataValue::Uint32(1),
    )]);
    assert!(matches!(GgufTokenizer::from_metadata(&md), Err(TokenizerError::MissingField(_))));
}

#[test]
fn merges_without_a_space_are_refused() {
    let md = GgufMetadata::new(vec![
        ("tokenizer.ggml.tokens".to_string(), strings(&["a", "b"])),
        ("tokenizer.ggml.merges".to_string(), strings(&["a b", "ab"])),
    ]);
    match GgufTokenizer::from_metadata(&md) {
        Err(TokenizerError::InvalidMerge(m)) => assert_eq!(m, "ab"),
        _ => panic!("the second merge has no space"),
    }
}

#[test]
fn a_default_builder_has_no_version() {
    assert_eq!(error_of(GgufBuilder::default().build()), GgufError::UnsupportedVersion(0));
}
