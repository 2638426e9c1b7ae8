use metal_attention::gguf::architectures::ModelArchitecture;
use metal_attention::gguf::builder::GgufBuilder;
use metal_attention::gguf::format::{GgufError, GGUF_MAGIC};
use metal_attention::gguf::parser::{align_up, GgufFile};
use metal_attention::gguf::quantize::GgufType;

#[test]
fn test_align_up() {
    assert_eq!(align_up(0, 32), 0);
    assert_eq!(align_up(1, 32), 32);
    assert_eq!(align_up(31, 32), 32);
    assert_eq!(align_up(32, 32), 32);
    assert_eq!(align_up(33, 32), 64);
}

#[test]
fn test_parse_minimal_gguf() {
    // Build a minimal GGUF with 1 metadata and 1 tensor
    let data = GgufBuilder::new()
        .add_string("general.architecture", "llama")
        .add_tensor_zeros("token_embd.weight", &[32, 4096], GgufType::F32)
        .build();

    let file = GgufFile::from_bytes(data).expect("parse failed");
    assert_eq!(file.version, 3);
    assert_eq!(file.metadata.get_string("general.architecture"), Some("llama"));
    assert_eq!(file.tensors.len(), 1);
    assert_eq!(file.tensors[0].name, "token_embd.weight");
    assert_eq!(file.tensors[0].shape, vec![32, 4096]);
    assert_eq!(file.tensors[0].gguf_type, GgufType::F32);
    assert_eq!(file.architecture, ModelArchitecture::Llama);
}

#[test]
fn test_parse_v2_gguf() {
    let data = GgufBuilder::new()
        .version(2)
        .add_string("general.architecture", "llama")
        .build();

    let file = GgufFile::from_bytes(data).expect("parse failed");
    assert_eq!(file.version, 2);
}

#[test]
fn test_parse_multiple_metadata_types() {
    let data = GgufBuilder::new()
        .add_string("general.architecture", "llama")
        .add_string("general.name", "TestModel")
        .add_u32("llama.block_count", 22)
        .add_f32("llama.rope.freq_base", 10000.0f32.to_bits())
        .add_bool("llama.attention.causal", true)
        .add_string_array("tokenizer.ggml.tokens", &["hello", "world"])
        .build();

    let file = GgufFile::from_bytes(data).expect("parse failed");
    assert_eq!(file.metadata.get_string("general.name"), Some("TestModel"));
    assert_eq!(file.metadata.get_u32("llama.block_count"), Some(22));
    assert_eq!(file.metadata.get_f32("llama.rope.freq_base"), Some(10000.0f32.to_bits()));
    assert_eq!(file.metadata.get_bool("llama.attention.causal"), Some(true));

    let tokens = file
        .metadata
        .get_array_string("tokenizer.ggml.tokens")
        .unwrap();
    assert_eq!(tokens, vec!["hello", "world"]);
}

#[test]
fn test_parse_multiple_tensors() {
    let data = GgufBuilder::new()
        .add_string("general.architecture", "llama")
        .add_tensor_zeros("token_embd.weight", &[32000, 4096], GgufType::F16)
        .add_tensor_zeros("blk.0.attn_q.weight", &[4096, 4096], GgufType::Q4_0)
        .add_tensor_zeros("blk.0.ffn_gate.weight", &[11008, 4096], GgufType::Q4_K_M)
        .build();

    let file = GgufFile::from_bytes(data).expect("parse failed");
    assert_eq!(file.tensors.len(), 3);

    let embd = file.find_tensor("token_embd.weight").unwrap();
    assert_eq!(embd.gguf_type, GgufType::F16);
    assert_eq!(embd.shape, vec![32000, 4096]);

    let q = file.find_tensor("blk.0.attn_q.weight").unwrap();
    assert_eq!(q.gguf_type, GgufType::Q4_0);

    let gate = file.find_tensor("blk.0.ffn_gate.weight").unwrap();
    assert_eq!(gate.gguf_type, GgufType::Q4_K_M);
}

#[test]
fn test_tensor_data_access() {
    // Create a small tensor with known data
    let tensor_data: Vec<u8> = (0..16).collect();
    let data = GgufBuilder::new()
        .add_string("general.architecture", "llama")
        .add_tensor("small", &[4], GgufType::F32, tensor_data.clone())
        .build();

    let file = GgufFile::from_bytes(data).expect("parse failed");
    let t = file.find_tensor("small").unwrap();
    let bytes = file.tensor_data(t);
    assert_eq!(bytes, &tensor_data[..]);
}

#[test]
fn test_bad_magic() {
    let mut data = vec![0u8; 32];
    // Write wrong magic
    data[0..4].copy_from_slice(&0xDEADBEEFu32.to_le_bytes());
    let result = GgufFile::from_bytes(data);
    assert!(matches!(result, Err(GgufError::BadMagic(0xDEADBEEF))));
}

#[test]
fn test_unsupported_version() {
    let mut data = vec![0u8; 32];
    data[0..4].copy_from_slice(&GGUF_MAGIC.to_le_bytes());
    data[4..8].copy_from_slice(&99u32.to_le_bytes()); // bad version
    let result = GgufFile::from_bytes(data);
    assert!(matches!(result, Err(GgufError::UnsupportedVersion(99))));
}

#[test]
fn test_architecture_detection_from_tensors() {
    // No explicit architecture metadata -- detect from tensor names
    let data = GgufBuilder::new()
        .add_string("general.name", "TestModel")
        .add_tensor_zeros("blk.0.attn_q.weight", &[64, 64], GgufType::F32)
        .add_tensor_zeros("blk.0.attn_k.weight", &[64, 64], GgufType::F32)
        .add_tensor_zeros("blk.0.attn_v.weight", &[64, 64], GgufType::F32)
        .build();

    let file = GgufFile::from_bytes(data).expect("parse failed");
    assert_eq!(file.architecture, ModelArchitecture::Llama);
}

#[test]
fn test_jamba_detection() {
    let data = GgufBuilder::new()
        .add_string("general.architecture", "jamba")
        .add_tensor_zeros("blk.0.attn_q.weight", &[64, 64], GgufType::F32)
        .add_tensor_zeros("blk.1.ssm_in.weight", &[64, 64], GgufType::F32)
        .build();

    let file = GgufFile::from_bytes(data).expect("parse failed");
    assert_eq!(file.architecture, ModelArchitecture::Jamba);
}

#[test]
fn test_data_offset_alignment() {
    // With very little header data, data_offset should be aligned to 32
    let data = GgufBuilder::new()
        .add_string("general.architecture", "llama")
        .add_tensor_zeros("w", &[4], GgufType::F32)
        .build();

    let file = GgufFile::from_bytes(data).expect("parse failed");
    assert_eq!(file.data_offset % 32, 0, "data_offset must be 32-byte aligned");
}

#[test]
fn boundaries_are_multiples_of_any_alignment() {
    assert_eq!(align_up(10, 24), 24);
    assert_eq!(align_up(24, 24), 24);
    assert_eq!(align_up(25, 24), 48);
    assert_eq!(align_up(7, 1), 7);
    assert_eq!(align_up(7, 0), 7);
    assert_eq!(align_up(usize::MAX - 1, usize::MAX), usize::MAX);
    assert_eq!(align_up(usize::MAX, 1), usize::MAX);
}

#[test]
fn files_start_with_gguf() {
    assert_eq!(GGUF_MAGIC, 0x4655_4747);
    assert_eq!(GGUF_MAGIC.to_le_bytes(), *b"GGUF");
    assert_eq!(GgufBuilder::new().build()[..4], *b"GGUF");
    let mut data = b"GGUF".to_vec();
    data.extend(3u32.to_le_bytes());
    data.extend(0u64.to_le_bytes());
    data.extend(0u64.to_le_bytes());
    let file = GgufFile::from_bytes(data).unwrap();
    assert_eq!(file.version, 3);
    assert!(file.tensors.is_empty());
    assert!(file.metadata.is_empty());
    let other = GgufFile::from_bytes(b"GUGF".to_vec());
    assert!(matches!(other, Err(GgufError::BadMagic(0x4647_5547))));
}

#[test]
fn the_data_section_starts_at_a_multiple_of_the_alignment() {
    let data = GgufBuilder::new().add_u32("general.alignment", 24).build();
    let file = GgufFile::from_bytes(data).unwrap();
    // 24 bytes of header, then key (8 + 17), type (4) and value (4).
    assert_eq!(file.data_offset, 72);
}

#[test]
fn a_file_cut_inside_its_header_ends_too_early() {
    let data = GgufBuilder::new()
        .add_string("general.architecture", "llama")
        .add_u32("llama.block_count", 32)
        .add_f32_array("scales", &[1, 2, 3])
        .add_string_array("names", &["a", "bc"])
        .add_tensor_zeros("blk.0.attn_q.weight", &[2, 2], GgufType::F32)
        .build();
    let header_end = data.len() - 16;
    let whole = GgufFile::from_bytes(data.clone()).unwrap();
    assert_eq!(whole.data_offset, header_end);
    for cut in 0..header_end - 31 {
        match GgufFile::from_bytes(data[..cut].to_vec()) {
            Err(GgufError::UnexpectedEof(p)) => assert!(p <= cut),
            _ => panic!("cut at {}", cut),
        }
    }
}
