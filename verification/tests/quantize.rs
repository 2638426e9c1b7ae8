use metal_attention::gguf::quantize::GgufType;

#[test]
fn test_from_u32_roundtrip() {
    assert_eq!(GgufType::from_u32(0), Some(GgufType::F32));
    assert_eq!(GgufType::from_u32(1), Some(GgufType::F16));
    assert_eq!(GgufType::from_u32(2), Some(GgufType::Q4_0));
    assert_eq!(GgufType::from_u32(8), Some(GgufType::Q8_0));
    assert_eq!(GgufType::from_u32(13), Some(GgufType::Q5_K));
    assert_eq!(GgufType::from_u32(14), Some(GgufType::Q6_K));
    assert_eq!(GgufType::from_u32(99), None);
}

#[test]
fn test_block_sizes() {
    assert_eq!(GgufType::F32.block_size(), 1);
    assert_eq!(GgufType::F16.block_size(), 1);
    assert_eq!(GgufType::Q4_0.block_size(), 32);
    assert_eq!(GgufType::Q8_0.block_size(), 32);
    assert_eq!(GgufType::Q4_K.block_size(), 256);
    assert_eq!(GgufType::Q6_K.block_size(), 256);
    assert_eq!(GgufType::Q8_K.block_size(), 256);
}

#[test]
fn test_bytes_per_block() {
    assert_eq!(GgufType::F32.bytes_per_block(), 4);
    assert_eq!(GgufType::F16.bytes_per_block(), 2);
    assert_eq!(GgufType::Q4_0.bytes_per_block(), 18);
    assert_eq!(GgufType::Q8_0.bytes_per_block(), 34);
    assert_eq!(GgufType::Q4_K.bytes_per_block(), 144);
    assert_eq!(GgufType::Q5_K.bytes_per_block(), 176);
    assert_eq!(GgufType::Q6_K.bytes_per_block(), 210);
    assert_eq!(GgufType::Q8_K.bytes_per_block(), 292);
}

#[test]
fn test_tensor_byte_size() {
    // 1024 F32 elements = 4096 bytes
    assert_eq!(GgufType::F32.tensor_byte_size(1024), 4096);
    // 1024 F16 elements = 2048 bytes
    assert_eq!(GgufType::F16.tensor_byte_size(1024), 2048);
    // 32 Q4_0 elements = 1 block * 18 bytes = 18
    assert_eq!(GgufType::Q4_0.tensor_byte_size(32), 18);
    // 64 Q4_0 elements = 2 blocks * 18 = 36
    assert_eq!(GgufType::Q4_0.tensor_byte_size(64), 36);
    // 256 Q4_K elements = 1 block * 144 bytes = 144
    assert_eq!(GgufType::Q4_K.tensor_byte_size(256), 144);
    assert_eq!(GgufType::Q5_K.tensor_byte_size(256), 176);
    assert_eq!(GgufType::Q6_K.tensor_byte_size(256), 210);
}
