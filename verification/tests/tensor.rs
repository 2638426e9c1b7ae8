use metal_attention::gguf::quantize::GgufType;
use metal_attention::gguf::tensor::GgufTensorInfo;

#[test]
fn test_n_elements() {
    let info = GgufTensorInfo {
        name: "test".to_string(),
        ndim: 2,
        shape: vec![4, 8],
        gguf_type: GgufType::F32,
        offset_in_data: 0,
    };
    assert_eq!(info.n_elements(), 32);
}

#[test]
fn test_byte_size_f32() {
    let info = GgufTensorInfo {
        name: "test".to_string(),
        ndim: 2,
        shape: vec![4, 8],
        gguf_type: GgufType::F32,
        offset_in_data: 0,
    };
    assert_eq!(info.byte_size(), 128); // 32 * 4
}

#[test]
fn test_byte_size_q4_0() {
    let info = GgufTensorInfo {
        name: "test".to_string(),
        ndim: 1,
        shape: vec![64],
        gguf_type: GgufType::Q4_0,
        offset_in_data: 0,
    };
    // 64 elements / 32 per block = 2 blocks * 18 bytes = 36
    assert_eq!(info.byte_size(), 36);
}

#[test]
fn test_data_slice() {
    let info = GgufTensorInfo {
        name: "w".to_string(),
        ndim: 1,
        shape: vec![1],
        gguf_type: GgufType::F32,
        offset_in_data: 8,
    };
    // Simulate mmap: data_offset=100, tensor at offset 8 within data section
    let mut buf = vec![0u8; 200];
    buf[108] = 0xAB;
    buf[109] = 0xCD;
    buf[110] = 0xEF;
    buf[111] = 0x12;
    let data = info.data(&buf, 100);
    assert_eq!(data.len(), 4);
    assert_eq!(data, &[0xAB, 0xCD, 0xEF, 0x12]);
}

#[test]
fn data_outside_the_file_is_noticed() {
    let info = |shape: Vec<u64>, gguf_type: GgufType, offset_in_data: u64| GgufTensorInfo {
        name: "t".to_string(),
        ndim: shape.len() as u32,
        shape,
        gguf_type,
        offset_in_data,
    };
    assert!(info(vec![2, 4], GgufType::F32, 0).lies_within(132, 100));
    assert!(!info(vec![2, 4], GgufType::F32, 0).lies_within(131, 100));
    assert!(!info(vec![2, 4], GgufType::F32, 1).lies_within(132, 100));
    assert!(info(vec![33], GgufType::Q4_0, 0).lies_within(36, 0));
    assert!(!info(vec![33], GgufType::Q4_0, 0).lies_within(35, 0));
    assert!(info(vec![0], GgufType::F32, 0).lies_within(4, 0));
    assert!(!info(vec![u64::MAX, 2], GgufType::I8, 0).lies_within(usize::MAX, 0));
    assert!(!info(vec![u64::MAX], GgufType::F64, 0).lies_within(usize::MAX, 0));
    assert!(!info(vec![1], GgufType::I8, u64::MAX).lies_within(usize::MAX, 1));
}
