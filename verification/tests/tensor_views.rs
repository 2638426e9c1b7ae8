use metal_attention::traits::types::{BlockConfig, DType, TensorView};

#[test]
fn test_tensor_view_construction() {
    let tv = TensorView::new(vec![4, 8], DType::F32);
    assert_eq!(tv.shape, vec![4, 8]);
    assert_eq!(tv.strides, vec![8, 1]);
    assert_eq!(tv.offset, 0);
    assert_eq!(tv.dtype, DType::F32);
    assert_eq!(tv.num_elements(), 32);
    assert_eq!(tv.size_bytes(), 128); // 32 * 4 bytes
    assert_eq!(tv.ndim(), 2);
}

#[test]
fn test_tensor_view_with_offset() {
    let tv = TensorView::with_offset(256, vec![2, 3, 4], vec![12, 4, 1], DType::F16);
    assert_eq!(tv.offset, 256);
    assert_eq!(tv.shape, vec![2, 3, 4]);
    assert_eq!(tv.strides, vec![12, 4, 1]);
    assert_eq!(tv.dtype, DType::F16);
    assert_eq!(tv.num_elements(), 24);
    assert_eq!(tv.size_bytes(), 48); // 24 * 2 bytes
}

#[test]
fn test_tensor_view_scalar() {
    let tv = TensorView::new(vec![1], DType::F32);
    assert_eq!(tv.strides, vec![1]);
    assert_eq!(tv.num_elements(), 1);
    assert_eq!(tv.size_bytes(), 4);
}

#[test]
fn test_tensor_view_3d_strides() {
    let tv = TensorView::new(vec![2, 3, 4], DType::F32);
    assert_eq!(tv.strides, vec![12, 4, 1]);
}

#[test]
fn test_dtype_sizes() {
    assert_eq!(DType::F32.size_bytes(), 4);
    assert_eq!(DType::F16.size_bytes(), 2);
    assert_eq!(DType::BF16.size_bytes(), 2);
    assert_eq!(DType::Q4_0.size_bytes(), 1);
    assert_eq!(DType::Q4_K_M.size_bytes(), 1);
    assert_eq!(DType::Q8_0.size_bytes(), 1);
}

#[test]
fn test_block_config() {
    let config = BlockConfig {
        hidden_size: 4096,
        head_dim: 128,
        num_heads: 32,
        num_kv_heads: 8,
        layer_index: 0,
    };
    assert_eq!(config.hidden_size, 4096);
    assert_eq!(config.head_dim, 128);
    assert_eq!(config.num_heads, 32);
    assert_eq!(config.num_kv_heads, 8);
    assert_eq!(config.layer_index, 0);
}

#[test]
fn test_type_sizes() {
    // TensorView should be reasonably small (heap-allocated vecs)
    assert!(std::mem::size_of::<DType>() <= 1);
    assert!(std::mem::size_of::<BlockConfig>() <= 48);
}
