use std::mem;

use metal_attention::kernels::types::{AttentionParams, LayerParams, SSMParams};

#[test]
fn test_default_attention_params() {
    let params = AttentionParams::default();
    assert_eq!(params.seq_len, 256);
    assert_eq!(params.head_dim, 64);
    assert!((f32::from_bits(params.scale) - 0.125).abs() < 1e-6);
}

#[test]
fn test_flash_constructor() {
    let params = AttentionParams::flash(512, 128, 8, (1.0 / (128.0_f32).sqrt()).to_bits());
    assert_eq!(params.seq_len, 512);
    assert_eq!(params.head_dim, 128);
    assert_eq!(params.num_heads, 8);
    assert_eq!(params.num_kv_heads, 8);
    assert!((f32::from_bits(params.scale) - 1.0 / (128.0_f32).sqrt()).abs() < 1e-6);
}

#[test]
fn test_gqa_constructor() {
    let params = AttentionParams::gqa(1024, 64, 32, 8, 0.125f32.to_bits());
    assert_eq!(params.num_heads, 32);
    assert_eq!(params.num_kv_heads, 8);
    assert_eq!(params.variant, 3);
}

#[test]
fn test_paged_constructor() {
    let params = AttentionParams::paged(2048, 64, 16, 32, 128, 4096, 4, 0.125f32.to_bits());
    assert_eq!(params.page_size, 32);
    assert_eq!(params.num_pages, 128);
    assert_eq!(params.max_context_len, 4096);
    assert_eq!(params.num_partitions, 4);
}

#[test]
fn test_default_layer_params() {
    let params = LayerParams::default();
    assert_eq!(params.hidden_dim, 4096);
    assert_eq!(params.num_layers, 32);
    assert!((f32::from_bits(params.rms_norm_eps) - 1e-5).abs() < 1e-10);
    assert!((f32::from_bits(params.rope_theta) - 10000.0).abs() < 1e-3);
}

#[test]
fn test_default_ssm_params() {
    let params = SSMParams::default();
    assert_eq!(params.state_dim, 16);
    assert_eq!(params.conv_width, 4);
    assert!((f32::from_bits(params.dt_min) - 0.001).abs() < 1e-6);
    assert!((f32::from_bits(params.dt_max) - 0.1).abs() < 1e-6);
}

#[test]
fn test_attention_params_layout() {
    assert_eq!(mem::size_of::<AttentionParams>(), 64);
    assert_eq!(mem::align_of::<AttentionParams>(), 4);

    let params = AttentionParams {
        seq_len: 1,
        head_dim: 2,
        num_heads: 3,
        num_kv_heads: 4,
        block_r: 5,
        block_c: 6,
        scale: 7,
        variant: 8,
        page_size: 9,
        num_pages: 10,
        max_context_len: 11,
        num_partitions: 12,
        _pad0: 13,
        _pad1: 14,
        _pad2: 15,
        _pad3: 16,
    };
    let words = params.to_words();
    assert_eq!(words, (1..=16).collect::<Vec<u32>>());
    let offset_of = |field: u32| 4 * words.iter().position(|word| *word == field).unwrap();
    assert_eq!(offset_of(params.seq_len), 0);
    assert_eq!(offset_of(params.head_dim), 4);
    assert_eq!(offset_of(params.num_heads), 8);
    assert_eq!(offset_of(params.num_kv_heads), 12);
    assert_eq!(offset_of(params.block_r), 16);
    assert_eq!(offset_of(params.block_c), 20);
    assert_eq!(offset_of(params.scale), 24);
    assert_eq!(offset_of(params.variant), 28);
    assert_eq!(offset_of(params.page_size), 32);
    assert_eq!(offset_of(params.num_pages), 36);
    assert_eq!(offset_of(params.max_context_len), 40);
    assert_eq!(offset_of(params.num_partitions), 44);
    assert_eq!(offset_of(params._pad0), 48);
    assert_eq!(offset_of(params._pad1), 52);
    assert_eq!(offset_of(params._pad2), 56);
    assert_eq!(offset_of(params._pad3), 60);
}

#[test]
fn test_layer_params_layout() {
    assert_eq!(mem::size_of::<LayerParams>(), 64);
    assert_eq!(mem::align_of::<LayerParams>(), 4);

    let params = LayerParams {
        hidden_dim: 1,
        intermediate_dim: 2,
        num_heads: 3,
        num_kv_heads: 4,
        head_dim: 5,
        vocab_size: 6,
        layer_idx: 7,
        num_layers: 8,
        rms_norm_eps: 9,
        rope_theta: 10,
        seq_len: 11,
        batch_size: 12,
        _pad0: 13,
        _pad1: 14,
        _pad2: 15,
        _pad3: 16,
    };
    let words = params.to_words();
    assert_eq!(words, (1..=16).collect::<Vec<u32>>());
    let offset_of = |field: u32| 4 * words.iter().position(|word| *word == field).unwrap();
    assert_eq!(offset_of(params.hidden_dim), 0);
    assert_eq!(offset_of(params.intermediate_dim), 4);
    assert_eq!(offset_of(params.num_heads), 8);
    assert_eq!(offset_of(params.num_kv_heads), 12);
    assert_eq!(offset_of(params.head_dim), 16);
    assert_eq!(offset_of(params.vocab_size), 20);
    assert_eq!(offset_of(params.layer_idx), 24);
    assert_eq!(offset_of(params.num_layers), 28);
    assert_eq!(offset_of(params.rms_norm_eps), 32);
    assert_eq!(offset_of(params.rope_theta), 36);
    assert_eq!(offset_of(params.seq_len), 40);
    assert_eq!(offset_of(params.batch_size), 44);
    assert_eq!(offset_of(params._pad0), 48);
    assert_eq!(offset_of(params._pad1), 52);
    assert_eq!(offset_of(params._pad2), 56);
    assert_eq!(offset_of(params._pad3), 60);
}

#[test]
fn test_ssm_params_layout() {
    assert_eq!(mem::size_of::<SSMParams>(), 64);
    assert_eq!(mem::align_of::<SSMParams>(), 4);

    let params = SSMParams {
        state_dim: 1,
        hidden_dim: 2,
        intermediate_dim: 3,
        num_heads: 4,
        head_dim: 5,
        seq_len: 6,
        batch_size: 7,
        conv_width: 8,
        dt_min: 9,
        dt_max: 10,
        layer_idx: 11,
        num_layers: 12,
        _pad0: 13,
        _pad1: 14,
        _pad2: 15,
        _pad3: 16,
    };
    let words = params.to_words();
    assert_eq!(words, (1..=16).collect::<Vec<u32>>());
    let offset_of = |field: u32| 4 * words.iter().position(|word| *word == field).unwrap();
    assert_eq!(offset_of(params.state_dim), 0);
    assert_eq!(offset_of(params.hidden_dim), 4);
    assert_eq!(offset_of(params.intermediate_dim), 8);
    assert_eq!(offset_of(params.num_heads), 12);
    assert_eq!(offset_of(params.head_dim), 16);
    assert_eq!(offset_of(params.seq_len), 20);
    assert_eq!(offset_of(params.batch_size), 24);
    assert_eq!(offset_of(params.conv_width), 28);
    assert_eq!(offset_of(params.dt_min), 32);
    assert_eq!(offset_of(params.dt_max), 36);
    assert_eq!(offset_of(params.layer_idx), 40);
    assert_eq!(offset_of(params.num_layers), 44);
    assert_eq!(offset_of(params._pad0), 48);
    assert_eq!(offset_of(params._pad1), 52);
    assert_eq!(offset_of(params._pad2), 56);
    assert_eq!(offset_of(params._pad3), 60);
}
