use metal_attention::gguf::architectures::{map_tensor_name, ModelArchitecture, WeightRole};
use metal_attention::models::flash_attn::{FlashAttentionLayer, DEFAULT_MAX_SEQ};
use metal_attention::models::heads::{attention_path, merge_heads, AttentionPath};
use metal_attention::models::llama::LlamaLayer;
use metal_attention::models::weights::{WeightRange, LARGEST_DRAW};
use metal_attention::traits::attention::{KVCacheMode, PositionEncoding, SoftmaxAttention};
use metal_attention::traits::sequence::SequenceBlock;
use metal_attention::traits::types::{BlockConfig, DType, TensorView};

/// The weight at a fraction of a range.
fn to_weight(number: u32, range: WeightRange) -> u32 {
    let fraction = number as f32 / LARGEST_DRAW as f32;
    let (lo, hi) = match range {
        WeightRange::Unit => (0.0, 1.0),
        WeightRange::Scaled { fan } => {
            let scale = 1.0 / (fan as f32).sqrt();
            (-scale, scale)
        }
        WeightRange::Decay => (-1.0, 0.0),
        WeightRange::NearZero => (-0.01, 0.01),
    };
    let weight: f32 = lo + fraction * (hi - lo);
    weight.to_bits()
}

fn make_config(
    hidden_size: usize,
    head_dim: usize,
    num_heads: usize,
    num_kv_heads: usize,
) -> BlockConfig {
    BlockConfig {
        hidden_size,
        head_dim,
        num_heads,
        num_kv_heads,
        layer_index: 0,
    }
}

#[test]
fn test_flash_attn_trait_compliance() {
    let layer = FlashAttentionLayer::random(32, 16, 2, 2, 42, &to_weight);
    let config = make_config(32, 16, 2, 2);
    let state = layer.init_state(&config);

    // SoftmaxAttention trait methods
    assert_eq!(layer.cached_length(&state), 0);
    assert_eq!(layer.max_length(&state), DEFAULT_MAX_SEQ);
    assert_eq!(layer.position_encoding(), PositionEncoding::NoEncoding);
    assert_eq!(layer.cache_mode(), KVCacheMode::Dense);
    assert_eq!(layer.gqa_config().group_size, 1);

    // State size
    let size = layer.state_size_bytes(&config);
    assert!(size > 0);
}

#[test]
fn test_flash_attn_gqa_config() {
    // GQA: 8 Q heads, 2 KV heads -> group_size = 4
    let layer = FlashAttentionLayer::random(64, 16, 8, 2, 999, &to_weight);
    assert_eq!(layer.gqa_config().group_size, 4);
}

#[test]
fn test_llama_weight_name_mapping() {
    let arch = ModelArchitecture::Llama;

    // Attention weights
    assert_eq!(
        map_tensor_name(arch, "blk.0.attn_q.weight"),
        Some((Some(0), WeightRole::QProj))
    );
    assert_eq!(
        map_tensor_name(arch, "blk.0.attn_k.weight"),
        Some((Some(0), WeightRole::KProj))
    );
    assert_eq!(
        map_tensor_name(arch, "blk.0.attn_v.weight"),
        Some((Some(0), WeightRole::VProj))
    );
    assert_eq!(
        map_tensor_name(arch, "blk.0.attn_output.weight"),
        Some((Some(0), WeightRole::OutProj))
    );

    // FFN weights
    assert_eq!(
        map_tensor_name(arch, "blk.5.ffn_gate.weight"),
        Some((Some(5), WeightRole::GateProj))
    );
    assert_eq!(
        map_tensor_name(arch, "blk.5.ffn_up.weight"),
        Some((Some(5), WeightRole::UpProj))
    );
    assert_eq!(
        map_tensor_name(arch, "blk.5.ffn_down.weight"),
        Some((Some(5), WeightRole::DownProj))
    );

    // Norms
    assert_eq!(
        map_tensor_name(arch, "blk.0.attn_norm.weight"),
        Some((Some(0), WeightRole::AttnNorm))
    );
    assert_eq!(
        map_tensor_name(arch, "blk.0.ffn_norm.weight"),
        Some((Some(0), WeightRole::FfnNorm))
    );
}

#[test]
fn test_llama_trait_compliance() {
    let hidden_size = 32;
    let head_dim = 16;
    let num_heads = 2;
    let num_kv_heads = 2;

    let layer = LlamaLayer::random(hidden_size, head_dim, num_heads, num_kv_heads, 42, &to_weight);
    let config = make_config(hidden_size, head_dim, num_heads, num_kv_heads);

    let state = layer.init_state(&config);
    assert!(
        layer.state_size_bytes(&config) > 0,
        "State size should be positive"
    );

    // Verify state was properly initialized
    assert_eq!(state.attn_state.kv_cache.len(), 0);
}

#[test]
fn attention_outputs_have_the_hidden_size() {
    let layer = FlashAttentionLayer::random(32, 16, 2, 2, 42, &to_weight);
    let config = make_config(32, 16, 2, 2);
    let mut state = layer.init_state(&config);
    let q = TensorView::new(vec![5, 32], DType::F32);
    let out = layer.prefill_attention(&q, &q, &q, &mut state, &config);
    assert_eq!(out.shape, vec![5, 32]);
    let out = layer.decode_attention(&q, &q, &q, &mut state, &config);
    assert_eq!(out.shape, vec![1, 32]);
    assert_eq!(layer.state_size_bytes(&config), 2 * 2048 * 2 * 16 * 4);
    assert_eq!(layer.forward_prefill(&q, &mut state, &config).shape, vec![5, 32]);
}

#[test]
fn path_follows_the_lengths() {
    assert_eq!(attention_path(8, 8), Some(AttentionPath::Prefill));
    assert_eq!(attention_path(1, 1), Some(AttentionPath::Prefill));
    assert_eq!(attention_path(1, 9), Some(AttentionPath::Decode));
    assert_eq!(attention_path(2, 9), None);
}

#[test]
fn heads_are_split_and_merged() {
    // Two tokens, two heads of two elements each.
    let layer = FlashAttentionLayer::random(4, 2, 2, 1, 1, &to_weight);
    let data = [1, 2, 3, 4, 5, 6, 7, 8];
    let heads = layer.split_heads(&data, 2, 2);
    assert_eq!(heads, vec![vec![1, 2, 5, 6], vec![3, 4, 7, 8]]);
    assert_eq!(merge_heads(&heads, 2, 2), data);
}

#[test]
fn query_heads_share_the_heads_of_their_group() {
    let layer = FlashAttentionLayer::random(8, 1, 4, 2, 1, &to_weight);
    assert_eq!(
        layer.expand_kv_per_head(&[vec![10], vec![20]]),
        vec![vec![10], vec![10], vec![20], vec![20]]
    );
    let (q, k, v) = layer.head_inputs(&[1, 2, 3, 4, 5, 6, 7, 8], &[1, 2, 3, 4], &[5, 6, 7, 8], 2);
    assert_eq!(q, vec![vec![1, 5], vec![2, 6], vec![3, 7], vec![4, 8]]);
    assert_eq!(k, vec![vec![1, 3], vec![1, 3], vec![2, 4], vec![2, 4]]);
    assert_eq!(v, vec![vec![5, 7], vec![5, 7], vec![6, 8], vec![6, 8]]);
    let equal = FlashAttentionLayer::random(8, 1, 2, 2, 1, &to_weight);
    assert_eq!(equal.expand_kv_per_head(&[vec![10], vec![20]]), vec![vec![10], vec![20]]);
}

#[test]
fn random_layers_follow_the_seed() {
    let a = LlamaLayer::random(4, 2, 2, 1, 7, &to_weight);
    let b = LlamaLayer::random(4, 2, 2, 1, 7, &to_weight);
    let c = LlamaLayer::random(4, 2, 2, 1, 8, &to_weight);
    assert_eq!(a.w_gate, b.w_gate);
    assert_eq!(a.attention.w_q, b.attention.w_q);
    assert_ne!(a.w_gate, c.w_gate);
    // The attention sub-layer has the next seed.
    let inner = FlashAttentionLayer::random(4, 2, 2, 1, 8, &to_weight);
    assert_eq!(a.attention.w_q, inner.w_q);
    assert_eq!(a.attention.w_o, inner.w_o);
    assert_eq!(a.attn_norm_weight, vec![1.0f32.to_bits(); 4]);
    assert_eq!(a.intermediate_size, 16);
    assert_eq!(a.w_down.len(), 64);
    assert_eq!(a.attention.w_k.len(), 8);
}

#[test]
fn rotary_bases_are_compared_as_floats() {
    let rope = |x: f32| PositionEncoding::RoPE { theta_base: x.to_bits() };
    assert_eq!(rope(10000.0), rope(10000.0));
    assert_eq!(rope(0.0), rope(-0.0));
    assert_ne!(rope(1.0), rope(-1.0));
    assert_ne!(rope(f32::NAN), rope(f32::NAN));
    assert_ne!(rope(0.0), PositionEncoding::NoEncoding);
    assert_eq!(PositionEncoding::ALiBi, PositionEncoding::ALiBi);
    assert_ne!(PositionEncoding::ALiBi, PositionEncoding::NoEncoding);
}
