use metal_attention::models::mamba::MambaBlock;
use metal_attention::models::rwkv7::Rwkv7Block;
use metal_attention::models::weights::{WeightRange, LARGEST_DRAW};
use metal_attention::traits::linear::LinearSequenceModel;
use metal_attention::traits::sequence::SequenceBlock;
use metal_attention::traits::types::{BlockConfig, DType, TensorView};

/// The weight at a fraction of a range.
fn to_weight(number: u32, range: WeightRange) -> u32 {
    let fraction = number as f32 / LARGEST_DRAW as f32;
    let (lo, hi) = match range {
        WeightRange::Unit => (0.0, 1.0),
        WeightRange::Scaled { fan } => {
            let scale = 1.0 / (fan as f32).sqrt();
            (-scale, scale)
        }
        WeightRange::Decay => (-1.0, 0.0),
        WeightRange::NearZero => (-0.01, 0.01),
    };
    let weight: f32 = lo + fraction * (hi - lo);
    weight.to_bits()
}

#[test]
fn test_mamba_trait_compliance() {
    let hidden_size = 16;
    let d_state = 4;
    let block = MambaBlock::random(hidden_size, d_state, 789, &to_weight);

    let config = BlockConfig {
        hidden_size,
        head_dim: hidden_size,
        num_heads: 1,
        num_kv_heads: 1,
        layer_index: 0,
    };

    // SequenceBlock
    let mut state = block.init_state(&config);
    let input = TensorView::new(vec![1, hidden_size], DType::F32);

    let out = block.forward_decode(&input, &mut state, &config);
    assert_eq!(out.shape, vec![1, hidden_size]);
    assert_eq!(out.dtype, DType::F32);

    // State size
    let size = block.state_size_bytes(&config);
    assert!(size > 0);

    // LinearSequenceModel
    assert_eq!(block.max_head_dim(), 64);
    assert_eq!(block.optimal_chunk_size(16), 1);
}

/// Test: Rwkv7Block implements SequenceBlock and LinearSequenceModel traits.
#[test]
fn test_rwkv7_trait_compliance() {
    let block = Rwkv7Block::random(16, 16, 1, 789, &to_weight);

    let config = BlockConfig {
        hidden_size: 16,
        head_dim: 16,
        num_heads: 1,
        num_kv_heads: 1,
        layer_index: 0,
    };

    // SequenceBlock
    let mut state = block.init_state(&config);
    let input = TensorView::new(vec![1, 16], DType::F32);

    let out = block.forward_decode(&input, &mut state, &config);
    assert_eq!(out.shape, vec![1, 16]);
    assert_eq!(out.dtype, DType::F32);

    let prefill_input = TensorView::new(vec![4, 16], DType::F32);
    let out2 = block.forward_prefill(&prefill_input, &mut state, &config);
    assert_eq!(out2.shape, vec![4, 16]);

    // State size
    let size = block.state_size_bytes(&config);
    assert!(size > 0);

    // LinearSequenceModel
    let chunk_out = block.prefill_chunked(&prefill_input, &mut state, &config, 2);
    assert_eq!(chunk_out.shape, vec![4, 16]);

    let step_out = block.decode_step(&input, &mut state, &config);
    assert_eq!(step_out.shape, vec![1, 16]);

    assert_eq!(block.max_head_dim(), 64);
    assert_eq!(block.optimal_chunk_size(16), 1);
}

#[test]
fn fresh_states_are_zeros_of_the_right_size() {
    let config = BlockConfig {
        hidden_size: 8,
        head_dim: 4,
        num_heads: 2,
        num_kv_heads: 2,
        layer_index: 0,
    };
    let mamba = MambaBlock::random(8, 3, 1, &to_weight);
    assert_eq!(mamba.init_state(&config).ssm_state, vec![0u32; 16 * 3]);
    assert_eq!(mamba.state_size_bytes(&config), 16 * 3 * 4);
    let rwkv = Rwkv7Block::random(8, 4, 2, 1, &to_weight);
    let state = rwkv.init_state(&config);
    assert_eq!(state.wkv_state, vec![0u32; 2 * 4 * 4]);
    assert_eq!(state.prev_token, vec![0u32; 8]);
    assert_eq!(rwkv.state_size_bytes(&config), (2 * 4 * 4 + 8) * 4);
}

#[test]
fn mamba_weights_have_their_shapes() {
    let block = MambaBlock::random(4, 3, 9, &to_weight);
    assert_eq!(block.d_inner, 8);
    assert_eq!(block.w_in.len(), 32);
    assert_eq!(block.w_gate.len(), 32);
    assert_eq!(block.w_out.len(), 32);
    assert_eq!(block.a_log.len(), 8);
    assert_eq!(block.w_b.len(), 24);
    assert_eq!(block.w_c.len(), 24);
    assert_eq!(block.d_skip, 1.0f32.to_bits());
    assert!(block.use_gpu);
    assert!(block.a_log.iter().all(|w| (-1.0..=0.0).contains(&f32::from_bits(*w))));
}

#[test]
fn rwkv_head_states_are_kept_apart() {
    let block = Rwkv7Block::random(4, 2, 2, 5, &to_weight);
    assert!(!block.is_single_head());
    assert!(Rwkv7Block::random(4, 4, 1, 5, &to_weight).is_single_head());
    let config = BlockConfig {
        hidden_size: 4,
        head_dim: 2,
        num_heads: 2,
        num_kv_heads: 2,
        layer_index: 0,
    };
    let mut state = block.init_state(&config);
    block.set_head_state(&mut state, 1, &[1, 2, 3, 4]);
    assert_eq!(block.head_state(&state, 0), vec![0, 0, 0, 0]);
    assert_eq!(block.head_state(&state, 1), vec![1, 2, 3, 4]);
    assert_eq!(block.head_part(&[5, 6, 7, 8], 1), vec![7, 8]);
}
