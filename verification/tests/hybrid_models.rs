use metal_attention::float_order::is_greater;
use metal_attention::gguf::architectures::ModelArchitecture;
use metal_attention::models::gating::select_top2;
use metal_attention::models::griffin::{build_griffin_layers, GriffinLayer, GriffinLayerState};
use metal_attention::models::jamba::{build_jamba_layers, JambaLayer, MoEFFN};
use metal_attention::models::llama::LlamaLayer;
use metal_attention::models::mamba::MambaBlock;
use metal_attention::models::rg_lru::RgLruBlock;
use metal_attention::models::steps::LayerStep;
use metal_attention::models::weights::{WeightRange, LARGEST_DRAW};
use metal_attention::models::zamba::{build_zamba_model, LoraProjector, ZambaLayer, ZambaLayerState};
use metal_attention::traits::schedule::LayerType;
use metal_attention::traits::linear::LinearSequenceModel;
use metal_attention::traits::sequence::SequenceBlock;
use metal_attention::traits::types::{BlockConfig, DType, TensorView};

/// The weight at a fraction of a range.
fn to_weight(number: u32, range: WeightRange) -> u32 {
    let fraction = number as f32 / LARGEST_DRAW as f32;
    let (lo, hi) = match range {
        WeightRange::Unit => (0.0, 1.0),
        WeightRange::Scaled { fan } => {
            let scale = 1.0 / (fan as f32).sqrt();
            (-scale, scale)
        }
        WeightRange::Decay => (-1.0, 0.0),
        WeightRange::NearZero => (-0.01, 0.01),
    };
    let weight: f32 = lo + fraction * (hi - lo);
    weight.to_bits()
}

fn make_config(
    hidden_size: usize,
    head_dim: usize,
    num_heads: usize,
    num_kv_heads: usize,
) -> BlockConfig {
    BlockConfig {
        hidden_size,
        head_dim,
        num_heads,
        num_kv_heads,
        layer_index: 0,
    }
}

#[test]
fn test_griffin_layer_schedule_2_1() {
    let hidden_size = 16;
    let head_dim = 8;
    let num_heads = 2;
    let num_kv_heads = 2;
    let num_layers = 9;

    let (layers, schedule) = build_griffin_layers(
        hidden_size,
        head_dim,
        num_heads,
        num_kv_heads,
        num_layers,
        42,
        &to_weight,
    );

    assert_eq!(layers.len(), num_layers);

    // Verify 2:1 pattern: layers 0-1 RG-LRU, layer 2 Attention, 3-4 RG-LRU, 5 Attention, ...
    for (i, layer) in layers.iter().enumerate() {
        let expected_type = schedule.layer_type(i).unwrap();
        match expected_type {
            LayerType::Linear => {
                assert!(
                    layer.is_rglru(),
                    "Layer {} should be RG-LRU, got Attention",
                    i
                );
            }
            LayerType::Attention => {
                assert!(
                    layer.is_attention(),
                    "Layer {} should be Attention, got RG-LRU",
                    i
                );
            }
        }
    }

    // Count: 6 RG-LRU, 3 Attention for 9 layers (indices 2,5,8 are attention)
    let rglru_count = layers.iter().filter(|l| l.is_rglru()).count();
    let attn_count = layers.iter().filter(|l| l.is_attention()).count();
    assert_eq!(rglru_count, 6, "Should have 6 RG-LRU layers");
    assert_eq!(attn_count, 3, "Should have 3 Attention layers");
}

#[test]
fn test_griffin_rglru_trait_compliance() {
    let hidden_size = 16;
    let block = RgLruBlock::random(hidden_size, 789, &to_weight);

    let config = make_config(hidden_size, hidden_size, 1, 1);

    // SequenceBlock
    let mut state = block.init_state(&config);
    let input = TensorView::new(vec![1, hidden_size], DType::F32);

    let out = block.forward_decode(&input, &mut state, &config);
    assert_eq!(out.shape, vec![1, hidden_size]);
    assert_eq!(out.dtype, DType::F32);

    // State size
    let size = block.state_size_bytes(&config);
    assert!(size > 0);
    assert_eq!(size, hidden_size * std::mem::size_of::<f32>());

    // LinearSequenceModel
    assert_eq!(block.max_head_dim(), 64);
    assert_eq!(block.optimal_chunk_size(16), 1);
}

#[test]
fn test_griffin_architecture_detection() {
    // Verify Griffin architecture is detected from GGUF metadata

    let arch = ModelArchitecture::from_str_name("griffin");
    assert_eq!(arch, ModelArchitecture::Griffin);

    let arch = ModelArchitecture::from_str_name("recurrentgemma");
    assert_eq!(arch, ModelArchitecture::Griffin);
}

#[test]
fn test_jamba_layer_schedule_7_1() {
    let hidden_size = 16;
    let head_dim = 8;
    let num_heads = 2;
    let num_kv_heads = 2;
    let num_layers = 16;
    let d_state = 4;
    let num_experts = 16;

    let (layers, schedule) = build_jamba_layers(
        hidden_size, head_dim, num_heads, num_kv_heads,
        num_layers, d_state, num_experts, 42, &to_weight,
    );

    assert_eq!(layers.len(), num_layers);

    // Verify 7:1 pattern: layers 0-6 Mamba, layer 7 Attention, 8-14 Mamba, 15 Attention
    for (i, layer) in layers.iter().enumerate() {
        let expected_type = schedule.layer_type(i).unwrap();
        match expected_type {
            LayerType::Linear => {
                assert!(
                    layer.is_mamba(),
                    "Layer {} should be Mamba, got Attention",
                    i
                );
            }
            LayerType::Attention => {
                assert!(
                    layer.is_attention(),
                    "Layer {} should be Attention, got Mamba",
                    i
                );
            }
        }
    }

    // Count: 14 Mamba, 2 Attention for 16 layers
    let mamba_count = layers.iter().filter(|l| l.is_mamba()).count();
    let attn_count = layers.iter().filter(|l| l.is_attention()).count();
    assert_eq!(mamba_count, 14, "Should have 14 Mamba layers");
    assert_eq!(attn_count, 2, "Should have 2 Attention layers");
}

#[test]
fn test_zamba_layer_schedule_6_1() {
    let hidden_size = 16;
    let head_dim = 8;
    let num_heads = 2;
    let num_kv_heads = 2;
    let num_layers = 14;
    let d_state = 4;
    let lora_rank = 4;

    let model = build_zamba_model(
        hidden_size,
        head_dim,
        num_heads,
        num_kv_heads,
        num_layers,
        d_state,
        lora_rank,
        42,
        &to_weight,
    );

    assert_eq!(model.layers.len(), num_layers);

    // Verify 6:1 pattern
    for (i, layer) in model.layers.iter().enumerate() {
        let expected_type = model.schedule.layer_type(i).unwrap();
        match expected_type {
            LayerType::Linear => {
                assert!(
                    layer.is_mamba(),
                    "Layer {} should be Mamba, got Attention",
                    i
                );
            }
            LayerType::Attention => {
                assert!(
                    layer.is_attention(),
                    "Layer {} should be Attention, got Mamba",
                    i
                );
            }
        }
    }

    // Count: 12 Mamba, 2 Attention for 14 layers
    let mamba_count = model.layers.iter().filter(|l| l.is_mamba()).count();
    let attn_count = model.layers.iter().filter(|l| l.is_attention()).count();
    assert_eq!(mamba_count, 12, "Should have 12 Mamba layers");
    assert_eq!(attn_count, 2, "Should have 2 Attention layers");

    // Verify shared attention: only one attention block
    // Verify LoRA projectors match attention count
    assert_eq!(
        model.lora_projectors.len(),
        attn_count,
        "Should have one LoRA projector per attention position"
    );
}

#[test]
fn test_zamba_shared_attention_reuse() {
    // Verify that all attention layers share the same underlying weights
    let hidden_size = 16;
    let head_dim = 8;
    let num_heads = 2;
    let num_kv_heads = 2;
    let num_layers = 14;
    let d_state = 4;
    let lora_rank = 4;

    let model = build_zamba_model(
        hidden_size,
        head_dim,
        num_heads,
        num_kv_heads,
        num_layers,
        d_state,
        lora_rank,
        42,
        &to_weight,
    );

    // The shared_attention field is a single LlamaLayer -- all attention positions
    // reference it. Verify the shared attention has the correct dimensions.
    assert_eq!(model.shared_attention.hidden_size, hidden_size);
    assert_eq!(model.shared_attention.attention.num_heads, num_heads);
    assert_eq!(model.shared_attention.attention.num_kv_heads, num_kv_heads);
    assert_eq!(model.shared_attention.attention.head_dim, head_dim);

    // All Attention layers reference attn_index 0..N-1
    let attn_indices: Vec<usize> = model
        .layers
        .iter()
        .filter_map(|l| {
            if let ZambaLayer::Attention { attn_index } = l {
                Some(*attn_index)
            } else {
                None
            }
        })
        .collect();

    // Should be sequential: 0, 1
    for (i, &idx) in attn_indices.iter().enumerate() {
        assert_eq!(idx, i, "Attention index {} should be {}", idx, i);
    }
}

#[test]
fn test_zamba_architecture_detection() {
    // Verify Zamba architecture is detected from GGUF metadata

    let arch = ModelArchitecture::from_str_name("zamba");
    assert_eq!(arch, ModelArchitecture::Zamba);

    let arch = ModelArchitecture::from_str_name("zamba2");
    assert_eq!(arch, ModelArchitecture::Zamba);
}

fn bits(floats: &[f32]) -> Vec<u32> {
    floats.iter().map(|x| x.to_bits()).collect()
}

#[test]
fn the_two_largest_logits_are_chosen() {
    assert_eq!(select_top2(&bits(&[1.0, 3.0, 0.5, 2.0, -1.0])), (1, 3));
    assert_eq!(select_top2(&bits(&[5.0, 5.0, 7.0])), (2, 0));
    assert_eq!(select_top2(&bits(&[7.0, 3.0, 7.0])), (0, 2));
    assert_eq!(select_top2(&bits(&[-2.0, -1.0])), (1, 0));
    assert_eq!(select_top2(&bits(&[0.0, -0.0])), (0, 1));
    assert_eq!(select_top2(&bits(&[f32::NAN, 1.0, 2.0])), (0, 2));
}

#[test]
fn floats_compare_by_their_bits() {
    let values = [
        f32::NEG_INFINITY,
        -3.5,
        -1.0e-40,
        -0.0,
        0.0,
        1.0e-40,
        2.0,
        f32::INFINITY,
        f32::NAN,
        -f32::NAN,
    ];
    for a in values {
        for b in values {
            assert_eq!(is_greater(a.to_bits(), b.to_bits()), a > b, "{a} > {b}");
        }
    }
}

#[test]
fn expert_weights_are_drawn_expert_by_expert() {
    let moe = MoEFFN::random(2, 3, 11, &to_weight);
    assert_eq!(moe.expert_intermediate_size, 4);
    assert_eq!(moe.w_router.len(), 6);
    // All weights in the order of the draws.
    let mut all = moe.w_router.clone();
    for e in 0..3 {
        all.extend(&moe.w_expert_gate[e]);
        all.extend(&moe.w_expert_up[e]);
        all.extend(&moe.w_expert_down[e]);
    }
    let longer = MoEFFN::random(2, 39, 11, &to_weight);
    assert_eq!(all, longer.w_router[..all.len()]);
}

#[test]
fn projectors_start_near_the_identity() {
    let p = LoraProjector::random(8, 2, 3, &to_weight);
    assert_eq!(p.w_a.len(), 16);
    assert_eq!(p.w_b.len(), 16);
    assert_eq!(p.scale, 1.0f32.to_bits());
    assert!(p.w_b.iter().all(|w| f32::from_bits(*w).abs() <= 0.01));
}

#[test]
fn layers_take_the_next_token_by_kind_and_state() {
    let config = make_config(4, 2, 2, 2);
    let recurrent = GriffinLayer::RgLru(RgLruBlock::random(4, 1, &to_weight));
    let attention = GriffinLayer::Attention(LlamaLayer::random(4, 2, 2, 2, 1, &to_weight));
    let a = recurrent.init_state(&config);
    let mut b = attention.init_state(&config);
    assert_eq!(recurrent.next_step(&a), Some(LayerStep::Recurrent));
    assert_eq!(attention.next_step(&b), Some(LayerStep::Prefill));
    assert_eq!(recurrent.next_step(&b), None);
    assert_eq!(attention.next_step(&a), None);
    if let GriffinLayerState::Attention(s) = &mut b {
        s.kv_cache.append(&[0; 4], &[0; 4]);
    }
    assert_eq!(attention.next_step(&b), Some(LayerStep::Decode));
    assert_eq!(attention.next_step(&b.clone()), Some(LayerStep::Decode));
}

#[test]
fn jamba_layers_take_the_next_token_by_kind_and_state() {
    let config = make_config(4, 2, 2, 2);
    let mamba = JambaLayer::Mamba {
        block: MambaBlock::random(4, 2, 1, &to_weight),
        moe: MoEFFN::random(4, 2, 1, &to_weight),
    };
    let attention = JambaLayer::Attention(LlamaLayer::random(4, 2, 2, 2, 1, &to_weight));
    let a = mamba.init_state(&config);
    let b = attention.init_state(&config);
    assert_eq!(mamba.next_step(&a), Some(LayerStep::Recurrent));
    assert_eq!(attention.next_step(&b.clone()), Some(LayerStep::Prefill));
    assert_eq!(mamba.next_step(&b), None);
    assert_eq!(attention.next_step(&a.clone()), None);
}

#[test]
fn zamba_states_match_their_layers() {
    let model = build_zamba_model(4, 2, 2, 2, 8, 2, 2, 42, &to_weight);
    let states = model.init_states(&make_config(4, 2, 2, 2));
    assert_eq!(states.len(), 8);
    for (i, state) in states.iter().enumerate() {
        let expected = if i == 6 { LayerStep::Prefill } else { LayerStep::Recurrent };
        assert_eq!(model.next_step(i, state), Some(expected));
        assert_eq!(matches!(state.clone(), ZambaLayerState::Attention(_)), i == 6);
    }
    assert_eq!(model.next_step(6, &states[0]), None);
}

#[test]
fn layers_have_seeds_of_their_own() {
    let (layers, _) = build_griffin_layers(4, 2, 2, 2, 3, 42, &to_weight);
    for (i, layer) in layers.iter().enumerate() {
        let seed = 42 + i as u64 * 31 + 7;
        match layer {
            GriffinLayer::RgLru(block) => {
                let same = RgLruBlock::random(4, seed, &to_weight);
                assert_eq!(block.w_in, same.w_in);
                assert_eq!(block.w_out, same.w_out);
            }
            GriffinLayer::Attention(llama) => {
                assert_eq!(llama.w_up, LlamaLayer::random(4, 2, 2, 2, seed, &to_weight).w_up);
            }
        }
    }
    let model = build_zamba_model(4, 2, 2, 2, 14, 2, 2, 42, &to_weight);
    assert_eq!(
        model.lora_projectors[1].w_a,
        LoraProjector::random(4, 2, 42 + 5000 + 37, &to_weight).w_a
    );
    assert_eq!(
        model.shared_attention.w_up,
        LlamaLayer::random(4, 2, 2, 2, 42 + 9999, &to_weight).w_up
    );
    let (layers, _) = build_jamba_layers(4, 2, 2, 2, 1, 2, 2, 42, &to_weight);
    match &layers[0] {
        JambaLayer::Mamba { block, moe } => {
            assert_eq!(block.w_in, MambaBlock::random(4, 2, 49, &to_weight).w_in);
            assert_eq!(moe.w_router, MoEFFN::random(4, 2, 1049, &to_weight).w_router);
        }
        JambaLayer::Attention(_) => panic!("the first layer is a Mamba layer"),
    }
}
