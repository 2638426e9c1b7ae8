use metal_attention::gguf::architectures::ModelArchitecture;
use metal_attention::models::registry::{
    create_llama_layer, create_rwkv7_block, is_supported, supported_architectures, ModelConfig,
};
use metal_attention::models::weights::{WeightRange, LARGEST_DRAW};

/// The weight at a fraction of a range.
fn to_weight(number: u32, range: WeightRange) -> u32 {
    let fraction = number as f32 / LARGEST_DRAW as f32;
    let (lo, hi) = match range {
        WeightRange::Unit => (0.0, 1.0),
        WeightRange::Scaled { fan } => {
            let scale = 1.0 / (fan as f32).sqrt();
            (-scale, scale)
        }
        WeightRange::Decay => (-1.0, 0.0),
        WeightRange::NearZero => (-0.01, 0.01),
    };
    let weight: f32 = lo + fraction * (hi - lo);
    weight.to_bits()
}

#[test]
fn test_create_rwkv7_block() {
    let config = ModelConfig {
        architecture: ModelArchitecture::Rwkv,
        hidden_size: 16,
        head_dim: 16,
        num_heads: 1,
        num_kv_heads: 1,
        num_layers: 4,
    };

    let block = create_rwkv7_block(&config, 0, &to_weight);
    assert!(block.is_some(), "Should create RWKV-7 block for Rwkv arch");

    let block = block.unwrap();
    assert_eq!(block.hidden_size, 16);
    assert_eq!(block.head_dim, 16);
    assert_eq!(block.num_heads, 1);
}

#[test]
fn test_create_rwkv7_block_wrong_arch() {
    let config = ModelConfig {
        architecture: ModelArchitecture::Llama,
        hidden_size: 16,
        head_dim: 16,
        num_heads: 1,
        num_kv_heads: 1,
        num_layers: 4,
    };

    let block = create_rwkv7_block(&config, 0, &to_weight);
    assert!(block.is_none(), "Should not create RWKV-7 block for Llama arch");
}

#[test]
fn test_create_llama_layer() {
    let config = ModelConfig {
        architecture: ModelArchitecture::Llama,
        hidden_size: 32,
        head_dim: 16,
        num_heads: 2,
        num_kv_heads: 2,
        num_layers: 4,
    };

    let layer = create_llama_layer(&config, 0, &to_weight);
    assert!(layer.is_some(), "Should create Llama layer for Llama arch");

    let layer = layer.unwrap();
    assert_eq!(layer.hidden_size, 32);
    assert_eq!(layer.attention.num_heads, 2);
}

#[test]
fn test_create_llama_layer_wrong_arch() {
    let config = ModelConfig {
        architecture: ModelArchitecture::Rwkv,
        hidden_size: 32,
        head_dim: 16,
        num_heads: 2,
        num_kv_heads: 2,
        num_layers: 4,
    };

    let layer = create_llama_layer(&config, 0, &to_weight);
    assert!(layer.is_none(), "Should not create Llama layer for Rwkv arch");
}

#[test]
fn test_is_supported() {
    assert!(is_supported(ModelArchitecture::Rwkv));
    assert!(is_supported(ModelArchitecture::Llama));
    assert!(!is_supported(ModelArchitecture::Jamba));
    assert!(!is_supported(ModelArchitecture::Griffin));
    assert!(!is_supported(ModelArchitecture::Zamba));
    assert!(!is_supported(ModelArchitecture::Unknown));
}

#[test]
fn test_supported_architectures() {
    let archs = supported_architectures();
    assert_eq!(archs.len(), 2);
    assert!(archs.contains(&ModelArchitecture::Rwkv));
    assert!(archs.contains(&ModelArchitecture::Llama));
}

#[test]
fn the_listed_architectures_are_the_supported_ones() {
    let listed = supported_architectures();
    let all = [
        ModelArchitecture::Llama,
        ModelArchitecture::Rwkv,
        ModelArchitecture::Jamba,
        ModelArchitecture::Griffin,
        ModelArchitecture::Zamba,
        ModelArchitecture::Unknown,
    ];
    for arch in all {
        assert_eq!(is_supported(arch), listed.contains(&arch));
    }
}
