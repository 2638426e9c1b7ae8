//! Model registry: maps architectures to model construction.

use super::llama::LlamaLayer;
use super::rwkv7::Rwkv7Block;
use super::steps::{layer_seed, seed_of_layer};
use super::weights::{weighs_all, WeightRange};
use crate::gguf::architectures::ModelArchitecture;
use vstd::prelude::*;

verus! {

/// Model configuration extracted from a model file's metadata.
#[derive(Debug, Clone, Copy, PartialEq, Eq, Structural)]
pub struct ModelConfig {
    pub architecture: ModelArchitecture,
    pub hidden_size: usize,
    pub head_dim: usize,
    pub num_heads: usize,
    pub num_kv_heads: usize,
    pub num_layers: usize,
}

/// Create an RWKV-7 block from a model configuration, with random weights and a seed for each
/// layer.
///
/// Returns None if the architecture is not RWKV.
pub fn create_rwkv7_block<F: Fn(u32, WeightRange) -> u32>(
    config: &ModelConfig,
    layer_index: usize,
    to_weight: &F,
) -> (r: Option<Rwkv7Block>)
    requires
        config.architecture == ModelArchitecture::Rwkv ==> config.hidden_size * config.hidden_size
            <= usize::MAX && layer_seed(0, layer_index as int) <= u64::MAX,
        weighs_all(*to_weight),
    ensures
        r is Some <==> config.architecture == ModelArchitecture::Rwkv,
        r matches Some(block) ==> block.is_random(
            config.hidden_size,
            config.head_dim,
            config.num_heads,
            layer_seed(0, layer_index as int) as u64,
            *to_weight,
        ),
{
    if config.architecture != ModelArchitecture::Rwkv {
        return None;
    }
    Some(
        Rwkv7Block::random(
            config.hidden_size,
            config.head_dim,
            config.num_heads,
            seed_of_layer(0, layer_index),
            to_weight,
        ),
    )
}

/// Create a Llama layer from a model configuration, with random weights and a seed for each layer.
///
/// Returns None if the architecture is not Llama.
pub fn create_llama_layer<F: Fn(u32, WeightRange) -> u32>(
    config: &ModelConfig,
    layer_index: usize,
    to_weight: &F,
) -> (r: Option<LlamaLayer>)
    requires
        config.architecture == ModelArchitecture::Llama ==> LlamaLayer::sizes_fit(
            config.hidden_size,
            config.head_dim,
            config.num_heads,
            config.num_kv_heads,
        ) && layer_seed(0, layer_index as int) < u64::MAX,
        weighs_all(*to_weight),
    ensures
        r is Some <==> config.architecture == ModelArchitecture::Llama,
        r matches Some(layer) ==> layer.is_random(
            config.hidden_size,
            config.head_dim,
            config.num_heads,
            config.num_kv_heads,
            layer_seed(0, layer_index as int) as u64,
            *to_weight,
        ),
{
    if config.architecture != ModelArchitecture::Llama {
        return None;
    }
    Some(
        LlamaLayer::random(
            config.hidden_size,
            config.head_dim,
            config.num_heads,
            config.num_kv_heads,
            seed_of_layer(0, layer_index),
            to_weight,
        ),
    )
}

/// The architectures that there are layers for.
pub open spec fn supported() -> Seq<ModelArchitecture> {
    seq![ModelArchitecture::Rwkv, ModelArchitecture::Llama]
}

/// Check whether a given architecture is supported.
pub fn is_supported(arch: ModelArchitecture) -> (r: bool)
    ensures
        r == (arch == ModelArchitecture::Rwkv || arch == ModelArchitecture::Llama),
        r == supported().contains(arch),
{
    proof {
        assert(supported()[0] == ModelArchitecture::Rwkv);
        assert(supported()[1] == ModelArchitecture::Llama);
    }
    matches!(arch, ModelArchitecture::Rwkv | ModelArchitecture::Llama)
}

/// List all supported architectures.
pub fn supported_architectures() -> (r: Vec<ModelArchitecture>)
    ensures
        r@ == supported(),
{
    vec![ModelArchitecture::Rwkv, ModelArchitecture::Llama]
}

} // verus!
