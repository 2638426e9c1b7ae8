//! What a layer of a hybrid model does with the next token, and the seeds that its layers have.

use super::flash_attn::FlashAttentionState;
use crate::traits::schedule::{periodic_type, LayerType};
use vstd::prelude::*;

verus! {

/// How a layer takes the next token.
#[derive(Debug, Clone, Copy, PartialEq, Eq, Structural)]
pub enum LayerStep {
    /// Advance the recurrent state.
    Recurrent,
    /// Attention over an empty cache: a prefill of one token.
    Prefill,
    /// Attention over the tokens so far.
    Decode,
}

/// How an attention layer takes the next token.
pub open spec fn attention_step(state: FlashAttentionState) -> LayerStep {
    if state.kv_cache.model().len == 0 {
        LayerStep::Prefill
    } else {
        LayerStep::Decode
    }
}

/// Choose how an attention layer takes the next token.
pub fn next_attention_step(state: &FlashAttentionState) -> (r: LayerStep)
    ensures
        r == attention_step(*state),
{
    if state.kv_cache.is_empty() {
        LayerStep::Prefill
    } else {
        LayerStep::Decode
    }
}

/// The seed of layer `i` in a model with the given seed.
pub open spec fn layer_seed(seed: u64, i: int) -> int {
    seed + i * 31 + 7
}

/// Whether every layer of a periodic model has a seed, with `linear` and `attention` more to go for
/// what a layer of each type is made of.
pub open spec fn seeds_fit(
    seed: u64,
    num_layers: usize,
    ratio: nat,
    linear: int,
    attention: int,
) -> bool {
    forall|i: int|
        0 <= i < num_layers ==> #[trigger] layer_seed(seed, i) + (match periodic_type(ratio, i) {
            LayerType::Linear => linear,
            LayerType::Attention => attention,
        }) <= u64::MAX
}

/// Compute the seed of a layer.
pub fn seed_of_layer(seed: u64, i: usize) -> (r: u64)
    requires
        layer_seed(seed, i as int) <= u64::MAX,
    ensures
        r == layer_seed(seed, i as int),
{
    seed + (i as u64) * 31 + 7
}

/// Two layers of a model never have the same seed.
pub proof fn layer_seeds_differ(seed: u64, i: int, j: int)
    requires
        i != j,
    ensures
        layer_seed(seed, i) != layer_seed(seed, j),
{
}

} // verus!
