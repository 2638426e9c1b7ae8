//! Softmax attention trait with KV cache, GQA, and position encoding support.
//!
//! Extends `SequenceBlock` with attention-specific operations.

use super::sequence::SequenceBlock;
use super::types::{BlockConfig, TensorView};
use crate::float_order::{equal, is_equal};
use vstd::prelude::*;

verus! {

/// Position encoding variant for softmax attention. Two rotary embeddings are equal where their
/// bases are equal as floats.
#[derive(Debug, Clone, Copy)]
pub enum PositionEncoding {
    NoEncoding,
    /// Rotary embedding; the base is given by the bit pattern of a 32-bit float.
    RoPE { theta_base: u32 },
    ALiBi,
}

impl PositionEncoding {
    /// Whether two encodings are equal.
    pub open spec fn equals(self, other: PositionEncoding) -> bool {
        match (self, other) {
            (PositionEncoding::NoEncoding, PositionEncoding::NoEncoding) => true,
            (
                PositionEncoding::RoPE { theta_base: a },
                PositionEncoding::RoPE { theta_base: b },
            ) => equal(a, b),
            (PositionEncoding::ALiBi, PositionEncoding::ALiBi) => true,
            _ => false,
        }
    }
}

impl PartialEq for PositionEncoding {
    fn eq(&self, other: &PositionEncoding) -> (r: bool) {
        match (*self, *other) {
            (PositionEncoding::NoEncoding, PositionEncoding::NoEncoding) => true,
            (
                PositionEncoding::RoPE { theta_base: a },
                PositionEncoding::RoPE { theta_base: b },
            ) => is_equal(a, b),
            (PositionEncoding::ALiBi, PositionEncoding::ALiBi) => true,
            _ => false,
        }
    }
}

impl vstd::std_specs::cmp::PartialEqSpecImpl for PositionEncoding {
    open spec fn obeys_eq_spec() -> bool {
        true
    }

    open spec fn eq_spec(&self, other: &PositionEncoding) -> bool {
        self.equals(*other)
    }
}

/// KV cache strategy.
#[derive(Debug, Clone, Copy, PartialEq, Eq, Structural)]
pub enum KVCacheMode {
    /// Contiguous buffer, simple indexing.
    Dense,
    /// PagedAttention V2 with block table indirection.
    Paged { page_size: u32 },
}

/// GQA configuration.
#[derive(Debug, Clone, Copy, PartialEq, Eq, Structural)]
pub struct GQAConfig {
    /// Number of Q heads per KV head group. 1 = MHA, num_heads = MQA.
    pub group_size: usize,
}

/// A softmax attention block with O(N^2) compute and KV cache.
///
/// Examples: standard multi-head attention, GQA, MQA.
pub trait SoftmaxAttention: SequenceBlock {
    /// Whether the query heads fall into groups that share a KV head.
    spec fn groups_heads(&self) -> bool;

    /// Current sequence length in the KV cache.
    fn cached_length(&self, state: &Self::State) -> usize;

    /// Maximum sequence length this cache can hold.
    fn max_length(&self, state: &Self::State) -> usize;

    /// Position encoding used by this attention implementation.
    fn position_encoding(&self) -> PositionEncoding;

    /// KV cache mode (dense or paged).
    fn cache_mode(&self) -> KVCacheMode;

    /// GQA configuration.
    fn gqa_config(&self) -> (r: GQAConfig)
        requires
            self.groups_heads(),
    ;

    /// Prefill: compute attention over full prompt and populate KV cache.
    fn prefill_attention(
        &self,
        q: &TensorView,
        k: &TensorView,
        v: &TensorView,
        state: &mut Self::State,
        config: &BlockConfig,
    ) -> (r: TensorView)
        requires
            q.shape@.len() > 0,
    ;

    /// Decode: compute single-query attention against full KV cache.
    /// Appends new K/V to cache, computes attention over all cached positions.
    fn decode_attention(
        &self,
        q: &TensorView,
        k: &TensorView,
        v: &TensorView,
        state: &mut Self::State,
        config: &BlockConfig,
    ) -> TensorView;
}

} // verus!
