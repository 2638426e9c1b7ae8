//! Linear sequence model trait for O(N) / O(1) per-token processing.
//!
//! Extends `SequenceBlock` with chunk-based prefill and recurrent decode.

use super::sequence::SequenceBlock;
use super::types::{strides_fit, BlockConfig, TensorView};
use vstd::prelude::*;

verus! {

/// Position encoding configuration for linear models (most use none).
#[derive(Debug, Clone, Copy, PartialEq, Eq, Structural)]
pub enum LinearPositionEncoding {
    NoEncoding,
    /// RWKV-style token shift.
    TokenShift,
}

/// A sequence block with O(N) or O(1) per-token processing.
///
/// LinearSequenceModels maintain a fixed-size hidden state that is updated
/// per token (or per chunk during prefill). No KV cache is needed --
/// the entire context is compressed into the state matrix.
///
/// Examples: FLA linear attention, Mamba SSM, RG-LRU, RWKV-7 blocks.
pub trait LinearSequenceModel: SequenceBlock {
    /// Process input in chunks during prefill (parallel over chunks).
    fn prefill_chunked(
        &self,
        input: &TensorView,
        state: &mut Self::State,
        config: &BlockConfig,
        chunk_size: usize,
    ) -> (r: TensorView)
        requires
            strides_fit(input.shape@),
        ensures
            r.shape@ == input.shape@,
    ;

    /// Single-token recurrent update during decode.
    fn decode_step(
        &self,
        input: &TensorView,
        state: &mut Self::State,
        config: &BlockConfig,
    ) -> (r: TensorView)
        requires
            strides_fit(input.shape@),
        ensures
            r.shape@ == input.shape@,
    ;

    /// Maximum supported head dimension for this implementation.
    fn max_head_dim(&self) -> usize;

    /// Optimal chunk size for the given head dimension (respecting 32KB threadgroup limit).
    fn optimal_chunk_size(&self, head_dim: usize) -> usize;
}

} // verus!
