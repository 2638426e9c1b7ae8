//! Root trait for sequence-processing blocks.

use super::types::{strides_fit, BlockConfig, TensorView};
use vstd::prelude::*;

verus! {

/// Root trait for any sequence-processing block.
///
/// A SequenceBlock processes a sequence of token embeddings, producing
/// a transformed sequence of the same shape. It may maintain internal
/// state (e.g., recurrent hidden state, KV cache).
pub trait SequenceBlock: Send + Sync {
    /// Per-layer persistent state type (KV cache for attention, hidden state for SSM).
    type State: Clone + Send;

    /// How many floats the state of one sequence holds.
    spec fn state_elems(&self) -> nat;

    /// Whether the sizes of the state can be computed on this machine.
    spec fn state_fits(&self) -> bool;

    /// Whether a state is that of a sequence with no tokens yet.
    spec fn is_fresh(&self, state: Self::State) -> bool;

    /// Initialize empty state for a new sequence.
    fn init_state(&self, config: &BlockConfig) -> (r: Self::State)
        requires
            self.state_fits(),
        ensures
            self.is_fresh(r),
    ;

    /// Process a full sequence (prefill). Updates state in place.
    /// Input shape: [seq_len, hidden_size]
    /// Output shape: [seq_len, hidden_size]
    fn forward_prefill(
        &self,
        input: &TensorView,
        state: &mut Self::State,
        config: &BlockConfig,
    ) -> (r: TensorView)
        requires
            strides_fit(input.shape@),
        ensures
            r.shape@ == input.shape@,
    ;

    /// Process a single token (decode). Updates state in place.
    /// Input shape: [1, hidden_size]
    /// Output shape: [1, hidden_size]
    fn forward_decode(
        &self,
        input: &TensorView,
        state: &mut Self::State,
        config: &BlockConfig,
    ) -> (r: TensorView)
        requires
            strides_fit(input.shape@),
        ensures
            r.shape@ == input.shape@,
    ;

    /// Memory footprint of this block's state in bytes.
    fn state_size_bytes(&self, config: &BlockConfig) -> (r: usize)
        requires
            self.state_fits(),
        ensures
            r == 4 * self.state_elems(),
    ;
}

} // verus!
