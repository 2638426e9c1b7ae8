//! RG-LRU (real-gated linear recurrent unit) block.

use super::flash_attn::same_shape;
use super::weights::{drawn, seeded, state_after, weighs_all, SimpleRng, WeightRange};
use crate::traits::linear::LinearSequenceModel;
use crate::traits::sequence::SequenceBlock;
use crate::traits::types::{BlockConfig, DType, TensorView};
use vstd::prelude::*;

verus! {

/// Persistent state for one RG-LRU block.
pub struct RgLruState {
    /// Recurrent hidden state: [hidden_size].
    pub hidden: Vec<u32>,
}

impl Clone for RgLruState {
    fn clone(&self) -> (r: RgLruState)
        ensures
            r.hidden@ == self.hidden@,
    {
        let hidden: Vec<u32> = self.hidden.clone();
        assert(hidden@ =~= self.hidden@);
        RgLruState { hidden }
    }
}

/// RG-LRU block.
///
/// Recurrence: `h_t = a_t * h_{t-1} + (1 - a_t) * (i_t * x_t)` with gates
/// `a_t = sigmoid(W_a * x_t)` and `i_t = sigmoid(W_i * x_t)`.
pub struct RgLruBlock {
    /// Hidden size (model dimension).
    pub hidden_size: usize,
    /// Input projection: [hidden_size, hidden_size], row-major.
    pub w_in: Vec<u32>,
    /// Recurrence gate projection: [hidden_size, hidden_size], row-major.
    pub w_recurrence_gate: Vec<u32>,
    /// Input gate projection: [hidden_size, hidden_size], row-major.
    pub w_input_gate: Vec<u32>,
    /// Output projection: [hidden_size, hidden_size], row-major.
    pub w_out: Vec<u32>,
}

impl RgLruBlock {
    /// Whether this block has the given size and the weights that a seed gives, drawn one
    /// projection after the other.
    pub open spec fn is_random<F: Fn(u32, WeightRange) -> u32>(
        self,
        hidden_size: usize,
        seed: u64,
        to_weight: F,
    ) -> bool {
        let range = WeightRange::Scaled { fan: hidden_size };
        let in_start = seeded(seed);
        let recurrence_start = state_after(in_start, self.w_in@.len());
        let input_start = state_after(recurrence_start, self.w_recurrence_gate@.len());
        let out_start = state_after(input_start, self.w_input_gate@.len());
        &&& self.hidden_size == hidden_size
        &&& self.w_in@.len() == hidden_size * hidden_size
        &&& self.w_recurrence_gate@.len() == hidden_size * hidden_size
        &&& self.w_input_gate@.len() == hidden_size * hidden_size
        &&& self.w_out@.len() == hidden_size * hidden_size
        &&& drawn(to_weight, in_start, range, self.w_in@)
        &&& drawn(to_weight, recurrence_start, range, self.w_recurrence_gate@)
        &&& drawn(to_weight, input_start, range, self.w_input_gate@)
        &&& drawn(to_weight, out_start, range, self.w_out@)
    }

    /// Create an RG-LRU block with random weights.
    pub fn random<F: Fn(u32, WeightRange) -> u32>(
        hidden_size: usize,
        seed: u64,
        to_weight: &F,
    ) -> (r: RgLruBlock)
        requires
            hidden_size * hidden_size <= usize::MAX,
            weighs_all(*to_weight),
        ensures
            r.is_random(hidden_size, seed, *to_weight),
    {
        let mut rng: SimpleRng = SimpleRng::new(seed);
        let range: WeightRange = WeightRange::Scaled { fan: hidden_size };
        let n: usize = hidden_size * hidden_size;
        let w_in: Vec<u32> = rng.draw(n, range, to_weight);
        let w_recurrence_gate: Vec<u32> = rng.draw(n, range, to_weight);
        let w_input_gate: Vec<u32> = rng.draw(n, range, to_weight);
        let w_out: Vec<u32> = rng.draw(n, range, to_weight);
        RgLruBlock { hidden_size, w_in, w_recurrence_gate, w_input_gate, w_out }
    }
}

impl SequenceBlock for RgLruBlock {
    type State = RgLruState;

    open spec fn state_elems(&self) -> nat {
        self.hidden_size as nat
    }

    open spec fn state_fits(&self) -> bool {
        self.hidden_size * 4 <= usize::MAX
    }

    /// All zeros.
    open spec fn is_fresh(&self, state: RgLruState) -> bool {
        state.hidden@ == Seq::new(self.hidden_size as nat, |i: int| 0u32)
    }

    fn init_state(&self, config: &BlockConfig) -> (r: RgLruState) {
        let hidden: Vec<u32> = vec![0; self.hidden_size];
        assert(hidden@ =~= Seq::new(self.hidden_size as nat, |i: int| 0u32));
        RgLruState { hidden }
    }

    /// Only describes the shape of the output: no data pass through here, and the state stays.
    fn forward_prefill(
        &self,
        input: &TensorView,
        state: &mut RgLruState,
        config: &BlockConfig,
    ) -> (r: TensorView)
        ensures
            r.is_contiguous(input.shape@, DType::F32),
            *final(state) == *old(state),
    {
        // Recurrent: process token-by-token
        self.forward_decode(input, state, config)
    }

    /// Only describes the shape of the output: no data pass through here, and the state stays.
    fn forward_decode(
        &self,
        input: &TensorView,
        state: &mut RgLruState,
        config: &BlockConfig,
    ) -> (r: TensorView)
        ensures
            r.is_contiguous(input.shape@, DType::F32),
            *final(state) == *old(state),
    {
        same_shape(input)
    }

    fn state_size_bytes(&self, config: &BlockConfig) -> (r: usize) {
        self.hidden_size * 4
    }
}

impl LinearSequenceModel for RgLruBlock {
    /// Only describes the shape of the output: no data pass through here, and the state stays.
    fn prefill_chunked(
        &self,
        input: &TensorView,
        state: &mut RgLruState,
        config: &BlockConfig,
        chunk_size: usize,
    ) -> (r: TensorView)
        ensures
            r.is_contiguous(input.shape@, DType::F32),
            *final(state) == *old(state),
    {
        self.forward_prefill(input, state, config)
    }

    /// Only describes the shape of the output: no data pass through here, and the state stays.
    fn decode_step(
        &self,
        input: &TensorView,
        state: &mut RgLruState,
        config: &BlockConfig,
    ) -> (r: TensorView)
        ensures
            r.is_contiguous(input.shape@, DType::F32),
            *final(state) == *old(state),
    {
        self.forward_decode(input, state, config)
    }

    fn max_head_dim(&self) -> (r: usize)
        ensures
            r == 64,
    {
        64
    }

    fn optimal_chunk_size(&self, head_dim: usize) -> (r: usize)
        ensures
            r == 1,
    {
        1
    }
}

} // verus!
