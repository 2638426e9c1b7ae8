//! Mamba selective state space block.

use super::flash_attn::same_shape;
use super::llama::ONE;
use super::weights::{drawn, seeded, state_after, weighs_all, SimpleRng, WeightRange};
use crate::traits::linear::LinearSequenceModel;
use crate::traits::sequence::SequenceBlock;
use crate::traits::types::{BlockConfig, DType, TensorView};
use vstd::prelude::*;

verus! {

/// Persistent state for one Mamba block.
pub struct MambaState {
    /// SSM hidden state: [d_inner, d_state].
    pub ssm_state: Vec<u32>,
}

impl Clone for MambaState {
    fn clone(&self) -> (r: MambaState)
        ensures
            r.ssm_state@ == self.ssm_state@,
    {
        let ssm_state: Vec<u32> = self.ssm_state.clone();
        assert(ssm_state@ =~= self.ssm_state@);
        MambaState { ssm_state }
    }
}

/// Mamba block: gated input projection, state space scan and output projection.
pub struct MambaBlock {
    /// Hidden size (model dimension).
    pub hidden_size: usize,
    /// Inner dimension: twice the hidden size.
    pub d_inner: usize,
    /// SSM state dimension.
    pub d_state: usize,
    /// Input projection: [d_inner, hidden_size], row-major.
    pub w_in: Vec<u32>,
    /// Gate projection: [d_inner, hidden_size], row-major.
    pub w_gate: Vec<u32>,
    /// Output projection: [hidden_size, d_inner], row-major.
    pub w_out: Vec<u32>,
    /// Log-space decay: [d_inner].
    pub a_log: Vec<u32>,
    /// B projection: [d_state, d_inner], row-major.
    pub w_b: Vec<u32>,
    /// C projection: [d_state, d_inner], row-major.
    pub w_c: Vec<u32>,
    /// Skip connection scalar.
    pub d_skip: u32,
    /// Whether to scan on the GPU.
    pub use_gpu: bool,
}

impl MambaBlock {
    /// Whether the weights of a block of these sizes can be counted on this machine.
    pub open spec fn sizes_fit(hidden_size: usize, d_state: usize) -> bool {
        &&& hidden_size * 2 <= usize::MAX
        &&& hidden_size * 2 * hidden_size <= usize::MAX
        &&& d_state * (hidden_size * 2) <= usize::MAX
    }

    /// Whether this block has the given sizes and the weights that a seed gives, drawn one
    /// parameter after the other.
    pub open spec fn is_random<F: Fn(u32, WeightRange) -> u32>(
        self,
        hidden_size: usize,
        d_state: usize,
        seed: u64,
        to_weight: F,
    ) -> bool {
        let outer = WeightRange::Scaled { fan: hidden_size };
        let inner = WeightRange::Scaled { fan: self.d_inner };
        let in_start = seeded(seed);
        let gate_start = state_after(in_start, self.w_in@.len());
        let out_start = state_after(gate_start, self.w_gate@.len());
        let a_start = state_after(out_start, self.w_out@.len());
        let b_start = state_after(a_start, self.a_log@.len());
        let c_start = state_after(b_start, self.w_b@.len());
        &&& self.hidden_size == hidden_size
        &&& self.d_inner == hidden_size * 2
        &&& self.d_state == d_state
        &&& self.d_skip == ONE
        &&& self.use_gpu
        &&& self.w_in@.len() == self.d_inner * hidden_size
        &&& self.w_gate@.len() == self.d_inner * hidden_size
        &&& self.w_out@.len() == self.d_inner * hidden_size
        &&& self.a_log@.len() == self.d_inner
        &&& self.w_b@.len() == d_state * self.d_inner
        &&& self.w_c@.len() == d_state * self.d_inner
        &&& drawn(to_weight, in_start, outer, self.w_in@)
        &&& drawn(to_weight, gate_start, outer, self.w_gate@)
        &&& drawn(to_weight, out_start, outer, self.w_out@)
        &&& drawn(to_weight, a_start, WeightRange::Decay, self.a_log@)
        &&& drawn(to_weight, b_start, inner, self.w_b@)
        &&& drawn(to_weight, c_start, inner, self.w_c@)
    }

    /// Create a Mamba block with random weights.
    pub fn random<F: Fn(u32, WeightRange) -> u32>(
        hidden_size: usize,
        d_state: usize,
        seed: u64,
        to_weight: &F,
    ) -> (r: MambaBlock)
        requires
            Self::sizes_fit(hidden_size, d_state),
            weighs_all(*to_weight),
        ensures
            r.is_random(hidden_size, d_state, seed, *to_weight),
    {
        // Standard Mamba expansion ratio
        let d_inner: usize = hidden_size * 2;
        let mut rng: SimpleRng = SimpleRng::new(seed);
        let outer: WeightRange = WeightRange::Scaled { fan: hidden_size };
        let inner: WeightRange = WeightRange::Scaled { fan: d_inner };
        let w_in: Vec<u32> = rng.draw(d_inner * hidden_size, outer, to_weight);
        let w_gate: Vec<u32> = rng.draw(d_inner * hidden_size, outer, to_weight);
        assert(hidden_size * d_inner == d_inner * hidden_size) by (nonlinear_arith);
        let w_out: Vec<u32> = rng.draw(hidden_size * d_inner, outer, to_weight);
        let a_log: Vec<u32> = rng.draw(d_inner, WeightRange::Decay, to_weight);
        let w_b: Vec<u32> = rng.draw(d_state * d_inner, inner, to_weight);
        let w_c: Vec<u32> = rng.draw(d_state * d_inner, inner, to_weight);
        MambaBlock {
            hidden_size,
            d_inner,
            d_state,
            w_in,
            w_gate,
            w_out,
            a_log,
            w_b,
            w_c,
            d_skip: ONE,
            use_gpu: true,
        }
    }
}

impl SequenceBlock for MambaBlock {
    type State = MambaState;

    open spec fn state_elems(&self) -> nat {
        (self.d_inner * self.d_state) as nat
    }

    open spec fn state_fits(&self) -> bool {
        self.d_inner * self.d_state * 4 <= usize::MAX
    }

    /// All zeros.
    open spec fn is_fresh(&self, state: MambaState) -> bool {
        state.ssm_state@ == Seq::new((self.d_inner * self.d_state) as nat, |i: int| 0u32)
    }

    fn init_state(&self, config: &BlockConfig) -> (r: MambaState) {
        assert(0 <= self.d_inner * self.d_state) by (nonlinear_arith);
        let ssm_state: Vec<u32> = vec![0; self.d_inner * self.d_state];
        assert(ssm_state@ =~= Seq::new((self.d_inner * self.d_state) as nat, |i: int| 0u32));
        MambaState { ssm_state }
    }

    /// Only describes the shape of the output: no data pass through here, and the state stays.
    fn forward_prefill(
        &self,
        input: &TensorView,
        state: &mut MambaState,
        config: &BlockConfig,
    ) -> (r: TensorView)
        ensures
            r.is_contiguous(input.shape@, DType::F32),
            *final(state) == *old(state),
    {
        // Recurrent: process token-by-token
        self.forward_decode(input, state, config)
    }

    /// Only describes the shape of the output: no data pass through here, and the state stays.
    fn forward_decode(
        &self,
        input: &TensorView,
        state: &mut MambaState,
        config: &BlockConfig,
    ) -> (r: TensorView)
        ensures
            r.is_contiguous(input.shape@, DType::F32),
            *final(state) == *old(state),
    {
        same_shape(input)
    }

    fn state_size_bytes(&self, config: &BlockConfig) -> (r: usize) {
        assert(0 <= self.d_inner * self.d_state) by (nonlinear_arith);
        self.d_inner * self.d_state * 4
    }
}

impl LinearSequenceModel for MambaBlock {
    /// Only describes the shape of the output: no data pass through here, and the state stays.
    fn prefill_chunked(
        &self,
        input: &TensorView,
        state: &mut MambaState,
        config: &BlockConfig,
        chunk_size: usize,
    ) -> (r: TensorView)
        ensures
            r.is_contiguous(input.shape@, DType::F32),
            *final(state) == *old(state),
    {
        self.forward_prefill(input, state, config)
    }

    /// Only describes the shape of the output: no data pass through here, and the state stays.
    fn decode_step(
        &self,
        input: &TensorView,
        state: &mut MambaState,
        config: &BlockConfig,
    ) -> (r: TensorView)
        ensures
            r.is_contiguous(input.shape@, DType::F32),
            *final(state) == *old(state),
    {
        self.forward_decode(input, state, config)
    }

    fn max_head_dim(&self) -> (r: usize)
        ensures
            r == 64,
    {
        64
    }

    fn optimal_chunk_size(&self, head_dim: usize) -> (r: usize)
        ensures
            r == 1,
    {
        1
    }
}

} // verus!
