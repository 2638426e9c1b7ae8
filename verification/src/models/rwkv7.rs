//! RWKV-7 block: token shift, projections and the WKV operator.

use super::flash_attn::same_shape;
use super::weights::{drawn, seeded, state_after, weighs_all, SimpleRng, WeightRange};
use crate::kernels::kv_cache::{copy_range, overwritten};
use crate::kernels::layout::{piece, push_range};
use crate::traits::linear::LinearSequenceModel;
use crate::traits::sequence::SequenceBlock;
use crate::traits::types::{BlockConfig, DType, TensorView};
use vstd::prelude::*;

verus! {

/// Persistent state for one RWKV-7 block.
pub struct Rwkv7State {
    /// WKV state matrices: [num_heads, head_dim, head_dim].
    pub wkv_state: Vec<u32>,
    /// Previous token's hidden state, for token shift: [hidden_size].
    pub prev_token: Vec<u32>,
}

impl Clone for Rwkv7State {
    fn clone(&self) -> (r: Rwkv7State)
        ensures
            r.wkv_state@ == self.wkv_state@,
            r.prev_token@ == self.prev_token@,
    {
        let wkv_state: Vec<u32> = self.wkv_state.clone();
        let prev_token: Vec<u32> = self.prev_token.clone();
        assert(wkv_state@ =~= self.wkv_state@);
        assert(prev_token@ =~= self.prev_token@);
        Rwkv7State { wkv_state, prev_token }
    }
}

/// RWKV-7 block.
pub struct Rwkv7Block {
    /// Hidden size (model dimension).
    pub hidden_size: usize,
    /// Dimension per head.
    pub head_dim: usize,
    /// Number of heads.
    pub num_heads: usize,
    /// Token shift mixing factors for receptance: [hidden_size].
    pub mix_r: Vec<u32>,
    /// Token shift mixing factors for keys: [hidden_size].
    pub mix_k: Vec<u32>,
    /// Token shift mixing factors for values: [hidden_size].
    pub mix_v: Vec<u32>,
    /// Token shift mixing factors for decay: [hidden_size].
    pub mix_w: Vec<u32>,
    /// Receptance projection: [hidden_size, hidden_size], row-major.
    pub w_r: Vec<u32>,
    /// Key projection: [hidden_size, hidden_size], row-major.
    pub w_k: Vec<u32>,
    /// Value projection: [hidden_size, hidden_size], row-major.
    pub w_v: Vec<u32>,
    /// Decay projection: [hidden_size, hidden_size], row-major.
    pub w_w: Vec<u32>,
    /// Output projection: [hidden_size, hidden_size], row-major.
    pub w_o: Vec<u32>,
    /// Whether to run the WKV operator on the GPU.
    pub use_gpu: bool,
}

impl Rwkv7Block {
    /// Whether this block has the given sizes and the weights that a seed gives, drawn one
    /// parameter after the other.
    pub open spec fn is_random<F: Fn(u32, WeightRange) -> u32>(
        self,
        hidden_size: usize,
        head_dim: usize,
        num_heads: usize,
        seed: u64,
        to_weight: F,
    ) -> bool {
        let n = hidden_size as nat;
        let nn = (hidden_size * hidden_size) as nat;
        let range = WeightRange::Scaled { fan: hidden_size };
        let mix = seeded(seed);
        let projections = state_after(state_after(state_after(state_after(mix, n), n), n), n);
        &&& self.hidden_size == hidden_size
        &&& self.head_dim == head_dim
        &&& self.num_heads == num_heads
        &&& self.use_gpu
        &&& self.mix_r@.len() == n
        &&& drawn(to_weight, mix, WeightRange::Unit, self.mix_r@)
        &&& self.mix_k@.len() == n
        &&& drawn(to_weight, state_after(mix, n), WeightRange::Unit, self.mix_k@)
        &&& self.mix_v@.len() == n
        &&& drawn(to_weight, state_after(state_after(mix, n), n), WeightRange::Unit, self.mix_v@)
        &&& self.mix_w@.len() == n
        &&& drawn(
            to_weight,
            state_after(state_after(state_after(mix, n), n), n),
            WeightRange::Unit,
            self.mix_w@,
        )
        &&& self.w_r@.len() == nn
        &&& drawn(to_weight, projections, range, self.w_r@)
        &&& self.w_k@.len() == nn
        &&& drawn(to_weight, state_after(projections, nn), range, self.w_k@)
        &&& self.w_v@.len() == nn
        &&& drawn(to_weight, state_after(state_after(projections, nn), nn), range, self.w_v@)
        &&& self.w_w@.len() == nn
        &&& drawn(
            to_weight,
            state_after(state_after(state_after(projections, nn), nn), nn),
            range,
            self.w_w@,
        )
        &&& self.w_o@.len() == nn
        &&& drawn(
            to_weight,
            state_after(state_after(state_after(state_after(projections, nn), nn), nn), nn),
            range,
            self.w_o@,
        )
    }

    /// Create an RWKV-7 block with random weights.
    pub fn random<F: Fn(u32, WeightRange) -> u32>(
        hidden_size: usize,
        head_dim: usize,
        num_heads: usize,
        seed: u64,
        to_weight: &F,
    ) -> (r: Rwkv7Block)
        requires
            hidden_size * hidden_size <= usize::MAX,
            weighs_all(*to_weight),
        ensures
            r.is_random(hidden_size, head_dim, num_heads, seed, *to_weight),
    {
        let mut rng: SimpleRng = SimpleRng::new(seed);
        let range: WeightRange = WeightRange::Scaled { fan: hidden_size };
        let n: usize = hidden_size;
        let nn: usize = hidden_size * hidden_size;
        let mix_r: Vec<u32> = rng.draw(n, WeightRange::Unit, to_weight);
        let mix_k: Vec<u32> = rng.draw(n, WeightRange::Unit, to_weight);
        let mix_v: Vec<u32> = rng.draw(n, WeightRange::Unit, to_weight);
        let mix_w: Vec<u32> = rng.draw(n, WeightRange::Unit, to_weight);
        let w_r: Vec<u32> = rng.draw(nn, range, to_weight);
        let w_k: Vec<u32> = rng.draw(nn, range, to_weight);
        let w_v: Vec<u32> = rng.draw(nn, range, to_weight);
        let w_w: Vec<u32> = rng.draw(nn, range, to_weight);
        let w_o: Vec<u32> = rng.draw(nn, range, to_weight);
        Rwkv7Block {
            hidden_size,
            head_dim,
            num_heads,
            mix_r,
            mix_k,
            mix_v,
            mix_w,
            w_r,
            w_k,
            w_v,
            w_w,
            w_o,
            use_gpu: true,
        }
    }

    /// Whether one head spans the whole hidden state, so that the WKV operator runs once instead of
    /// head by head.
    pub fn is_single_head(&self) -> (r: bool)
        ensures
            r == (self.head_dim == self.hidden_size),
    {
        self.head_dim == self.hidden_size
    }

    /// The part of a token's projection that belongs to one head.
    pub fn head_part(&self, projection: &[u32], head: usize) -> (r: Vec<u32>)
        requires
            (head + 1) * self.head_dim <= projection.len(),
        ensures
            r@ == piece(projection@, head as int, self.head_dim as int),
    {
        assert((head + 1) * self.head_dim == head * self.head_dim + self.head_dim)
            by (nonlinear_arith);
        assert(0 <= head * self.head_dim) by (nonlinear_arith);
        let mut part: Vec<u32> = Vec::new();
        push_range(&mut part, projection, head * self.head_dim, self.head_dim);
        assert(part@ =~= piece(projection@, head as int, self.head_dim as int));
        part
    }

    /// The WKV state matrix of one head.
    pub fn head_state(&self, state: &Rwkv7State, head: usize) -> (r: Vec<u32>)
        requires
            self.head_dim * self.head_dim <= usize::MAX,
            (head + 1) * (self.head_dim * self.head_dim) <= state.wkv_state.len(),
        ensures
            r@ == piece(state.wkv_state@, head as int, self.head_dim * self.head_dim),
    {
        let n: usize = self.head_dim * self.head_dim;
        assert((head + 1) * n == head * n + n) by (nonlinear_arith);
        assert(0 <= head * n) by (nonlinear_arith);
        let mut part: Vec<u32> = Vec::new();
        push_range(&mut part, state.wkv_state.as_slice(), head * n, n);
        assert(part@ =~= piece(state.wkv_state@, head as int, n as int));
        part
    }

    /// Store the WKV state matrix of one head.
    pub fn set_head_state(&self, state: &mut Rwkv7State, head: usize, matrix: &[u32])
        requires
            self.head_dim * self.head_dim <= usize::MAX,
            (head + 1) * (self.head_dim * self.head_dim) <= old(state).wkv_state.len(),
            matrix.len() == self.head_dim * self.head_dim,
        ensures
            final(state).wkv_state@ == overwritten(
                old(state).wkv_state@,
                head * (self.head_dim * self.head_dim),
                matrix@,
            ),
            final(state).prev_token == old(state).prev_token,
    {
        let n: usize = self.head_dim * self.head_dim;
        assert((head + 1) * n == head * n + n) by (nonlinear_arith);
        assert(0 <= head * n) by (nonlinear_arith);
        assert(matrix@.subrange(0, n as int) =~= matrix@);
        copy_range(&mut state.wkv_state, head * n, matrix, 0, n);
    }
}

impl SequenceBlock for Rwkv7Block {
    type State = Rwkv7State;

    open spec fn state_elems(&self) -> nat {
        (self.num_heads * self.head_dim * self.head_dim + self.hidden_size) as nat
    }

    open spec fn state_fits(&self) -> bool {
        &&& self.num_heads * self.head_dim <= usize::MAX
        &&& (self.num_heads * self.head_dim * self.head_dim + self.hidden_size) * 4 <= usize::MAX
    }

    /// All zeros.
    open spec fn is_fresh(&self, state: Rwkv7State) -> bool {
        &&& state.wkv_state@ == Seq::new(
            (self.num_heads * self.head_dim * self.head_dim) as nat,
            |i: int| 0u32,
        )
        &&& state.prev_token@ == Seq::new(self.hidden_size as nat, |i: int| 0u32)
    }

    fn init_state(&self, config: &BlockConfig) -> (r: Rwkv7State) {
        assert(0 <= self.num_heads * self.head_dim * self.head_dim) by (nonlinear_arith);
        let n: usize = self.num_heads * self.head_dim * self.head_dim;
        let wkv_state: Vec<u32> = vec![0; n];
        let prev_token: Vec<u32> = vec![0; self.hidden_size];
        assert(wkv_state@ =~= Seq::new(n as nat, |i: int| 0u32));
        assert(prev_token@ =~= Seq::new(self.hidden_size as nat, |i: int| 0u32));
        Rwkv7State { wkv_state, prev_token }
    }

    /// Only describes the shape of the output: no data pass through here, and the state stays.
    fn forward_prefill(
        &self,
        input: &TensorView,
        state: &mut Rwkv7State,
        config: &BlockConfig,
    ) -> (r: TensorView)
        ensures
            r.is_contiguous(input.shape@, DType::F32),
            *final(state) == *old(state),
    {
        // Recurrent: process token-by-token
        self.forward_decode(input, state, config)
    }

    /// Only describes the shape of the output: no data pass through here, and the state stays.
    fn forward_decode(
        &self,
        input: &TensorView,
        state: &mut Rwkv7State,
        config: &BlockConfig,
    ) -> (r: TensorView)
        ensures
            r.is_contiguous(input.shape@, DType::F32),
            *final(state) == *old(state),
    {
        same_shape(input)
    }

    fn state_size_bytes(&self, config: &BlockConfig) -> (r: usize) {
        assert(0 <= self.num_heads * self.head_dim * self.head_dim) by (nonlinear_arith);
        (self.num_heads * self.head_dim * self.head_dim + self.hidden_size) * 4
    }
}

impl LinearSequenceModel for Rwkv7Block {
    /// Only describes the shape of the output: no data pass through here, and the state stays.
    fn prefill_chunked(
        &self,
        input: &TensorView,
        state: &mut Rwkv7State,
        config: &BlockConfig,
        chunk_size: usize,
    ) -> (r: TensorView)
        ensures
            r.is_contiguous(input.shape@, DType::F32),
            *final(state) == *old(state),
    {
        self.forward_prefill(input, state, config)
    }

    /// Only describes the shape of the output: no data pass through here, and the state stays.
    fn decode_step(
        &self,
        input: &TensorView,
        state: &mut Rwkv7State,
        config: &BlockConfig,
    ) -> (r: TensorView)
        ensures
            r.is_contiguous(input.shape@, DType::F32),
            *final(state) == *old(state),
    {
        self.forward_decode(input, state, config)
    }

    fn max_head_dim(&self) -> (r: usize)
        ensures
            r == 64,
    {
        64
    }

    fn optimal_chunk_size(&self, head_dim: usize) -> (r: usize)
        ensures
            r == 1,
    {
        1
    }
}

/// What is stored as the state of one head is what is read back, and the other heads keep theirs.
pub proof fn head_states_are_apart(
    states: Seq<u32>,
    matrix: Seq<u32>,
    heads: nat,
    head: int,
    other: int,
)
    requires
        states.len() == heads * matrix.len(),
        0 <= head < heads,
        0 <= other < heads,
    ensures
        ({
            let n = matrix.len() as int;
            piece(overwritten(states, head * n, matrix), other, n) == if other == head {
                matrix
            } else {
                piece(states, other, n)
            }
        }),
{
    let n: int = matrix.len() as int;
    let after: Seq<u32> = overwritten(states, head * n, matrix);
    assert(0 <= head * n && head * n + n <= heads * n) by (nonlinear_arith)
        requires
            0 <= head,
            head + 1 <= heads,
            0 <= n,
    ;
    assert(0 <= other * n && other * n + n <= heads * n) by (nonlinear_arith)
        requires
            0 <= other,
            other + 1 <= heads,
            0 <= n,
    ;
    if other < head {
        assert(other * n + n <= head * n) by (nonlinear_arith)
            requires
                other + 1 <= head,
                0 <= n,
        ;
        assert(piece(after, other, n) =~= piece(states, other, n));
    } else if other > head {
        assert(head * n + n <= other * n) by (nonlinear_arith)
            requires
                head + 1 <= other,
                0 <= n,
        ;
        assert(piece(after, other, n) =~= piece(states, other, n));
    } else {
        assert(piece(after, other, n) =~= matrix);
    }
}

} // verus!
