//! Softmax attention over a dense KV cache.

use super::weights::{drawn, seeded, state_after, weighs_all, SimpleRng, WeightRange};
use crate::kernels::kv_cache::{DenseKVCache, DenseModel};
use crate::traits::attention::{GQAConfig, KVCacheMode, PositionEncoding, SoftmaxAttention};
use crate::traits::sequence::SequenceBlock;
use crate::traits::types::{
    row_major, strides_fit, tail_product, BlockConfig, DType, TensorView,
};
use vstd::prelude::*;

verus! {

/// Maximum sequence length of a layer's KV cache, unless it is set otherwise.
pub const DEFAULT_MAX_SEQ: usize = 2048;

/// Persistent state for one attention layer.
pub struct FlashAttentionState {
    /// Keys and values of the tokens so far, all KV heads of a token side by side.
    pub kv_cache: DenseKVCache,
}

impl Clone for FlashAttentionState {
    fn clone(&self) -> (r: FlashAttentionState)
        ensures
            r.kv_cache.model() == self.kv_cache.model(),
            self.kv_cache.wf() ==> r.kv_cache.wf(),
    {
        FlashAttentionState { kv_cache: self.kv_cache.clone() }
    }
}

/// Attention layer with Q/K/V/O projections.
pub struct FlashAttentionLayer {
    /// Hidden size (model dimension).
    pub hidden_size: usize,
    /// Dimension per attention head.
    pub head_dim: usize,
    /// Number of query heads.
    pub num_heads: usize,
    /// Number of key/value heads (less than `num_heads` for GQA).
    pub num_kv_heads: usize,
    /// Maximum sequence length for the KV cache.
    pub max_seq_len: usize,
    /// Q projection: [num_heads * head_dim, hidden_size], row-major.
    pub w_q: Vec<u32>,
    /// K projection: [num_kv_heads * head_dim, hidden_size], row-major.
    pub w_k: Vec<u32>,
    /// V projection: [num_kv_heads * head_dim, hidden_size], row-major.
    pub w_v: Vec<u32>,
    /// Output projection: [hidden_size, num_heads * head_dim], row-major.
    pub w_o: Vec<u32>,
    /// Position encoding.
    pub pos_encoding: PositionEncoding,
}

/// The strides of a matrix fit: they are its width and 1.
proof fn two_strides_fit(rows: usize, columns: usize)
    ensures
        strides_fit(seq![rows, columns]),
{
    let shape: Seq<usize> = seq![rows, columns];
    reveal_with_fuel(tail_product, 3);
    assert(row_major(shape)[0] == columns);
    assert(row_major(shape)[1] == 1);
}

/// A view with the shape of `input`.
pub(crate) fn same_shape(input: &TensorView) -> (r: TensorView)
    requires
        strides_fit(input.shape@),
    ensures
        r.is_contiguous(input.shape@, DType::F32),
{
    let shape: Vec<usize> = input.shape.clone();
    assert(shape@ =~= input.shape@);
    TensorView::new(shape, DType::F32)
}

impl FlashAttentionLayer {
    /// Whether the weights of a layer of these sizes can be counted on this machine.
    pub open spec fn sizes_fit(
        hidden_size: usize,
        head_dim: usize,
        num_heads: usize,
        num_kv_heads: usize,
    ) -> bool {
        &&& num_heads * head_dim <= usize::MAX
        &&& num_kv_heads * head_dim <= usize::MAX
        &&& num_heads * head_dim * hidden_size <= usize::MAX
        &&& num_kv_heads * head_dim * hidden_size <= usize::MAX
    }

    /// Whether this layer has the given sizes and the weights that a seed gives, drawn one
    /// projection after the other.
    pub open spec fn is_random<F: Fn(u32, WeightRange) -> u32>(
        self,
        hidden_size: usize,
        head_dim: usize,
        num_heads: usize,
        num_kv_heads: usize,
        seed: u64,
        to_weight: F,
    ) -> bool {
        let range = WeightRange::Scaled { fan: hidden_size };
        let q_start = seeded(seed);
        let k_start = state_after(q_start, self.w_q@.len());
        let v_start = state_after(k_start, self.w_k@.len());
        let o_start = state_after(v_start, self.w_v@.len());
        &&& self.hidden_size == hidden_size
        &&& self.head_dim == head_dim
        &&& self.num_heads == num_heads
        &&& self.num_kv_heads == num_kv_heads
        &&& self.max_seq_len == DEFAULT_MAX_SEQ
        &&& self.pos_encoding == PositionEncoding::NoEncoding
        &&& self.w_q@.len() == num_heads * head_dim * hidden_size
        &&& self.w_k@.len() == num_kv_heads * head_dim * hidden_size
        &&& self.w_v@.len() == num_kv_heads * head_dim * hidden_size
        &&& self.w_o@.len() == num_heads * head_dim * hidden_size
        &&& drawn(to_weight, q_start, range, self.w_q@)
        &&& drawn(to_weight, k_start, range, self.w_k@)
        &&& drawn(to_weight, v_start, range, self.w_v@)
        &&& drawn(to_weight, o_start, range, self.w_o@)
    }

    /// Create a layer with random weights.
    pub fn random<F: Fn(u32, WeightRange) -> u32>(
        hidden_size: usize,
        head_dim: usize,
        num_heads: usize,
        num_kv_heads: usize,
        seed: u64,
        to_weight: &F,
    ) -> (r: FlashAttentionLayer)
        requires
            Self::sizes_fit(hidden_size, head_dim, num_heads, num_kv_heads),
            weighs_all(*to_weight),
        ensures
            r.is_random(hidden_size, head_dim, num_heads, num_kv_heads, seed, *to_weight),
    {
        let mut rng: SimpleRng = SimpleRng::new(seed);
        let range: WeightRange = WeightRange::Scaled { fan: hidden_size };
        let q_dim: usize = num_heads * head_dim;
        let kv_dim: usize = num_kv_heads * head_dim;
        let w_q: Vec<u32> = rng.draw(q_dim * hidden_size, range, to_weight);
        let w_k: Vec<u32> = rng.draw(kv_dim * hidden_size, range, to_weight);
        let w_v: Vec<u32> = rng.draw(kv_dim * hidden_size, range, to_weight);
        assert(hidden_size * q_dim == q_dim * hidden_size) by (nonlinear_arith);
        let w_o: Vec<u32> = rng.draw(hidden_size * q_dim, range, to_weight);
        FlashAttentionLayer {
            hidden_size,
            head_dim,
            num_heads,
            num_kv_heads,
            max_seq_len: DEFAULT_MAX_SEQ,
            w_q,
            w_k,
            w_v,
            w_o,
            pos_encoding: PositionEncoding::NoEncoding,
        }
    }
}

impl SequenceBlock for FlashAttentionLayer {
    type State = FlashAttentionState;

    /// Keys and values for the longest sequence.
    open spec fn state_elems(&self) -> nat {
        (2 * self.max_seq_len * self.num_kv_heads * self.head_dim) as nat
    }

    open spec fn state_fits(&self) -> bool {
        &&& self.num_kv_heads * self.head_dim <= usize::MAX
        &&& 2 * self.max_seq_len <= usize::MAX
        &&& 2 * self.max_seq_len * self.num_kv_heads <= usize::MAX
        &&& 2 * self.max_seq_len * self.num_kv_heads * self.head_dim * 4 <= usize::MAX
    }

    /// An empty cache.
    open spec fn is_fresh(&self, state: FlashAttentionState) -> bool {
        &&& state.kv_cache.wf()
        &&& state.kv_cache.model() == (DenseModel {
            k: Seq::empty(),
            v: Seq::empty(),
            len: 0,
            max_seq: self.max_seq_len as nat,
            head_dim: (self.num_kv_heads * self.head_dim) as nat,
        })
    }

    fn init_state(&self, config: &BlockConfig) -> (r: FlashAttentionState) {
        proof {
            let a: int = self.max_seq_len as int;
            let b: int = self.num_kv_heads as int;
            let c: int = self.head_dim as int;
            assert(a * (b * c) <= 2 * a * b * c * 4) by (nonlinear_arith)
                requires
                    a >= 0,
                    b >= 0,
                    c >= 0,
            ;
        }
        FlashAttentionState {
            kv_cache: DenseKVCache::new(self.max_seq_len, self.num_kv_heads * self.head_dim),
        }
    }

    /// Only describes the shape of the output: no data pass through here, and the state stays.
    fn forward_prefill(
        &self,
        input: &TensorView,
        state: &mut FlashAttentionState,
        config: &BlockConfig,
    ) -> (r: TensorView)
        ensures
            r.is_contiguous(input.shape@, DType::F32),
            *final(state) == *old(state),
    {
        same_shape(input)
    }

    /// Only describes the shape of the output: no data pass through here, and the state stays.
    fn forward_decode(
        &self,
        input: &TensorView,
        state: &mut FlashAttentionState,
        config: &BlockConfig,
    ) -> (r: TensorView)
        ensures
            r.is_contiguous(input.shape@, DType::F32),
            *final(state) == *old(state),
    {
        same_shape(input)
    }

    fn state_size_bytes(&self, config: &BlockConfig) -> (r: usize) {
        proof {
            let x: int = 2 * self.max_seq_len * self.num_kv_heads;
            assert(0 <= x * self.head_dim && x * self.head_dim <= x * self.head_dim * 4)
                by (nonlinear_arith)
                requires
                    x == 2 * self.max_seq_len * self.num_kv_heads,
            ;
        }
        2 * self.max_seq_len * self.num_kv_heads * self.head_dim * 4
    }
}

impl SoftmaxAttention for FlashAttentionLayer {
    open spec fn groups_heads(&self) -> bool {
        self.num_kv_heads > 0
    }

    fn cached_length(&self, state: &FlashAttentionState) -> (r: usize)
        ensures
            r == state.kv_cache.model().len,
    {
        state.kv_cache.len()
    }

    fn max_length(&self, state: &FlashAttentionState) -> (r: usize)
        ensures
            r == state.kv_cache.model().max_seq,
    {
        state.kv_cache.max_len()
    }

    fn position_encoding(&self) -> (r: PositionEncoding)
        ensures
            r == self.pos_encoding,
    {
        self.pos_encoding
    }

    fn cache_mode(&self) -> (r: KVCacheMode)
        ensures
            r == KVCacheMode::Dense,
    {
        KVCacheMode::Dense
    }

    fn gqa_config(&self) -> (r: GQAConfig)
        ensures
            r.group_size == self.num_heads as int / self.num_kv_heads as int,
    {
        GQAConfig { group_size: self.num_heads / self.num_kv_heads }
    }

    /// Only describes the shape of the output: no data pass through here, and the state stays.
    fn prefill_attention(
        &self,
        q: &TensorView,
        k: &TensorView,
        v: &TensorView,
        state: &mut FlashAttentionState,
        config: &BlockConfig,
    ) -> (r: TensorView)
        ensures
            r.is_contiguous(seq![q.shape@[0], self.hidden_size], DType::F32),
            *final(state) == *old(state),
    {
        let seq_len: usize = q.shape[0];
        proof {
            two_strides_fit(seq_len, self.hidden_size);
        }
        TensorView::new(vec![seq_len, self.hidden_size], DType::F32)
    }

    /// Only describes the shape of the output: no data pass through here, and the state stays.
    fn decode_attention(
        &self,
        q: &TensorView,
        k: &TensorView,
        v: &TensorView,
        state: &mut FlashAttentionState,
        config: &BlockConfig,
    ) -> (r: TensorView)
        ensures
            r.is_contiguous(seq![1usize, self.hidden_size], DType::F32),
            *final(state) == *old(state),
    {
        proof {
            two_strides_fit(1, self.hidden_size);
        }
        TensorView::new(vec![1, self.hidden_size], DType::F32)
    }
}

} // verus!
