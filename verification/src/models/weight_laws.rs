//! Which draws of the generator each weight is made of.

use super::flash_attn::FlashAttentionLayer;
use super::jamba::MoEFFN;
use super::llama::LlamaLayer;
use super::mamba::MambaBlock;
use super::rg_lru::RgLruBlock;
use super::rwkv7::Rwkv7Block;
use super::weights::{
    drawn, draws_add_up, next_state, number_of, seeded, state_after, SimpleRng, WeightRange,
    LARGEST_DRAW,
};
use super::zamba::LoraProjector;
use vstd::prelude::*;

verus! {

/// Whether `after` is the state behind `before`: three times the state is combined with itself,
/// multiplied by 2 to the 13th, divided by 2 to the 7th, and multiplied by 2 to the 17th, where
/// what does not fit is lost.
pub open spec fn follows(before: u64, after: u64) -> bool {
    exists|a: u64, b: u64|
        #![trigger stirred(before, a, b, after)]
        stirred(before, a, b, after)
}

/// The three steps from one state to the next.
pub open spec fn stirred(before: u64, a: u64, b: u64, after: u64) -> bool {
    &&& a == before ^ before.wrapping_mul(8192)
    &&& b == a ^ (a / 128)
    &&& after == b ^ b.wrapping_mul(131072)
}

proof fn shifts_are_products(x: u64)
    ensures
        x << 13 == x.wrapping_mul(8192),
        x >> 7 == x / 128,
        x << 17 == x.wrapping_mul(131072),
{
    assert(x << 13 == (x * 8192) % 0x1_0000_0000_0000_0000) by (bit_vector);
    assert(x << 17 == (x * 131072) % 0x1_0000_0000_0000_0000) by (bit_vector);
    assert(x >> 7 == x / 128) by (bit_vector);
}

/// The generator goes from a state to the one that follows, and gives it.
pub proof fn generator_states_follow(rng: &mut SimpleRng, r: u64)
    requires
        call_ensures(SimpleRng::next_u64, (rng,), r),
    ensures
        follows(old(rng).state, r),
        final(rng).state == r,
{
    state_follows(old(rng).state);
}

proof fn state_follows(s: u64)
    ensures
        follows(s, next_state(s)),
{
    let a: u64 = s ^ (s << 13);
    let b: u64 = a ^ (a >> 7);
    shifts_are_products(s);
    shifts_are_products(a);
    shifts_are_products(b);
    assert(stirred(s, a, b, next_state(s)));
}

proof fn one_state_follows(s: u64, x: u64, y: u64)
    requires
        follows(s, x),
        follows(s, y),
    ensures
        x == y,
{
}

/// Whether `states` are those of the generator from a seed on: the first is one more than the seed,
/// around the end of the numbers, and each other follows the one before.
pub open spec fn is_run(seed: u64, states: spec_fn(int) -> u64) -> bool {
    &&& states(0) == (seed + 1) % 0x1_0000_0000_0000_0000
    &&& forall|i: int| 0 <= i ==> #[trigger] steps_on(states, i)
}

/// Whether the state behind state `i` follows it.
pub open spec fn steps_on(states: spec_fn(int) -> u64, i: int) -> bool {
    follows(states(i), states(i + 1))
}

/// Whether weight `i` of `w` is made of draw `from + i + 1` of a seed: the low 24 bits of the
/// state are given to `to_weight`, with the range.
#[verifier::opaque]
pub open spec fn takes_draws<F: Fn(u32, WeightRange) -> u32>(
    to_weight: F,
    seed: u64,
    from: int,
    range: WeightRange,
    w: Seq<u32>,
) -> bool {
    forall|states: spec_fn(int) -> u64, i: int|
        is_run(seed, states) && 0 <= i < w.len() ==> call_ensures(
            to_weight,
            ((#[trigger] states(from + i + 1) % 0x100_0000) as u32, range),
            #[trigger] w[i],
        )
}

/// Every seed has a run.
pub proof fn seeds_have_runs(seed: u64) -> (states: spec_fn(int) -> u64)
    ensures
        is_run(seed, states),
{
    let states: spec_fn(int) -> u64 = |i: int| state_after(seeded(seed), i as nat);
    assert forall|i: int| 0 <= i implies #[trigger] steps_on(states, i) by {
        state_follows(states(i));
    }
    states
}

proof fn runs_are_states(seed: u64, states: spec_fn(int) -> u64, n: nat)
    requires
        is_run(seed, states),
    ensures
        states(n as int) == state_after(seeded(seed), n),
    decreases n,
{
    if n > 0 {
        runs_are_states(seed, states, (n - 1) as nat);
        assert(steps_on(states, n - 1));
        state_follows(states(n - 1));
        one_state_follows(states(n - 1), states(n as int), next_state(states(n - 1)));
    }
}

proof fn low_bits(s: u64)
    ensures
        number_of(s) == (s % 0x100_0000) as u32,
{
    assert((s & 0xFF_FFFF) as u32 == (s % 0x100_0000) as u32) by (bit_vector);
}

proof fn drawn_are_taken<F: Fn(u32, WeightRange) -> u32>(
    to_weight: F,
    seed: u64,
    from: nat,
    range: WeightRange,
    w: Seq<u32>,
)
    requires
        drawn(to_weight, state_after(seeded(seed), from), range, w),
    ensures
        takes_draws(to_weight, seed, from as int, range, w),
{
    reveal(takes_draws);
    assert forall|states: spec_fn(int) -> u64, i: int|
        is_run(seed, states) && 0 <= i < w.len() implies call_ensures(
        to_weight,
        ((#[trigger] states(from + i + 1) % 0x100_0000) as u32, range),
        #[trigger] w[i],
    ) by {
        runs_are_states(seed, states, (from + i + 1) as nat);
        draws_add_up(seeded(seed), from, (i + 1) as nat);
        low_bits(states(from + i + 1));
    }
}

proof fn drawn_later_are_taken<F: Fn(u32, WeightRange) -> u32>(
    to_weight: F,
    seed: u64,
    start: u64,
    from: nat,
    more: nat,
    range: WeightRange,
    w: Seq<u32>,
)
    requires
        start == state_after(seeded(seed), from),
        drawn(to_weight, state_after(start, more), range, w),
    ensures
        state_after(start, more) == state_after(seeded(seed), from + more),
        takes_draws(to_weight, seed, (from + more) as int, range, w),
{
    draws_add_up(seeded(seed), from, more);
    drawn_are_taken(to_weight, seed, from + more, range, w);
}

/// What a generator draws from a seed are that seed's first draws, in order, and one run of draws
/// starts where the one before ended.
pub proof fn draws_are_in_order<F: Fn(u32, WeightRange) -> u32>(
    seed: u64,
    rng: SimpleRng,
    from: nat,
    drawing: &mut SimpleRng,
    n: usize,
    range: WeightRange,
    to_weight: &F,
    w: Vec<u32>,
    states: spec_fn(int) -> u64,
)
    requires
        call_ensures(SimpleRng::new, (seed,), rng),
        is_run(seed, states),
        old(drawing).state == states(from as int),
        call_ensures(SimpleRng::draw::<F>, (drawing, n, range, to_weight), w),
    ensures
        rng.state == states(0),
        w@.len() == n,
        takes_draws(*to_weight, seed, from as int, range, w@),
        final(drawing).state == states(from + n),
{
    runs_are_states(seed, states, 0);
    runs_are_states(seed, states, from);
    runs_are_states(seed, states, from + n as nat);
    draws_add_up(seeded(seed), from, n as nat);
    drawn_are_taken(*to_weight, seed, from, range, w@);
}

/// Whether an attention layer has the sizes asked for, and weights of as many draws as their
/// shapes have elements, in the order Q, K, V, output.
pub open spec fn attention_is_drawn<F: Fn(u32, WeightRange) -> u32>(
    layer: FlashAttentionLayer,
    hidden_size: usize,
    head_dim: usize,
    num_heads: usize,
    num_kv_heads: usize,
    seed: u64,
    to_weight: F,
) -> bool {
    let range = WeightRange::Scaled { fan: hidden_size };
    let q = num_heads * head_dim * hidden_size;
    let kv = num_kv_heads * head_dim * hidden_size;
    &&& layer.hidden_size == hidden_size
    &&& layer.head_dim == head_dim
    &&& layer.num_heads == num_heads
    &&& layer.num_kv_heads == num_kv_heads
    &&& layer.max_seq_len == 2048
    &&& layer.w_q@.len() == q && takes_draws(to_weight, seed, 0, range, layer.w_q@)
    &&& layer.w_k@.len() == kv && takes_draws(to_weight, seed, q, range, layer.w_k@)
    &&& layer.w_v@.len() == kv && takes_draws(to_weight, seed, q + kv, range, layer.w_v@)
    &&& layer.w_o@.len() == q && takes_draws(to_weight, seed, q + kv + kv, range, layer.w_o@)
}

/// A random attention layer has the draws of its seed.
pub proof fn random_attention_is_drawn<F: Fn(u32, WeightRange) -> u32>(
    hidden_size: usize,
    head_dim: usize,
    num_heads: usize,
    num_kv_heads: usize,
    seed: u64,
    to_weight: &F,
    r: FlashAttentionLayer,
)
    requires
        call_ensures(
            FlashAttentionLayer::random::<F>,
            (hidden_size, head_dim, num_heads, num_kv_heads, seed, to_weight),
            r,
        ),
    ensures
        attention_is_drawn(
            r,
            hidden_size,
            head_dim,
            num_heads,
            num_kv_heads,
            seed,
            *to_weight,
        ),
{
    attention_draws(r, hidden_size, head_dim, num_heads, num_kv_heads, seed, *to_weight);
}

proof fn attention_draws<F: Fn(u32, WeightRange) -> u32>(
    r: FlashAttentionLayer,
    hidden_size: usize,
    head_dim: usize,
    num_heads: usize,
    num_kv_heads: usize,
    seed: u64,
    to_weight: F,
)
    requires
        r.is_random(hidden_size, head_dim, num_heads, num_kv_heads, seed, to_weight),
    ensures
        attention_is_drawn(
            r,
            hidden_size,
            head_dim,
            num_heads,
            num_kv_heads,
            seed,
            to_weight,
        ),
{
    let range: WeightRange = WeightRange::Scaled { fan: hidden_size };
    let q: nat = r.w_q@.len();
    let kv: nat = r.w_k@.len();
    let q_start: u64 = seeded(seed);
    let k_start: u64 = state_after(q_start, q);
    let v_start: u64 = state_after(k_start, kv);
    assert(state_after(q_start, 0) == q_start);
    drawn_are_taken(to_weight, seed, 0, range, r.w_q@);
    drawn_later_are_taken(to_weight, seed, q_start, 0, q, range, r.w_k@);
    drawn_later_are_taken(to_weight, seed, k_start, q, kv, range, r.w_v@);
    drawn_later_are_taken(to_weight, seed, v_start, q + kv, kv, range, r.w_o@);
}

/// Whether a Llama layer has the sizes asked for, an attention layer of the next seed, norms of
/// ones, and an FFN of its own seed's draws, four times as wide as the layer, in the order gate,
/// up, down.
pub open spec fn llama_is_drawn<F: Fn(u32, WeightRange) -> u32>(
    layer: LlamaLayer,
    hidden_size: usize,
    head_dim: usize,
    num_heads: usize,
    num_kv_heads: usize,
    seed: u64,
    to_weight: F,
) -> bool {
    let range = WeightRange::Scaled { fan: hidden_size };
    let n = 4 * (hidden_size * hidden_size);
    &&& attention_is_drawn(
        layer.attention,
        hidden_size,
        head_dim,
        num_heads,
        num_kv_heads,
        (seed + 1) as u64,
        to_weight,
    )
    &&& layer.hidden_size == hidden_size
    &&& layer.intermediate_size == 4 * hidden_size
    &&& layer.attn_norm_weight@.len() == hidden_size
    &&& forall|i: int|
        0 <= i < hidden_size ==> #[trigger] layer.attn_norm_weight@[i] == 0x3F80_0000
    &&& layer.ffn_norm_weight@.len() == hidden_size
    &&& forall|i: int|
        0 <= i < hidden_size ==> #[trigger] layer.ffn_norm_weight@[i] == 0x3F80_0000
    &&& layer.w_gate@.len() == n && takes_draws(to_weight, seed, 0, range, layer.w_gate@)
    &&& layer.w_up@.len() == n && takes_draws(to_weight, seed, n, range, layer.w_up@)
    &&& layer.w_down@.len() == n && takes_draws(to_weight, seed, n + n, range, layer.w_down@)
}

/// A random Llama layer has the draws of its seed, and its attention those of the next.
pub proof fn random_llama_is_drawn<F: Fn(u32, WeightRange) -> u32>(
    hidden_size: usize,
    head_dim: usize,
    num_heads: usize,
    num_kv_heads: usize,
    seed: u64,
    to_weight: &F,
    r: LlamaLayer,
)
    requires
        call_ensures(
            LlamaLayer::random::<F>,
            (hidden_size, head_dim, num_heads, num_kv_heads, seed, to_weight),
            r,
        ),
    ensures
        llama_is_drawn(r, hidden_size, head_dim, num_heads, num_kv_heads, seed, *to_weight),
{
    llama_draws(r, hidden_size, head_dim, num_heads, num_kv_heads, seed, *to_weight);
}

pub(crate) proof fn llama_draws<F: Fn(u32, WeightRange) -> u32>(
    r: LlamaLayer,
    hidden_size: usize,
    head_dim: usize,
    num_heads: usize,
    num_kv_heads: usize,
    seed: u64,
    to_weight: F,
)
    requires
        r.is_random(hidden_size, head_dim, num_heads, num_kv_heads, seed, to_weight),
    ensures
        llama_is_drawn(r, hidden_size, head_dim, num_heads, num_kv_heads, seed, to_weight),
{
    let range: WeightRange = WeightRange::Scaled { fan: hidden_size };
    attention_draws(
        r.attention,
        hidden_size,
        head_dim,
        num_heads,
        num_kv_heads,
        (seed + 1) as u64,
        to_weight,
    );
    assert(hidden_size * 4 * hidden_size == 4 * (hidden_size * hidden_size)) by (nonlinear_arith);
    let n: nat = r.w_gate@.len();
    let s: u64 = seeded(seed);
    assert(state_after(s, 0) == s);
    drawn_are_taken(to_weight, seed, 0, range, r.w_gate@);
    drawn_later_are_taken(to_weight, seed, s, 0, n, range, r.w_up@);
    drawn_later_are_taken(to_weight, seed, state_after(s, n), n, n, range, r.w_down@);
}

/// Whether a Mamba block is twice as wide inside as the model, and has as many draws as its
/// parameters have elements, in the order input, gate, output, decay, B, C.
pub open spec fn mamba_is_drawn<F: Fn(u32, WeightRange) -> u32>(
    block: MambaBlock,
    hidden_size: usize,
    d_state: usize,
    seed: u64,
    to_weight: F,
) -> bool {
    let inside = 2 * hidden_size;
    let outer = WeightRange::Scaled { fan: hidden_size };
    let inner = WeightRange::Scaled { fan: inside as usize };
    let n = inside * hidden_size;
    let m = d_state * inside;
    &&& block.hidden_size == hidden_size
    &&& block.d_inner == inside
    &&& block.d_state == d_state
    &&& block.d_skip == 0x3F80_0000
    &&& block.use_gpu
    &&& block.w_in@.len() == n && takes_draws(to_weight, seed, 0, outer, block.w_in@)
    &&& block.w_gate@.len() == n && takes_draws(to_weight, seed, n, outer, block.w_gate@)
    &&& block.w_out@.len() == n && takes_draws(to_weight, seed, n + n, outer, block.w_out@)
    &&& block.a_log@.len() == inside && takes_draws(
        to_weight,
        seed,
        n + n + n,
        WeightRange::Decay,
        block.a_log@,
    )
    &&& block.w_b@.len() == m && takes_draws(
        to_weight,
        seed,
        n + n + n + inside,
        inner,
        block.w_b@,
    )
    &&& block.w_c@.len() == m && takes_draws(
        to_weight,
        seed,
        n + n + n + inside + m,
        inner,
        block.w_c@,
    )
}

/// A random Mamba block has the draws of its seed.
pub proof fn random_mamba_is_drawn<F: Fn(u32, WeightRange) -> u32>(
    hidden_size: usize,
    d_state: usize,
    seed: u64,
    to_weight: &F,
    r: MambaBlock,
)
    requires
        call_ensures(MambaBlock::random::<F>, (hidden_size, d_state, seed, to_weight), r),
    ensures
        mamba_is_drawn(r, hidden_size, d_state, seed, *to_weight),
{
    mamba_draws(r, hidden_size, d_state, seed, *to_weight);
}

pub(crate) proof fn mamba_draws<F: Fn(u32, WeightRange) -> u32>(
    r: MambaBlock,
    hidden_size: usize,
    d_state: usize,
    seed: u64,
    to_weight: F,
)
    requires
        r.is_random(hidden_size, d_state, seed, to_weight),
    ensures
        mamba_is_drawn(r, hidden_size, d_state, seed, to_weight),
{
    let outer: WeightRange = WeightRange::Scaled { fan: hidden_size };
    let inner: WeightRange = WeightRange::Scaled { fan: r.d_inner };
    let n: nat = r.w_in@.len();
    let d: nat = r.a_log@.len();
    let m: nat = r.w_b@.len();
    let s: u64 = seeded(seed);
    assert(state_after(s, 0) == s);
    drawn_are_taken(to_weight, seed, 0, outer, r.w_in@);
    drawn_later_are_taken(to_weight, seed, s, 0, n, outer, r.w_gate@);
    let s1: u64 = state_after(s, n);
    drawn_later_are_taken(to_weight, seed, s1, n, n, outer, r.w_out@);
    let s2: u64 = state_after(s1, n);
    drawn_later_are_taken(to_weight, seed, s2, n + n, n, WeightRange::Decay, r.a_log@);
    let s3: u64 = state_after(s2, n);
    drawn_later_are_taken(to_weight, seed, s3, n + n + n, d, inner, r.w_b@);
    let s4: u64 = state_after(s3, d);
    drawn_later_are_taken(to_weight, seed, s4, n + n + n + d, m, inner, r.w_c@);
}

/// Whether an RG-LRU block has four square projections of its seed's draws, in the order input,
/// recurrence gate, input gate, output.
pub open spec fn rg_lru_is_drawn<F: Fn(u32, WeightRange) -> u32>(
    block: RgLruBlock,
    hidden_size: usize,
    seed: u64,
    to_weight: F,
) -> bool {
    let range = WeightRange::Scaled { fan: hidden_size };
    let n = hidden_size * hidden_size;
    &&& block.hidden_size == hidden_size
    &&& block.w_in@.len() == n && takes_draws(to_weight, seed, 0, range, block.w_in@)
    &&& block.w_recurrence_gate@.len() == n && takes_draws(
        to_weight,
        seed,
        n,
        range,
        block.w_recurrence_gate@,
    )
    &&& block.w_input_gate@.len() == n && takes_draws(
        to_weight,
        seed,
        2 * n,
        range,
        block.w_input_gate@,
    )
    &&& block.w_out@.len() == n && takes_draws(to_weight, seed, 3 * n, range, block.w_out@)
}

/// A random RG-LRU block has the draws of its seed.
pub proof fn random_rg_lru_is_drawn<F: Fn(u32, WeightRange) -> u32>(
    hidden_size: usize,
    seed: u64,
    to_weight: &F,
    r: RgLruBlock,
)
    requires
        call_ensures(RgLruBlock::random::<F>, (hidden_size, seed, to_weight), r),
    ensures
        rg_lru_is_drawn(r, hidden_size, seed, *to_weight),
{
    rg_lru_draws(r, hidden_size, seed, *to_weight);
}

pub(crate) proof fn rg_lru_draws<F: Fn(u32, WeightRange) -> u32>(
    r: RgLruBlock,
    hidden_size: usize,
    seed: u64,
    to_weight: F,
)
    requires
        r.is_random(hidden_size, seed, to_weight),
    ensures
        rg_lru_is_drawn(r, hidden_size, seed, to_weight),
{
    let range: WeightRange = WeightRange::Scaled { fan: hidden_size };
    let n: nat = r.w_in@.len();
    let s: u64 = seeded(seed);
    assert(state_after(s, 0) == s);
    drawn_are_taken(to_weight, seed, 0, range, r.w_in@);
    drawn_later_are_taken(to_weight, seed, s, 0, n, range, r.w_recurrence_gate@);
    let s1: u64 = state_after(s, n);
    drawn_later_are_taken(to_weight, seed, s1, n, n, range, r.w_input_gate@);
    let s2: u64 = state_after(s1, n);
    drawn_later_are_taken(to_weight, seed, s2, n + n, n, range, r.w_out@);
}

/// Whether an RWKV-7 block has the draws of its seed: four rows of mixing factors between 0 and 1,
/// then five square projections, in the order receptance, key, value, decay and, of the
/// projections, output.
pub open spec fn rwkv7_is_drawn<F: Fn(u32, WeightRange) -> u32>(
    block: Rwkv7Block,
    hidden_size: usize,
    head_dim: usize,
    num_heads: usize,
    seed: u64,
    to_weight: F,
) -> bool {
    let h = hidden_size as int;
    let n = hidden_size * hidden_size;
    let range = WeightRange::Scaled { fan: hidden_size };
    let mixes = |w: Seq<u32>, i: int|
        w.len() == h && takes_draws(to_weight, seed, i * h, WeightRange::Unit, w);
    let projects = |w: Seq<u32>, i: int|
        w.len() == n && takes_draws(to_weight, seed, 4 * h + i * n, range, w);
    &&& block.hidden_size == hidden_size
    &&& block.head_dim == head_dim
    &&& block.num_heads == num_heads
    &&& block.use_gpu
    &&& mixes(block.mix_r@, 0)
    &&& mixes(block.mix_k@, 1)
    &&& mixes(block.mix_v@, 2)
    &&& mixes(block.mix_w@, 3)
    &&& projects(block.w_r@, 0)
    &&& projects(block.w_k@, 1)
    &&& projects(block.w_v@, 2)
    &&& projects(block.w_w@, 3)
    &&& projects(block.w_o@, 4)
}

/// A random RWKV-7 block has the draws of its seed.
pub proof fn random_rwkv7_is_drawn<F: Fn(u32, WeightRange) -> u32>(
    hidden_size: usize,
    head_dim: usize,
    num_heads: usize,
    seed: u64,
    to_weight: &F,
    r: Rwkv7Block,
)
    requires
        call_ensures(
            Rwkv7Block::random::<F>,
            (hidden_size, head_dim, num_heads, seed, to_weight),
            r,
        ),
    ensures
        rwkv7_is_drawn(r, hidden_size, head_dim, num_heads, seed, *to_weight),
{
    rwkv7_draws(r, hidden_size, head_dim, num_heads, seed, *to_weight);
}

pub(crate) proof fn rwkv7_draws<F: Fn(u32, WeightRange) -> u32>(
    r: Rwkv7Block,
    hidden_size: usize,
    head_dim: usize,
    num_heads: usize,
    seed: u64,
    to_weight: F,
)
    requires
        r.is_random(hidden_size, head_dim, num_heads, seed, to_weight),
    ensures
        rwkv7_is_drawn(r, hidden_size, head_dim, num_heads, seed, to_weight),
{
    let f: F = to_weight;
    let unit: WeightRange = WeightRange::Unit;
    let range: WeightRange = WeightRange::Scaled { fan: hidden_size };
    let h: nat = hidden_size as nat;
    let n: nat = (hidden_size * hidden_size) as nat;
    let s: u64 = seeded(seed);
    assert(state_after(s, 0) == s);
    drawn_are_taken(f, seed, 0, unit, r.mix_r@);
    drawn_later_are_taken(f, seed, s, 0, h, unit, r.mix_k@);
    let s1: u64 = state_after(s, h);
    drawn_later_are_taken(f, seed, s1, h, h, unit, r.mix_v@);
    let s2: u64 = state_after(s1, h);
    drawn_later_are_taken(f, seed, s2, 2 * h, h, unit, r.mix_w@);
    let s3: u64 = state_after(s2, h);
    drawn_later_are_taken(f, seed, s3, 3 * h, h, range, r.w_r@);
    let p: u64 = state_after(s3, h);
    drawn_later_are_taken(f, seed, p, 4 * h, n, range, r.w_k@);
    let p1: u64 = state_after(p, n);
    drawn_later_are_taken(f, seed, p1, 4 * h + n, n, range, r.w_v@);
    let p2: u64 = state_after(p1, n);
    drawn_later_are_taken(f, seed, p2, 4 * h + 2 * n, n, range, r.w_w@);
    let p3: u64 = state_after(p2, n);
    drawn_later_are_taken(f, seed, p3, 4 * h + 3 * n, n, range, r.w_o@);
}

/// Whether experts are twice as wide as the model, with a router in front of them, and then for
/// each expert the draws of its gate, up and down projections.
pub open spec fn experts_are_drawn<F: Fn(u32, WeightRange) -> u32>(
    moe: MoEFFN,
    hidden_size: usize,
    num_experts: usize,
    seed: u64,
    to_weight: F,
) -> bool {
    let range = WeightRange::Scaled { fan: hidden_size };
    let n = 2 * (hidden_size * hidden_size);
    let router = num_experts * hidden_size;
    &&& moe.num_experts == num_experts
    &&& moe.hidden_size == hidden_size
    &&& moe.expert_intermediate_size == 2 * hidden_size
    &&& moe.w_router@.len() == router && takes_draws(to_weight, seed, 0, range, moe.w_router@)
    &&& moe.w_expert_gate@.len() == num_experts
    &&& moe.w_expert_up@.len() == num_experts
    &&& moe.w_expert_down@.len() == num_experts
    &&& forall|e: int|
        0 <= e < num_experts ==> {
            let from = router + e * (3 * n);
            let gate = #[trigger] moe.w_expert_gate@[e]@;
            let up = moe.w_expert_up@[e]@;
            let down = moe.w_expert_down@[e]@;
            &&& gate.len() == n && takes_draws(to_weight, seed, from, range, gate)
            &&& up.len() == n && takes_draws(to_weight, seed, from + n, range, up)
            &&& down.len() == n && takes_draws(to_weight, seed, from + n + n, range, down)
        }
}

/// Random experts have the draws of their seed.
pub proof fn random_experts_are_drawn<F: Fn(u32, WeightRange) -> u32>(
    hidden_size: usize,
    num_experts: usize,
    seed: u64,
    to_weight: &F,
    r: MoEFFN,
)
    requires
        call_ensures(MoEFFN::random::<F>, (hidden_size, num_experts, seed, to_weight), r),
    ensures
        experts_are_drawn(r, hidden_size, num_experts, seed, *to_weight),
{
    experts_draws(r, hidden_size, num_experts, seed, *to_weight);
}

pub(crate) proof fn experts_draws<F: Fn(u32, WeightRange) -> u32>(
    r: MoEFFN,
    hidden_size: usize,
    num_experts: usize,
    seed: u64,
    to_weight: F,
)
    requires
        r.is_random(hidden_size, num_experts, seed, to_weight),
    ensures
        experts_are_drawn(r, hidden_size, num_experts, seed, to_weight),
{
    let range: WeightRange = WeightRange::Scaled { fan: hidden_size };
    let n: nat = (hidden_size * 2 * hidden_size) as nat;
    assert(hidden_size * 2 * hidden_size == 2 * (hidden_size * hidden_size)) by (nonlinear_arith);
    let router: nat = r.w_router@.len();
    let s: u64 = seeded(seed);
    assert(state_after(s, 0) == s);
    drawn_are_taken(to_weight, seed, 0, range, r.w_router@);
    let start: u64 = state_after(s, router);
    assert forall|e: int| 0 <= e < num_experts implies {
        let from = router + e * (3 * n);
        let gate = #[trigger] r.w_expert_gate@[e]@;
        let up = r.w_expert_up@[e]@;
        let down = r.w_expert_down@[e]@;
        &&& gate.len() == n && takes_draws(to_weight, seed, from, range, gate)
        &&& up.len() == n && takes_draws(to_weight, seed, from + n, range, up)
        &&& down.len() == n && takes_draws(to_weight, seed, from + n + n, range, down)
    } by {
        assert(0 <= e * (3 * n)) by (nonlinear_arith)
            requires
                0 <= e,
        ;
        let skip: nat = (e * (3 * n)) as nat;
        let from: nat = router + skip;
        let t: u64 = state_after(start, skip);
        drawn_later_are_taken(to_weight, seed, start, router, skip, range, r.w_expert_gate@[e]@);
        drawn_later_are_taken(to_weight, seed, t, from, n, range, r.w_expert_up@[e]@);
        drawn_later_are_taken(to_weight, seed, t, from, n + n, range, r.w_expert_down@[e]@);
    }
}

/// Whether a projector has a down projection of its seed's first draws, and behind them an up
/// projection near zero.
pub open spec fn projector_is_drawn<F: Fn(u32, WeightRange) -> u32>(
    projector: LoraProjector,
    hidden_size: usize,
    rank: usize,
    seed: u64,
    to_weight: F,
) -> bool {
    let n = rank * hidden_size;
    &&& projector.hidden_size == hidden_size
    &&& projector.rank == rank
    &&& projector.scale == 0x3F80_0000
    &&& projector.w_a@.len() == n && takes_draws(
        to_weight,
        seed,
        0,
        WeightRange::Scaled { fan: rank },
        projector.w_a@,
    )
    &&& projector.w_b@.len() == n && takes_draws(
        to_weight,
        seed,
        n,
        WeightRange::NearZero,
        projector.w_b@,
    )
}

/// A random projector has the draws of its seed.
pub proof fn random_projector_is_drawn<F: Fn(u32, WeightRange) -> u32>(
    hidden_size: usize,
    rank: usize,
    seed: u64,
    to_weight: &F,
    r: LoraProjector,
)
    requires
        call_ensures(LoraProjector::random::<F>, (hidden_size, rank, seed, to_weight), r),
    ensures
        projector_is_drawn(r, hidden_size, rank, seed, *to_weight),
{
    projector_draws(r, hidden_size, rank, seed, *to_weight);
}

pub(crate) proof fn projector_draws<F: Fn(u32, WeightRange) -> u32>(
    r: LoraProjector,
    hidden_size: usize,
    rank: usize,
    seed: u64,
    to_weight: F,
)
    requires
        r.is_random(hidden_size, rank, seed, to_weight),
    ensures
        projector_is_drawn(r, hidden_size, rank, seed, to_weight),
{
    let s: u64 = seeded(seed);
    assert(state_after(s, 0) == s);
    drawn_are_taken(to_weight, seed, 0, WeightRange::Scaled { fan: rank }, r.w_a@);
    drawn_later_are_taken(to_weight, seed, s, 0, r.w_a@.len(), WeightRange::NearZero, r.w_b@);
}

/// The number that is drawn is the low 24 bits of the state that follows. It is the largest draw
/// where all of them are set.
pub proof fn drawn_numbers_are_low_bits(rng: &mut SimpleRng, r: u32)
    requires
        call_ensures(SimpleRng::next_number, (rng,), r),
    ensures
        follows(old(rng).state, final(rng).state),
        r == final(rng).state % 0x100_0000,
        r == LARGEST_DRAW <==> (final(rng).state + 1) % 0x100_0000 == 0,
{
    state_follows(old(rng).state);
    low_bits(final(rng).state);
}

} // verus!
