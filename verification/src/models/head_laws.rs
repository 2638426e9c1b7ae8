//! Where the elements of heads and states go.

use super::flash_attn::{FlashAttentionLayer, FlashAttentionState};
use super::gating::{largest_logits_are_chosen, select_top2, two_experts_are_chosen};
use super::heads::{
    attention_path, contents, head_rows, merge_heads, merged, row_in_data, token_rows,
    AttentionPath,
};
use super::llama::{LlamaLayer, LlamaState};
use super::mamba::{MambaBlock, MambaState};
use super::rg_lru::{RgLruBlock, RgLruState};
use super::rwkv7::{Rwkv7Block, Rwkv7State};
use crate::float_laws::{is_number, number, numbers_are_ranked};
use crate::float_order::{is_nan, rank};
use crate::kernels::data_laws::at_row;
use crate::kernels::layout::{blocks_len, blocks_piece, piece};
use crate::traits::attention::{GQAConfig, KVCacheMode, PositionEncoding, SoftmaxAttention};
use crate::traits::linear::LinearSequenceModel;
use crate::traits::sequence::SequenceBlock;
use crate::traits::types::{row_major, tail_product, BlockConfig, DType, TensorView};
use vstd::arithmetic::div_mod::{lemma_fundamental_div_mod, lemma_fundamental_div_mod_converse};
use vstd::prelude::*;

verus! {

proof fn head_row_element(
    data: Seq<u32>,
    tokens: nat,
    heads: int,
    h: int,
    head_dim: nat,
    t: int,
    d: int,
)
    requires
        0 <= h < heads,
        0 <= t < tokens,
        0 <= d < head_dim,
        tokens * heads * head_dim <= data.len(),
    ensures
        head_rows(data, tokens, heads, h, head_dim as int).len() == tokens * head_dim,
        head_rows(data, tokens, heads, h, head_dim as int)[at_row(t, head_dim as int, d)]
            == data[at_row(at_row(t, heads, h), head_dim as int, d)],
{
    let hd: int = head_dim as int;
    let f: spec_fn(int) -> Seq<u32> = |u: int| piece(data, u * heads + h, hd);
    assert forall|u: int| 0 <= u < tokens implies (#[trigger] f(u)).len() == head_dim by {
        row_in_data(u, tokens as int, h, heads, hd);
    }
    blocks_len(tokens, f, head_dim);
    blocks_piece(tokens, f, head_dim, t);
    row_in_data(t, tokens as int, h, heads, hd);
    let rows: Seq<u32> = head_rows(data, tokens, heads, h, hd);
    assert(piece(rows, t, hd)[d] == rows[at_row(t, hd, d)]);
    assert(f(t)[d] == data[at_row(at_row(t, heads, h), hd, d)]);
}

/// Splitting takes element `d` of token `t` and head `h` from the row of the token, where its heads
/// stand side by side, to the rows of the head.
pub proof fn split_heads_take_their_columns(
    layer: FlashAttentionLayer,
    data: &[u32],
    seq_len: usize,
    total_heads: usize,
    r: Vec<Vec<u32>>,
    t: int,
    h: int,
    d: int,
)
    requires
        seq_len * total_heads * layer.head_dim <= data@.len(),
        call_ensures(
            FlashAttentionLayer::split_heads,
            (&layer, data, seq_len, total_heads),
            r,
        ),
        0 <= t < seq_len,
        0 <= h < total_heads,
        0 <= d < layer.head_dim,
    ensures
        r@.len() == total_heads,
        r@[h]@.len() == seq_len * layer.head_dim,
        r@[h]@[at_row(t, layer.head_dim as int, d)] == data@[at_row(
            at_row(t, total_heads as int, h),
            layer.head_dim as int,
            d,
        )],
{
    head_row_element(
        data@,
        seq_len as nat,
        total_heads as int,
        h,
        layer.head_dim as nat,
        t,
        d,
    );
}

/// Merging takes element `d` of token `t` and head `h` from the rows of the head back to the row of
/// the token.
pub proof fn merged_heads_stand_side_by_side(
    heads: &[Vec<u32>],
    seq_len: usize,
    head_dim: usize,
    r: Vec<u32>,
    t: int,
    h: int,
    d: int,
)
    requires
        forall|i: int|
            0 <= i < heads@.len() ==> seq_len * head_dim <= (#[trigger] heads@[i])@.len(),
        call_ensures(merge_heads, (heads, seq_len, head_dim), r),
        0 <= t < seq_len,
        0 <= h < heads@.len(),
        0 <= d < head_dim,
    ensures
        r@.len() == seq_len * (heads@.len() * head_dim),
        r@[at_row(at_row(t, heads@.len() as int, h), head_dim as int, d)] == heads@[h]@[at_row(
            t,
            head_dim as int,
            d,
        )],
{
    let all: Seq<Seq<u32>> = contents(heads@);
    let nh: nat = heads@.len();
    let hd: int = head_dim as int;
    let width: nat = nh * head_dim as nat;
    let rows: spec_fn(int) -> Seq<u32> = |u: int| token_rows(all, u, hd);
    assert forall|u: int| 0 <= u < seq_len implies (#[trigger] rows(u)).len() == width by {
        token_row_element(all, seq_len as nat, head_dim as nat, u, h, d);
    }
    blocks_len(seq_len as nat, rows, width);
    blocks_piece(seq_len as nat, rows, width, t);
    token_row_element(all, seq_len as nat, head_dim as nat, t, h, d);
    assert(merged(all, seq_len as nat, hd) == r@);
    let w: int = width as int;
    assert(0 <= at_row(h, hd, d) < w) by (nonlinear_arith)
        requires
            at_row(h, hd, d) == h * hd + d,
            w == nh * hd,
            0 <= h,
            h + 1 <= nh,
            0 <= d < hd,
    ;
    assert(piece(r@, t, w)[at_row(h, hd, d)] == r@[t * w + at_row(h, hd, d)]);
    assert(t * w + at_row(h, hd, d) == at_row(at_row(t, nh as int, h), hd, d)) by (nonlinear_arith)
        requires
            at_row(h, hd, d) == h * hd + d,
            w == nh * hd,
            at_row(at_row(t, nh as int, h), hd, d) == (t * nh + h) * hd + d,
    ;
}

proof fn token_row_element(
    heads: Seq<Seq<u32>>,
    tokens: nat,
    head_dim: nat,
    t: int,
    h: int,
    d: int,
)
    requires
        forall|i: int| 0 <= i < heads.len() ==> tokens * head_dim <= (#[trigger] heads[i]).len(),
        0 <= t < tokens,
        0 <= h < heads.len(),
        0 <= d < head_dim,
    ensures
        token_rows(heads, t, head_dim as int).len() == heads.len() * head_dim,
        token_rows(heads, t, head_dim as int)[at_row(h, head_dim as int, d)] == heads[h][at_row(
            t,
            head_dim as int,
            d,
        )],
{
    let hd: int = head_dim as int;
    let f: spec_fn(int) -> Seq<u32> = |i: int| piece(heads[i], t, hd);
    assert(0 <= t * hd && t * hd + hd <= tokens * head_dim) by (nonlinear_arith)
        requires
            0 <= t,
            t + 1 <= tokens,
            hd == head_dim,
    ;
    assert forall|i: int| 0 <= i < heads.len() implies (#[trigger] f(i)).len() == head_dim by {
        assert(tokens * head_dim <= heads[i].len());
    }
    blocks_len(heads.len(), f, head_dim);
    blocks_piece(heads.len(), f, head_dim, h);
    assert(tokens * head_dim <= heads[h].len());
    let row: Seq<u32> = token_rows(heads, t, hd);
    assert(piece(row, h, hd)[d] == row[at_row(h, hd, d)]);
    assert(piece(heads[h], t, hd)[d] == heads[h][at_row(t, hd, d)]);
}

/// The query head of a group is the one with the group's key head: `in_group` behind the group's
/// first.
proof fn group_head(num_heads: int, num_kv_heads: int, kv: int, in_group: int)
    requires
        num_kv_heads > 0,
        num_heads % num_kv_heads == 0,
        0 <= kv < num_kv_heads,
        0 <= in_group < num_heads / num_kv_heads,
    ensures
        ({
            let group = num_heads / num_kv_heads;
            let q = at_row(kv, group, in_group);
            &&& 0 <= q < num_heads
            &&& q / group == kv
            &&& num_heads == num_kv_heads ==> q == kv
        }),
{
    let group: int = num_heads / num_kv_heads;
    let q: int = at_row(kv, group, in_group);
    lemma_fundamental_div_mod(num_heads, num_kv_heads);
    assert(0 <= q < num_heads) by (nonlinear_arith)
        requires
            num_heads == num_kv_heads * group,
            q == kv * group + in_group,
            0 <= kv < num_kv_heads,
            0 <= in_group < group,
    ;
    assert(kv * group == group * kv) by (nonlinear_arith);
    lemma_fundamental_div_mod_converse(q, group, kv, in_group);
    if num_heads == num_kv_heads {
        assert(group == 1) by (nonlinear_arith)
            requires
                num_heads == num_kv_heads * group,
                num_heads == num_kv_heads,
                num_kv_heads > 0,
        ;
        assert(q == kv * group + in_group);
        assert(kv * group == kv) by (nonlinear_arith)
            requires
                group == 1,
        ;
    }
}

/// Each query head gets the key or value head of its group.
pub proof fn query_heads_get_the_head_of_their_group(
    layer: FlashAttentionLayer,
    kv_heads: &[Vec<u32>],
    r: Vec<Vec<u32>>,
    kv: int,
    in_group: int,
)
    requires
        layer.num_kv_heads > 0,
        layer.num_heads as int % layer.num_kv_heads as int == 0,
        kv_heads@.len() == layer.num_kv_heads,
        call_ensures(FlashAttentionLayer::expand_kv_per_head, (&layer, kv_heads), r),
        0 <= kv < layer.num_kv_heads,
        0 <= in_group < layer.num_heads as int / layer.num_kv_heads as int,
    ensures
        r@.len() == layer.num_heads,
        r@[at_row(kv, layer.num_heads as int / layer.num_kv_heads as int, in_group)]@
            == kv_heads@[kv]@,
{
    group_head(layer.num_heads as int, layer.num_kv_heads as int, kv, in_group);
    if layer.num_kv_heads == layer.num_heads {
        assert(contents(r@).len() == r@.len());
        assert(contents(kv_heads@).len() == kv_heads@.len());
        assert(contents(r@)[kv] == r@[kv]@);
        assert(contents(kv_heads@)[kv] == kv_heads@[kv]@);
    }
}

/// A query head attends with its own queries, and with the keys and the values of its group's head,
/// token by token.
pub proof fn heads_attend_with_their_own(
    layer: FlashAttentionLayer,
    q: &[u32],
    k: &[u32],
    v: &[u32],
    seq_len: usize,
    r: (Vec<Vec<u32>>, Vec<Vec<u32>>, Vec<Vec<u32>>),
    kv: int,
    in_group: int,
    t: int,
    d: int,
)
    requires
        layer.num_kv_heads > 0,
        layer.num_heads as int % layer.num_kv_heads as int == 0,
        seq_len * layer.num_heads * layer.head_dim <= q@.len(),
        seq_len * layer.num_kv_heads * layer.head_dim <= k@.len(),
        seq_len * layer.num_kv_heads * layer.head_dim <= v@.len(),
        call_ensures(FlashAttentionLayer::head_inputs, (&layer, q, k, v, seq_len), r),
        0 <= kv < layer.num_kv_heads,
        0 <= in_group < layer.num_heads as int / layer.num_kv_heads as int,
        0 <= t < seq_len,
        0 <= d < layer.head_dim,
    ensures
        ({
            let h = at_row(kv, layer.num_heads as int / layer.num_kv_heads as int, in_group);
            let hd = layer.head_dim as int;
            let q_at = at_row(at_row(t, layer.num_heads as int, h), hd, d);
            let kv_at = at_row(at_row(t, layer.num_kv_heads as int, kv), hd, d);
            &&& r.0@.len() == layer.num_heads
            &&& r.0@[h]@[at_row(t, hd, d)] == q@[q_at]
            &&& r.1@[h]@[at_row(t, hd, d)] == k@[kv_at]
            &&& r.2@[h]@[at_row(t, hd, d)] == v@[kv_at]
        }),
{
    group_head(layer.num_heads as int, layer.num_kv_heads as int, kv, in_group);
    let h: int = at_row(kv, layer.num_heads as int / layer.num_kv_heads as int, in_group);
    let n: nat = seq_len as nat;
    let hd: nat = layer.head_dim as nat;
    head_row_element(q@, n, layer.num_heads as int, h, hd, t, d);
    head_row_element(k@, n, layer.num_kv_heads as int, kv, hd, t, d);
    head_row_element(v@, n, layer.num_kv_heads as int, kv, hd, t, d);
    assert(r.0@[h]@ == head_rows(q@, n, layer.num_heads as int, h, hd as int));
}

/// A head's part of a projection is the stretch of `head_dim` elements behind those of the heads
/// in front of it.
pub proof fn head_parts_are_stretches(
    block: Rwkv7Block,
    projection: &[u32],
    head: usize,
    r: Vec<u32>,
    d: int,
)
    requires
        (head + 1) * block.head_dim <= projection@.len(),
        call_ensures(Rwkv7Block::head_part, (&block, projection, head), r),
        0 <= d < block.head_dim,
    ensures
        r@.len() == block.head_dim,
        r@[d] == projection@[at_row(head as int, block.head_dim as int, d)],
{
    let hd: int = block.head_dim as int;
    assert(0 <= head * hd && head * hd + hd == (head + 1) * hd) by (nonlinear_arith)
        requires
            0 <= hd,
    ;
}

/// A head's state is read where it is stored: a matrix of `head_dim` rows and columns behind those
/// of the heads in front of it. Storing one changes nothing else.
pub proof fn head_states_have_their_places(
    block: Rwkv7Block,
    state: &mut Rwkv7State,
    head: usize,
    matrix: &[u32],
    before: Vec<u32>,
    after: Vec<u32>,
    i: int,
)
    requires
        (head + 1) * (block.head_dim * block.head_dim) <= old(state).wkv_state@.len(),
        matrix@.len() == block.head_dim * block.head_dim,
        call_ensures(Rwkv7Block::head_state, (&block, &*old(state), head), before),
        call_ensures(Rwkv7Block::set_head_state, (&block, state, head, matrix), ()),
        call_ensures(Rwkv7Block::head_state, (&block, &*final(state), head), after),
        0 <= i < old(state).wkv_state@.len(),
    ensures
        ({
            let n = block.head_dim * block.head_dim;
            let first = at_row(head as int, n, 0);
            let mine = first <= i < first + n;
            &&& after@ == matrix@
            &&& final(state).wkv_state@.len() == old(state).wkv_state@.len()
            &&& final(state).prev_token@ == old(state).prev_token@
            &&& mine ==> before@[i - first] == old(state).wkv_state@[i]
            &&& mine ==> final(state).wkv_state@[i] == matrix@[i - first]
            &&& !mine ==> final(state).wkv_state@[i] == old(state).wkv_state@[i]
        }),
{
    let n: int = block.head_dim * block.head_dim;
    let first: int = head * n;
    assert(0 <= first && first + n == (head + 1) * n) by (nonlinear_arith)
        requires
            first == head * n,
            0 <= n,
    ;
    assert(after@ =~= matrix@);
}

/// States start as zeros: as many as the block has elements of state, of four bytes each. An
/// attention layer's state starts without tokens, with room for the keys and the values of its
/// longest sequence.
pub proof fn states_start_empty(
    config: BlockConfig,
    mamba: MambaBlock,
    mamba_state: MambaState,
    mamba_bytes: usize,
    rwkv: Rwkv7Block,
    rwkv_state: Rwkv7State,
    rwkv_bytes: usize,
    rg_lru: RgLruBlock,
    rg_lru_state: RgLruState,
    rg_lru_bytes: usize,
    i: int,
)
    requires
        call_ensures(MambaBlock::init_state, (&mamba, &config), mamba_state),
        call_ensures(MambaBlock::state_size_bytes, (&mamba, &config), mamba_bytes),
        call_ensures(Rwkv7Block::init_state, (&rwkv, &config), rwkv_state),
        call_ensures(Rwkv7Block::state_size_bytes, (&rwkv, &config), rwkv_bytes),
        call_ensures(RgLruBlock::init_state, (&rg_lru, &config), rg_lru_state),
        call_ensures(RgLruBlock::state_size_bytes, (&rg_lru, &config), rg_lru_bytes),
    ensures
        mamba_state.ssm_state@.len() == mamba.d_inner * mamba.d_state,
        mamba_bytes == 4 * mamba_state.ssm_state@.len(),
        0 <= i < mamba_state.ssm_state@.len() ==> mamba_state.ssm_state@[i] == 0,
        rwkv_state.wkv_state@.len() == rwkv.num_heads * (rwkv.head_dim * rwkv.head_dim),
        rwkv_state.prev_token@.len() == rwkv.hidden_size,
        rwkv_bytes == 4 * (rwkv_state.wkv_state@.len() + rwkv_state.prev_token@.len()),
        0 <= i < rwkv_state.wkv_state@.len() ==> rwkv_state.wkv_state@[i] == 0,
        0 <= i < rwkv_state.prev_token@.len() ==> rwkv_state.prev_token@[i] == 0,
        rg_lru_state.hidden@.len() == rg_lru.hidden_size,
        rg_lru_bytes == 4 * rg_lru_state.hidden@.len(),
        0 <= i < rg_lru_state.hidden@.len() ==> rg_lru_state.hidden@[i] == 0,
{
    assert(0 <= mamba.d_inner * mamba.d_state) by (nonlinear_arith);
    assert(rwkv.num_heads * rwkv.head_dim * rwkv.head_dim == rwkv.num_heads * (rwkv.head_dim
        * rwkv.head_dim) && 0 <= rwkv.num_heads * (rwkv.head_dim * rwkv.head_dim))
        by (nonlinear_arith);
}

/// An attention layer's state starts without tokens, with room for the longest sequence of keys and
/// values, each of all key heads, and takes four bytes for each of both.
pub proof fn attention_states_start_empty(
    config: BlockConfig,
    layer: FlashAttentionLayer,
    state: FlashAttentionState,
    bytes: usize,
    llama: LlamaLayer,
    llama_state: LlamaState,
    llama_bytes: usize,
)
    requires
        call_ensures(FlashAttentionLayer::init_state, (&layer, &config), state),
        call_ensures(FlashAttentionLayer::state_size_bytes, (&layer, &config), bytes),
        call_ensures(LlamaLayer::init_state, (&llama, &config), llama_state),
        call_ensures(LlamaLayer::state_size_bytes, (&llama, &config), llama_bytes),
    ensures
        state.kv_cache.model().k.len() == 0,
        state.kv_cache.model().v.len() == 0,
        state.kv_cache.model().len == 0,
        state.kv_cache.model().max_seq == layer.max_seq_len,
        state.kv_cache.model().head_dim == layer.num_kv_heads * layer.head_dim,
        bytes == 8 * (layer.max_seq_len * (layer.num_kv_heads * layer.head_dim)),
        llama_state.attn_state.kv_cache.model().len == 0,
        llama_state.attn_state.kv_cache.model().max_seq == llama.attention.max_seq_len,
        llama_state.attn_state.kv_cache.model().head_dim == llama.attention.num_kv_heads
            * llama.attention.head_dim,
        llama_bytes == 8 * (llama.attention.max_seq_len * (llama.attention.num_kv_heads
            * llama.attention.head_dim)),
{
    state_bytes(layer);
    state_bytes(llama.attention);
}

proof fn state_bytes(layer: FlashAttentionLayer)
    ensures
        layer.state_elems() == 2 * (layer.max_seq_len * (layer.num_kv_heads * layer.head_dim)),
        0 <= layer.num_kv_heads * layer.head_dim,
{
    assert(2 * layer.max_seq_len * layer.num_kv_heads * layer.head_dim == 2 * (layer.max_seq_len * (
    layer.num_kv_heads * layer.head_dim)) && 0 <= 2 * (layer.max_seq_len * (layer.num_kv_heads
        * layer.head_dim))) by (nonlinear_arith);
    assert(0 <= layer.num_kv_heads * layer.head_dim) by (nonlinear_arith);
}

/// An attention layer says of itself what it is: how many tokens its cache holds and can hold, that
/// the cache is dense, how positions are encoded, and how many query heads share a key head.
pub proof fn attention_describes_itself(
    layer: FlashAttentionLayer,
    state: FlashAttentionState,
    cached: usize,
    room: usize,
    mode: KVCacheMode,
    gqa: GQAConfig,
    encoding: PositionEncoding,
)
    requires
        call_ensures(FlashAttentionLayer::position_encoding, (&layer,), encoding),
        layer.num_kv_heads > 0,
        call_ensures(FlashAttentionLayer::cached_length, (&layer, &state), cached),
        call_ensures(FlashAttentionLayer::max_length, (&layer, &state), room),
        call_ensures(FlashAttentionLayer::cache_mode, (&layer,), mode),
        call_ensures(FlashAttentionLayer::gqa_config, (&layer,), gqa),
    ensures
        cached == state.kv_cache.model().len,
        room == state.kv_cache.model().max_seq,
        mode == KVCacheMode::Dense,
        encoding == layer.pos_encoding,
        gqa.group_size * layer.num_kv_heads <= layer.num_heads,
        layer.num_heads < (gqa.group_size + 1) * layer.num_kv_heads,
{
    let n: int = layer.num_heads as int;
    let m: int = layer.num_kv_heads as int;
    let g: int = gqa.group_size as int;
    lemma_fundamental_div_mod(n, m);
    assert(g * m <= n && n < (g + 1) * m) by (nonlinear_arith)
        requires
            n == m * g + n % m,
            0 <= n % m < m,
    ;
}

/// Of router logits that are numbers, the first expert that is chosen has the largest, and the
/// second the largest of the others. Of equal logits the earlier one is chosen. Whatever the logits
/// are, the two experts are different ones.
pub proof fn experts_with_largest_logits_are_chosen(logits: &[u32], r: (usize, usize), i: int)
    requires
        logits@.len() >= 2,
        call_ensures(select_top2, (logits,), r),
        0 <= i < logits@.len(),
    ensures
        r.0 < logits@.len(),
        r.1 < logits@.len(),
        r.0 != r.1,
        (forall|j: int| 0 <= j < logits@.len() ==> is_number(#[trigger] logits@[j])) ==> {
            let first = number(logits@[r.0 as int]);
            let second = number(logits@[r.1 as int]);
            let other = number(logits@[i]);
            &&& other <= first
            &&& i != r.0 ==> other <= second
            &&& i < r.0 ==> other < first
            &&& i < r.1 && i != r.0 ==> other < second
        },
{
    two_experts_are_chosen(logits@);
    if forall|j: int| 0 <= j < logits@.len() ==> is_number(#[trigger] logits@[j]) {
        assert forall|j: int| 0 <= j < logits@.len() implies !is_nan(#[trigger] logits@[j]) by {
            numbers_are_ranked(logits@[j], logits@[j]);
        }
        largest_logits_are_chosen(logits@);
        numbers_are_ranked(logits@[i], logits@[r.0 as int]);
        numbers_are_ranked(logits@[i], logits@[r.1 as int]);
        assert(rank(logits@[i]) <= rank(logits@[r.0 as int]));
    }
}

/// As many queries as keys are a prefill, one query among more keys is a decode, and anything else
/// is neither.
pub proof fn attention_goes_by_the_lengths(queries: usize, keys: usize, r: Option<AttentionPath>)
    requires
        call_ensures(attention_path, (queries, keys), r),
    ensures
        r == Some(AttentionPath::Prefill) <==> queries == keys,
        r == Some(AttentionPath::Decode) <==> queries == 1 && keys != 1,
        r is None <==> queries != keys && queries != 1,
{
}

/// Whether a view is of 32-bit floats in the given shape, from the front on, with the last stride
/// of 1.
pub open spec fn is_plain_view(r: TensorView, shape: Seq<usize>) -> bool {
    &&& r.shape@ == shape
    &&& r.dtype == DType::F32
    &&& r.offset == 0
    &&& r.strides@.len() == shape.len()
    &&& shape.len() > 0 ==> r.strides@[shape.len() - 1] == 1
}

proof fn contiguous_is_plain(r: TensorView, shape: Seq<usize>)
    requires
        r.is_contiguous(shape, DType::F32),
    ensures
        is_plain_view(r, shape),
{
    let strides: Seq<nat> = r.strides@.map_values(|s: usize| s as nat);
    assert(strides.len() == r.strides@.len());
    assert(strides == row_major(shape));
    if shape.len() > 0 {
        let last: int = shape.len() - 1;
        assert(strides[last] == r.strides@[last]);
        assert(strides[last] == tail_product(shape, last + 1));
    }
}

/// A layer of attention gives floats of the shape that it is given, and its state is left as it is.
pub proof fn attention_outputs_have_the_input_shape(
    block: FlashAttentionLayer,
    input: TensorView,
    config: BlockConfig,
    prefilling: &mut FlashAttentionState,
    prefilled: TensorView,
    decoding: &mut FlashAttentionState,
    decoded: TensorView,
)
    requires
        call_ensures(
            FlashAttentionLayer::forward_prefill,
            (&block, &input, prefilling, &config),
            prefilled,
        ),
        call_ensures(
            FlashAttentionLayer::forward_decode,
            (&block, &input, decoding, &config),
            decoded,
        ),
    ensures
        is_plain_view(prefilled, input.shape@),
        is_plain_view(decoded, input.shape@),
        *final(prefilling) == *old(prefilling),
        *final(decoding) == *old(decoding),
{
    contiguous_is_plain(prefilled, input.shape@);
    contiguous_is_plain(decoded, input.shape@);
}

/// A Llama layer gives floats of the shape that it is given, and its state is left as it is.
pub proof fn llama_outputs_have_the_input_shape(
    block: LlamaLayer,
    input: TensorView,
    config: BlockConfig,
    prefilling: &mut LlamaState,
    prefilled: TensorView,
    decoding: &mut LlamaState,
    decoded: TensorView,
)
    requires
        call_ensures(LlamaLayer::forward_prefill, (&block, &input, prefilling, &config), prefilled),
        call_ensures(LlamaLayer::forward_decode, (&block, &input, decoding, &config), decoded),
    ensures
        is_plain_view(prefilled, input.shape@),
        is_plain_view(decoded, input.shape@),
        *final(prefilling) == *old(prefilling),
        *final(decoding) == *old(decoding),
{
    contiguous_is_plain(prefilled, input.shape@);
    contiguous_is_plain(decoded, input.shape@);
}

/// A Mamba block gives floats of the shape that it is given, and its state is left as it is.
pub proof fn mamba_outputs_have_the_input_shape(
    block: MambaBlock,
    input: TensorView,
    config: BlockConfig,
    prefilling: &mut MambaState,
    prefilled: TensorView,
    decoding: &mut MambaState,
    decoded: TensorView,
    chunk_size: usize,
    chunking: &mut MambaState,
    chunked: TensorView,
    stepping: &mut MambaState,
    stepped: TensorView,
)
    requires
        call_ensures(
            MambaBlock::prefill_chunked,
            (&block, &input, chunking, &config, chunk_size),
            chunked,
        ),
        call_ensures(MambaBlock::decode_step, (&block, &input, stepping, &config), stepped),
        call_ensures(MambaBlock::forward_prefill, (&block, &input, prefilling, &config), prefilled),
        call_ensures(MambaBlock::forward_decode, (&block, &input, decoding, &config), decoded),
    ensures
        is_plain_view(prefilled, input.shape@),
        is_plain_view(decoded, input.shape@),
        is_plain_view(chunked, input.shape@),
        is_plain_view(stepped, input.shape@),
        *final(chunking) == *old(chunking),
        *final(stepping) == *old(stepping),
        *final(prefilling) == *old(prefilling),
        *final(decoding) == *old(decoding),
{
    contiguous_is_plain(chunked, input.shape@);
    contiguous_is_plain(stepped, input.shape@);
    contiguous_is_plain(prefilled, input.shape@);
    contiguous_is_plain(decoded, input.shape@);
}

/// A RWKV-7 block gives floats of the shape that it is given, and its state is left as it is.
pub proof fn rwkv7_outputs_have_the_input_shape(
    block: Rwkv7Block,
    input: TensorView,
    config: BlockConfig,
    prefilling: &mut Rwkv7State,
    prefilled: TensorView,
    decoding: &mut Rwkv7State,
    decoded: TensorView,
    chunk_size: usize,
    chunking: &mut Rwkv7State,
    chunked: TensorView,
    stepping: &mut Rwkv7State,
    stepped: TensorView,
)
    requires
        call_ensures(
            Rwkv7Block::prefill_chunked,
            (&block, &input, chunking, &config, chunk_size),
            chunked,
        ),
        call_ensures(Rwkv7Block::decode_step, (&block, &input, stepping, &config), stepped),
        call_ensures(Rwkv7Block::forward_prefill, (&block, &input, prefilling, &config), prefilled),
        call_ensures(Rwkv7Block::forward_decode, (&block, &input, decoding, &config), decoded),
    ensures
        is_plain_view(prefilled, input.shape@),
        is_plain_view(decoded, input.shape@),
        is_plain_view(chunked, input.shape@),
        is_plain_view(stepped, input.shape@),
        *final(chunking) == *old(chunking),
        *final(stepping) == *old(stepping),
        *final(prefilling) == *old(prefilling),
        *final(decoding) == *old(decoding),
{
    contiguous_is_plain(chunked, input.shape@);
    contiguous_is_plain(stepped, input.shape@);
    contiguous_is_plain(prefilled, input.shape@);
    contiguous_is_plain(decoded, input.shape@);
}

/// A RG-LRU block gives floats of the shape that it is given, and its state is left as it is.
pub proof fn rg_lru_outputs_have_the_input_shape(
    block: RgLruBlock,
    input: TensorView,
    config: BlockConfig,
    prefilling: &mut RgLruState,
    prefilled: TensorView,
    decoding: &mut RgLruState,
    decoded: TensorView,
    chunk_size: usize,
    chunking: &mut RgLruState,
    chunked: TensorView,
    stepping: &mut RgLruState,
    stepped: TensorView,
)
    requires
        call_ensures(
            RgLruBlock::prefill_chunked,
            (&block, &input, chunking, &config, chunk_size),
            chunked,
        ),
        call_ensures(RgLruBlock::decode_step, (&block, &input, stepping, &config), stepped),
        call_ensures(RgLruBlock::forward_prefill, (&block, &input, prefilling, &config), prefilled),
        call_ensures(RgLruBlock::forward_decode, (&block, &input, decoding, &config), decoded),
    ensures
        is_plain_view(prefilled, input.shape@),
        is_plain_view(decoded, input.shape@),
        is_plain_view(chunked, input.shape@),
        is_plain_view(stepped, input.shape@),
        *final(chunking) == *old(chunking),
        *final(stepping) == *old(stepping),
        *final(prefilling) == *old(prefilling),
        *final(decoding) == *old(decoding),
{
    contiguous_is_plain(chunked, input.shape@);
    contiguous_is_plain(stepped, input.shape@);
    contiguous_is_plain(prefilled, input.shape@);
    contiguous_is_plain(decoded, input.shape@);
}

/// Attention over a prompt gives one row for each query, as wide as the model, and over one token
/// one row.
pub proof fn attention_gives_rows_of_the_model(
    layer: FlashAttentionLayer,
    q: TensorView,
    k: TensorView,
    v: TensorView,
    config: BlockConfig,
    prefilling: &mut FlashAttentionState,
    prefilled: TensorView,
    decoding: &mut FlashAttentionState,
    decoded: TensorView,
)
    requires
        q.shape@.len() > 0,
        call_ensures(
            FlashAttentionLayer::prefill_attention,
            (&layer, &q, &k, &v, prefilling, &config),
            prefilled,
        ),
        call_ensures(
            FlashAttentionLayer::decode_attention,
            (&layer, &q, &k, &v, decoding, &config),
            decoded,
        ),
    ensures
        is_plain_view(prefilled, seq![q.shape@[0], layer.hidden_size]),
        is_plain_view(decoded, seq![1usize, layer.hidden_size]),
        *final(prefilling) == *old(prefilling),
        *final(decoding) == *old(decoding),
{
    contiguous_is_plain(prefilled, seq![q.shape@[0], layer.hidden_size]);
    contiguous_is_plain(decoded, seq![1usize, layer.hidden_size]);
}

/// An RWKV-7 block has a single head exactly if its heads are as wide as the model.
pub proof fn single_heads_span_the_model(block: Rwkv7Block, r: bool)
    requires
        call_ensures(Rwkv7Block::is_single_head, (&block,), r),
    ensures
        r <==> block.head_dim == block.hidden_size,
{
}

/// The recurrent blocks take heads of up to 64 elements and one token at a time, whatever the size
/// of a head.
pub proof fn recurrent_blocks_take_single_tokens(
    mamba: MambaBlock,
    rwkv: Rwkv7Block,
    rg_lru: RgLruBlock,
    head_dim: usize,
    widths: (usize, usize, usize),
    chunks: (usize, usize, usize),
)
    requires
        call_ensures(MambaBlock::max_head_dim, (&mamba,), widths.0),
        call_ensures(Rwkv7Block::max_head_dim, (&rwkv,), widths.1),
        call_ensures(RgLruBlock::max_head_dim, (&rg_lru,), widths.2),
        call_ensures(MambaBlock::optimal_chunk_size, (&mamba, head_dim), chunks.0),
        call_ensures(Rwkv7Block::optimal_chunk_size, (&rwkv, head_dim), chunks.1),
        call_ensures(RgLruBlock::optimal_chunk_size, (&rg_lru, head_dim), chunks.2),
    ensures
        widths == (64usize, 64usize, 64usize),
        chunks == (1usize, 1usize, 1usize),
{
}

} // verus!
