//! Attention heads: taking token-major rows apart into heads, sharing KV heads among query heads,
//! and putting the heads' outputs back together.

use super::flash_attn::FlashAttentionLayer;
use crate::kernels::layout::{blocks, blocks_piece, blocks_same, piece, pieces_join, push_range};
use vstd::arithmetic::div_mod::*;
use vstd::prelude::*;

verus! {

/// Which way attention is computed.
#[derive(Debug, Clone, Copy, PartialEq, Eq, Structural)]
pub enum AttentionPath {
    /// As many queries as keys: the flash attention kernel, head by head.
    Prefill,
    /// One query against all keys: on the CPU.
    Decode,
}

/// The rows of head `h`, one per token, in data that holds all heads of a token side by side.
pub open spec fn head_rows(data: Seq<u32>, tokens: nat, heads: int, h: int, head_dim: int) -> Seq<
    u32,
> {
    blocks(tokens, |t: int| piece(data, t * heads + h, head_dim))
}

/// The rows of token `t`, one per head, in data that holds each head apart.
pub open spec fn token_rows(heads: Seq<Seq<u32>>, t: int, head_dim: int) -> Seq<u32> {
    blocks(heads.len(), |h: int| piece(heads[h], t, head_dim))
}

/// All heads of each token side by side, one token behind the other.
pub open spec fn merged(heads: Seq<Seq<u32>>, tokens: nat, head_dim: int) -> Seq<u32> {
    blocks(tokens, |t: int| token_rows(heads, t, head_dim))
}

/// The contents of vectors.
pub open spec fn contents(vs: Seq<Vec<u32>>) -> Seq<Seq<u32>> {
    vs.map_values(|v: Vec<u32>| v@)
}

/// Choose how to compute attention: as many queries as keys are a prefill; otherwise there must be
/// a single query.
pub fn attention_path(q_seq_len: usize, kv_seq_len: usize) -> (r: Option<AttentionPath>)
    ensures
        q_seq_len == kv_seq_len ==> r == Some(AttentionPath::Prefill),
        q_seq_len != kv_seq_len && q_seq_len == 1 ==> r == Some(AttentionPath::Decode),
        q_seq_len != kv_seq_len && q_seq_len != 1 ==> r is None,
{
    if q_seq_len == kv_seq_len {
        Some(AttentionPath::Prefill)
    } else if q_seq_len == 1 {
        Some(AttentionPath::Decode)
    } else {
        None
    }
}

/// The row of a token and head lies inside the data.
pub(crate) proof fn row_in_data(t: int, tokens: int, h: int, heads: int, head_dim: int)
    requires
        0 <= t < tokens,
        0 <= h < heads,
        0 <= head_dim,
    ensures
        0 <= t * heads,
        t * heads + h < tokens * heads,
        0 <= (t * heads + h) * head_dim,
        (t * heads + h) * head_dim + head_dim <= tokens * heads * head_dim,
{
    assert(0 <= t * heads && t * heads + heads <= tokens * heads) by (nonlinear_arith)
        requires
            0 <= t,
            t + 1 <= tokens,
            0 <= heads,
    ;
    let i: int = t * heads + h;
    let n: int = tokens * heads;
    assert(0 <= i * head_dim && i * head_dim + head_dim <= n * head_dim) by (nonlinear_arith)
        requires
            0 <= i,
            i + 1 <= n,
            0 <= head_dim,
    ;
}

impl FlashAttentionLayer {
    /// Split `[seq_len, total_heads * head_dim]` into `total_heads` times `[seq_len, head_dim]`.
    pub fn split_heads(&self, data: &[u32], seq_len: usize, total_heads: usize) -> (r: Vec<
        Vec<u32>,
    >)
        requires
            seq_len * total_heads <= usize::MAX,
            seq_len * total_heads * self.head_dim <= data.len(),
        ensures
            r.len() == total_heads,
            forall|h: int|
                0 <= h < total_heads ==> (#[trigger] r@[h])@ == head_rows(
                    data@,
                    seq_len as nat,
                    total_heads as int,
                    h,
                    self.head_dim as int,
                ),
    {
        let hd: usize = self.head_dim;
        let mut heads: Vec<Vec<u32>> = Vec::new();
        let mut h: usize = 0;
        while h < total_heads
            invariant
                h <= total_heads,
                hd == self.head_dim,
                heads.len() == h,
                seq_len * total_heads <= usize::MAX,
                seq_len * total_heads * hd <= data.len(),
                forall|i: int|
                    0 <= i < h ==> (#[trigger] heads@[i])@ == head_rows(
                        data@,
                        seq_len as nat,
                        total_heads as int,
                        i,
                        hd as int,
                    ),
            decreases total_heads - h,
        {
            let mut head: Vec<u32> = Vec::new();
            let mut t: usize = 0;
            while t < seq_len
                invariant
                    t <= seq_len,
                    h < total_heads,
                    seq_len * total_heads <= usize::MAX,
                    seq_len * total_heads * hd <= data.len(),
                    head@ == head_rows(data@, t as nat, total_heads as int, h as int, hd as int),
                decreases seq_len - t,
            {
                proof {
                    row_in_data(
                        t as int,
                        seq_len as int,
                        h as int,
                        total_heads as int,
                        hd as int,
                    );
                }
                push_range(&mut head, data, (t * total_heads + h) * hd, hd);
                t += 1;
            }
            heads.push(head);
            h += 1;
        }
        heads
    }

    /// Give each query head the KV head of its group.
    pub fn expand_kv_per_head(&self, kv_heads: &[Vec<u32>]) -> (r: Vec<Vec<u32>>)
        requires
            self.num_kv_heads != self.num_heads ==> self.num_kv_heads > 0,
            self.num_heads > 0 ==> self.num_heads >= self.num_kv_heads,
            self.num_kv_heads != self.num_heads && self.num_heads > 0 ==> (self.num_heads - 1) / (
            self.num_heads as int / self.num_kv_heads as int) < kv_heads.len(),
        ensures
            self.num_kv_heads == self.num_heads ==> contents(r@) == contents(kv_heads@),
            self.num_kv_heads != self.num_heads ==> r.len() == self.num_heads,
            self.num_kv_heads != self.num_heads ==> forall|q: int|
                0 <= q < self.num_heads ==> (#[trigger] r@[q])@ == kv_heads@[q / (
                self.num_heads as int / self.num_kv_heads as int)]@,
    {
        let mut expanded: Vec<Vec<u32>> = Vec::new();
        if self.num_kv_heads == self.num_heads {
            let mut i: usize = 0;
            while i < kv_heads.len()
                invariant
                    i <= kv_heads.len(),
                    expanded.len() == i,
                    forall|j: int| 0 <= j < i ==> (#[trigger] expanded@[j])@ == kv_heads@[j]@,
                decreases kv_heads.len() - i,
            {
                let head: Vec<u32> = kv_heads[i].clone();
                assert(head@ =~= kv_heads@[i as int]@);
                expanded.push(head);
                i += 1;
            }
            assert(contents(expanded@) =~= contents(kv_heads@));
            return expanded;
        }
        let group_size: usize = self.num_heads / self.num_kv_heads;
        let mut q_head: usize = 0;
        while q_head < self.num_heads
            invariant
                q_head <= self.num_heads,
                self.num_kv_heads > 0,
                self.num_heads > 0 ==> self.num_heads >= self.num_kv_heads,
                group_size == self.num_heads as int / self.num_kv_heads as int,
                self.num_heads > 0 ==> (self.num_heads - 1) / (group_size as int) < kv_heads.len(),
                expanded.len() == q_head,
                forall|q: int|
                    0 <= q < q_head ==> (#[trigger] expanded@[q])@ == kv_heads@[q
                        / group_size as int]@,
            decreases self.num_heads - q_head,
        {
            proof {
                lemma_div_non_zero(self.num_heads as int, self.num_kv_heads as int);
                lemma_div_is_ordered(q_head as int, self.num_heads - 1, group_size as int);
                lemma_div_pos_is_pos(q_head as int, group_size as int);
            }
            let kv_head: usize = q_head / group_size;
            let head: Vec<u32> = kv_heads[kv_head].clone();
            assert(head@ =~= kv_heads@[kv_head as int]@);
            expanded.push(head);
            q_head += 1;
        }
        expanded
    }

    /// What each query head attends with: its queries, and the keys and values of its group's KV
    /// head, each `[seq_len, head_dim]`.
    pub fn head_inputs(&self, q: &[u32], k: &[u32], v: &[u32], seq_len: usize) -> (r: (
        Vec<Vec<u32>>,
        Vec<Vec<u32>>,
        Vec<Vec<u32>>,
    ))
        requires
            self.num_kv_heads > 0,
            self.num_heads > 0 ==> self.num_heads >= self.num_kv_heads,
            self.num_heads > 0 ==> (self.num_heads - 1) / (self.num_heads as int
                / self.num_kv_heads as int) < self.num_kv_heads,
            seq_len * self.num_heads <= usize::MAX,
            seq_len * self.num_kv_heads <= usize::MAX,
            seq_len * self.num_heads * self.head_dim <= q.len(),
            seq_len * self.num_kv_heads * self.head_dim <= k.len(),
            seq_len * self.num_kv_heads * self.head_dim <= v.len(),
        ensures
            r.0.len() == self.num_heads,
            self.num_heads > 0 ==> r.1.len() == self.num_heads && r.2.len() == self.num_heads,
            forall|h: int|
                #![trigger r.0@[h]]
                #![trigger r.1@[h]]
                #![trigger r.2@[h]]
                0 <= h < self.num_heads ==> {
                    let n = seq_len as nat;
                    let hd = self.head_dim as int;
                    let nkv = self.num_kv_heads as int;
                    let kv_head = h / (self.num_heads as int / nkv);
                    &&& r.0@[h]@ == head_rows(q@, n, self.num_heads as int, h, hd)
                    &&& r.1@[h]@ == head_rows(k@, n, nkv, kv_head, hd)
                    &&& r.2@[h]@ == head_rows(v@, n, nkv, kv_head, hd)
                },
    {
        let q_heads: Vec<Vec<u32>> = self.split_heads(q, seq_len, self.num_heads);
        let k_heads_raw: Vec<Vec<u32>> = self.split_heads(k, seq_len, self.num_kv_heads);
        let v_heads_raw: Vec<Vec<u32>> = self.split_heads(v, seq_len, self.num_kv_heads);
        let k_heads: Vec<Vec<u32>> = self.expand_kv_per_head(k_heads_raw.as_slice());
        let v_heads: Vec<Vec<u32>> = self.expand_kv_per_head(v_heads_raw.as_slice());
        proof {
            let group: int = self.num_heads as int / self.num_kv_heads as int;
            if self.num_kv_heads == self.num_heads {
                lemma_div_by_self(self.num_heads as int);
                assert(contents(k_heads@).len() == k_heads.len());
                assert(contents(v_heads@).len() == v_heads.len());
            }
            assert forall|h: int| 0 <= h < self.num_heads implies k_heads@[h]@ == k_heads_raw@[h
                / group]@ && v_heads@[h]@ == v_heads_raw@[h / group]@ && 0 <= h / group
                < self.num_kv_heads by {
                if self.num_kv_heads == self.num_heads {
                    lemma_div_basics(h);
                    assert(contents(k_heads@)[h] == k_heads@[h]@);
                    assert(contents(v_heads@)[h] == v_heads@[h]@);
                } else {
                    lemma_div_non_zero(self.num_heads as int, self.num_kv_heads as int);
                    lemma_div_is_ordered(h, self.num_heads - 1, group);
                    lemma_div_pos_is_pos(h, group);
                }
            }
        }
        (q_heads, k_heads, v_heads)
    }
}

/// Put heads of `[seq_len, head_dim]` side by side: `[seq_len, num_heads * head_dim]`.
pub fn merge_heads(heads: &[Vec<u32>], seq_len: usize, head_dim: usize) -> (r: Vec<u32>)
    requires
        forall|h: int| 0 <= h < heads@.len() ==> seq_len * head_dim <= (#[trigger] heads@[h]).len(),
    ensures
        r@ == merged(contents(heads@), seq_len as nat, head_dim as int),
{
    let ghost all: Seq<Seq<u32>> = contents(heads@);
    let mut result: Vec<u32> = Vec::new();
    let mut t: usize = 0;
    while t < seq_len
        invariant
            t <= seq_len,
            all == contents(heads@),
            forall|h: int|
                0 <= h < heads@.len() ==> seq_len * head_dim <= (#[trigger] heads@[h]).len(),
            result@ == merged(all, t as nat, head_dim as int),
        decreases seq_len - t,
    {
        let ghost before: Seq<u32> = result@;
        let mut h: usize = 0;
        let ghost f: spec_fn(int) -> Seq<u32> = |i: int| piece(all[i], t as int, head_dim as int);
        assert(result@ =~= before + blocks(0, f));
        while h < heads.len()
            invariant
                h <= heads.len(),
                t < seq_len,
                all == contents(heads@),
                f == (|i: int| piece(all[i], t as int, head_dim as int)),
                forall|i: int|
                    0 <= i < heads@.len() ==> seq_len * head_dim <= (#[trigger] heads@[i]).len(),
                result@ == before + blocks(h as nat, f),
            decreases heads.len() - h,
        {
            assert(0 <= t * head_dim && t * head_dim + head_dim <= seq_len * head_dim)
                by (nonlinear_arith)
                requires
                    t + 1 <= seq_len,
            ;
            assert(seq_len * head_dim <= heads@[h as int].len());
            push_range(&mut result, heads[h].as_slice(), t * head_dim, head_dim);
            assert(result@ =~= before + (blocks(h as nat, f) + f(h as int)));
            h += 1;
        }
        assert(result@ == before + token_rows(all, t as int, head_dim as int));
        t += 1;
    }
    result
}

/// Heads that were split come back together: merging undoes splitting.
pub proof fn merging_undoes_splitting(
    data: Seq<u32>,
    heads: Seq<Seq<u32>>,
    tokens: nat,
    head_dim: nat,
)
    requires
        data.len() == tokens * heads.len() * head_dim,
        forall|h: int|
            0 <= h < heads.len() ==> #[trigger] heads[h] == head_rows(
                data,
                tokens,
                heads.len() as int,
                h,
                head_dim as int,
            ),
    ensures
        merged(heads, tokens, head_dim as int) == data,
{
    let nh: nat = heads.len();
    let hd: int = head_dim as int;
    let row: nat = nh * head_dim;
    assert(tokens * nh * head_dim == tokens * row) by (nonlinear_arith)
        requires
            row == nh * head_dim,
    ;
    let f: spec_fn(int) -> Seq<u32> = |t: int| token_rows(heads, t, hd);
    let g: spec_fn(int) -> Seq<u32> = |t: int| piece(data, t, row as int);
    assert forall|t: int| 0 <= t < tokens implies #[trigger] f(t) == g(t) by {
        let whole: Seq<u32> = piece(data, t, row as int);
        assert(0 <= t * row && t * row + row <= tokens * row) by (nonlinear_arith)
            requires
                0 <= t,
                t + 1 <= tokens,
        ;
        let a: spec_fn(int) -> Seq<u32> = |h: int| piece(heads[h], t, hd);
        let b: spec_fn(int) -> Seq<u32> = |h: int| piece(whole, h, hd);
        assert forall|h: int| 0 <= h < nh implies #[trigger] a(h) == b(h) by {
            row_in_data(t, tokens as int, h, nh as int, hd);
            let c: spec_fn(int) -> Seq<u32> = |u: int| piece(data, u * nh + h, hd);
            assert forall|u: int| 0 <= u < tokens implies (#[trigger] c(u)).len() == head_dim by {
                row_in_data(u, tokens as int, h, nh as int, hd);
            }
            blocks_piece(tokens, c, head_dim, t);
            assert(heads[h] == head_rows(data, tokens, nh as int, h, hd));
            assert(piece(heads[h], t, hd) == piece(data, t * nh + h, hd));
            assert(0 <= h * hd && h * hd + hd <= row) by (nonlinear_arith)
                requires
                    0 <= h,
                    h + 1 <= nh,
                    row == nh * hd,
                    0 <= hd,
            ;
            assert((t * nh + h) * hd == t * row + h * hd) by (nonlinear_arith)
                requires
                    row == nh * hd,
            ;
            assert(piece(whole, h, hd) =~= piece(data, t * nh + h, hd));
        }
        blocks_same(nh, a, b);
        pieces_join(whole, nh, head_dim);
    }
    blocks_same(tokens, f, g);
    pieces_join(data, tokens, row);
}

} // verus!
