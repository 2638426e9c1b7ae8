//! How blocks of floats are laid out for the kernels: pages of keys and values side by side, and
//! key heads repeated for the query heads that share them.
//!
//! Floats are held by their bit patterns: nothing here looks inside them.

use super::paged_cache::{
    appending_conserves_pages, paged_reads_give_back_appends, token_position, tokens_in, PagedModel,
};
use vstd::arithmetic::div_mod::*;
use vstd::prelude::*;

verus! {

/// The blocks `f(0)`, `f(1)`, ... up to `count` of them, one behind the other.
pub open spec fn blocks(count: nat, f: spec_fn(int) -> Seq<u32>) -> Seq<u32>
    decreases count,
{
    if count == 0 {
        Seq::empty()
    } else {
        blocks((count - 1) as nat, f) + f(count - 1)
    }
}

/// The `i`-th of the pieces of `size` elements that a sequence is made of.
pub open spec fn piece(s: Seq<u32>, i: int, size: int) -> Seq<u32> {
    s.subrange(i * size, i * size + size)
}

/// Pages of keys and pages of values, each page of keys directly before its page of values.
pub open spec fn interleaved(k: Seq<u32>, v: Seq<u32>, pages: nat, page_elems: nat) -> Seq<u32> {
    blocks(pages, |p: int| piece(k, p, page_elems as int) + piece(v, p, page_elems as int))
}

/// One block per query head: that of the key head which its group shares.
pub open spec fn heads_repeated(k: Seq<u32>, head_elems: nat, num_heads: nat, group: int) -> Seq<
    u32,
> {
    blocks(num_heads, |q: int| piece(k, q / group, head_elems as int))
}

/// Where the keys of token `i` begin in interleaved pages.
pub open spec fn key_place(table: Seq<u32>, i: int, page_size: int, head_dim: int) -> int {
    table[i / page_size] * (2 * (page_size * head_dim)) + (i % page_size) * head_dim
}

/// Where the values of token `i` begin in interleaved pages: one page behind its keys.
pub open spec fn value_place(table: Seq<u32>, i: int, page_size: int, head_dim: int) -> int {
    key_place(table, i, page_size, head_dim) + page_size * head_dim
}

/// The keys of the first `count` tokens, found through a block table.
pub open spec fn keys_through(
    kv: Seq<u32>,
    table: Seq<u32>,
    page_size: int,
    head_dim: int,
    count: nat,
) -> Seq<u32> {
    blocks(
        count,
        |i: int|
            kv.subrange(
                key_place(table, i, page_size, head_dim),
                key_place(table, i, page_size, head_dim) + head_dim,
            ),
    )
}

/// The values of the first `count` tokens, found through a block table.
pub open spec fn values_through(
    kv: Seq<u32>,
    table: Seq<u32>,
    page_size: int,
    head_dim: int,
    count: nat,
) -> Seq<u32> {
    blocks(
        count,
        |i: int|
            kv.subrange(
                value_place(table, i, page_size, head_dim),
                value_place(table, i, page_size, head_dim) + head_dim,
            ),
    )
}

/// `count` blocks of one size have `count` times that size.
pub proof fn blocks_len(count: nat, f: spec_fn(int) -> Seq<u32>, size: nat)
    requires
        forall|i: int| 0 <= i < count ==> (#[trigger] f(i)).len() == size,
    ensures
        blocks(count, f).len() == count * size,
    decreases count,
{
    if count > 0 {
        blocks_len((count - 1) as nat, f, size);
        assert((count - 1) * size + size == count * size) by (nonlinear_arith);
    } else {
        assert(0 * size == 0) by (nonlinear_arith);
    }
}

/// Cut where they were joined, blocks of one size come apart again.
pub proof fn blocks_piece(count: nat, f: spec_fn(int) -> Seq<u32>, size: nat, i: int)
    requires
        forall|j: int| 0 <= j < count ==> (#[trigger] f(j)).len() == size,
        0 <= i < count,
    ensures
        piece(blocks(count, f), i, size as int) == f(i),
        0 <= i * size <= i * size + size <= blocks(count, f).len(),
    decreases count,
{
    let n: nat = (count - 1) as nat;
    blocks_len(count, f, size);
    blocks_len(n, f, size);
    assert(0 <= i * size) by (nonlinear_arith)
        requires
            0 <= i,
    ;
    assert((i + 1) * size <= count * size) by (nonlinear_arith)
        requires
            i + 1 <= count,
    ;
    assert((i + 1) * size == i * size + size) by (nonlinear_arith);
    if i < n {
        blocks_piece(n, f, size, i);
        assert((i + 1) * size <= n * size) by (nonlinear_arith)
            requires
                i + 1 <= n,
        ;
        assert(piece(blocks(count, f), i, size as int) =~= piece(blocks(n, f), i, size as int));
    } else {
        assert(piece(blocks(count, f), i, size as int) =~= f(i));
    }
}

/// Joining equal blocks gives equal sequences.
pub proof fn blocks_same(count: nat, f: spec_fn(int) -> Seq<u32>, g: spec_fn(int) -> Seq<u32>)
    requires
        forall|i: int| 0 <= i < count ==> #[trigger] f(i) == g(i),
    ensures
        blocks(count, f) == blocks(count, g),
    decreases count,
{
    if count > 0 {
        blocks_same((count - 1) as nat, f, g);
    }
}

/// A sequence is the join of its pieces.
pub proof fn pieces_join(s: Seq<u32>, count: nat, size: nat)
    requires
        s.len() == count * size,
    ensures
        blocks(count, |i: int| piece(s, i, size as int)) == s,
    decreases count,
{
    let f: spec_fn(int) -> Seq<u32> = |i: int| piece(s, i, size as int);
    if count > 0 {
        let n: nat = (count - 1) as nat;
        let head: Seq<u32> = s.take((n * size) as int);
        assert(n * size + size == count * size) by (nonlinear_arith)
            requires
                n == count - 1,
        ;
        pieces_join(head, n, size);
        let g: spec_fn(int) -> Seq<u32> = |i: int| piece(head, i, size as int);
        assert forall|i: int| 0 <= i < n implies #[trigger] f(i) == g(i) by {
            assert(0 <= i * size && i * size + size <= n * size) by (nonlinear_arith)
                requires
                    0 <= i,
                    i + 1 <= n,
            ;
            assert(f(i) =~= g(i));
        }
        blocks_same(n, f, g);
        assert(blocks(count, f) =~= s);
    } else {
        assert(0 * size == 0) by (nonlinear_arith);
        assert(s =~= Seq::empty());
    }
}

/// Appends `len` elements of a slice, from `at` on.
pub(crate) fn push_range(out: &mut Vec<u32>, src: &[u32], at: usize, len: usize)
    requires
        at + len <= src.len(),
    ensures
        final(out)@ == old(out)@ + src@.subrange(at as int, at + len),
{
    let mut i: usize = 0;
    assert(out@ =~= old(out)@ + src@.subrange(at as int, at as int));
    while i < len
        invariant
            i <= len,
            at + len <= src.len(),
            out@ == old(out)@ + src@.subrange(at as int, at + i),
        decreases len - i,
    {
        out.push(src[at + i]);
        i += 1;
        assert(out@ =~= old(out)@ + src@.subrange(at as int, at + i));
    }
}

/// Build an interleaved KV cache from separate K and V page pools.
///
/// Input layout: `[num_pages, page_size, head_dim]` each.
/// Output layout: `[num_pages, 2, page_size, head_dim]` (K then V per page).
pub fn interleave_kv_pages(
    k_pages: &[u32],
    v_pages: &[u32],
    num_pages: usize,
    page_size: usize,
    head_dim: usize,
) -> (r: Vec<u32>)
    requires
        page_size * head_dim <= usize::MAX,
        num_pages * (2 * (page_size * head_dim)) <= usize::MAX,
        num_pages * (page_size * head_dim) <= k_pages.len(),
        num_pages * (page_size * head_dim) <= v_pages.len(),
    ensures
        r@ == interleaved(k_pages@, v_pages@, num_pages as nat, (page_size * head_dim) as nat),
{
    let page_elems: usize = page_size * head_dim;
    let mut kv: Vec<u32> = Vec::new();
    let mut p: usize = 0;
    while p < num_pages
        invariant
            p <= num_pages,
            page_elems == page_size * head_dim,
            num_pages * page_elems <= k_pages.len(),
            num_pages * page_elems <= v_pages.len(),
            kv@ == interleaved(k_pages@, v_pages@, p as nat, page_elems as nat),
        decreases num_pages - p,
    {
        assert(p * page_elems + page_elems <= num_pages * page_elems) by (nonlinear_arith)
            requires
                p + 1 <= num_pages,
        ;
        assert(0 <= p * page_elems) by (nonlinear_arith);
        let ghost before: Seq<u32> = kv@;
        push_range(&mut kv, k_pages, p * page_elems, page_elems);
        push_range(&mut kv, v_pages, p * page_elems, page_elems);
        assert(kv@ =~= before + (piece(k_pages@, p as int, page_elems as int) + piece(
            v_pages@,
            p as int,
            page_elems as int,
        )));
        p += 1;
    }
    kv
}

/// Repeat each KV head for the query heads of its group.
///
/// Input layout: `[num_kv_heads, seq_len, head_dim]`. Output layout:
/// `[num_heads, seq_len, head_dim]`, where query head `q` has KV head
/// `q / (num_heads / num_kv_heads)`.
pub fn cpu_gqa_remap(
    k_full: &[u32],
    seq_len: usize,
    head_dim: usize,
    num_heads: usize,
    num_kv_heads: usize,
) -> (r: Vec<u32>)
    requires
        num_kv_heads > 0,
        num_heads > 0 ==> num_heads >= num_kv_heads,
        seq_len * head_dim <= usize::MAX,
        num_heads * (seq_len * head_dim) <= usize::MAX,
        num_heads > 0 ==> ((num_heads - 1) / (num_heads as int / num_kv_heads as int) + 1) * (
        seq_len * head_dim) <= k_full.len(),
    ensures
        r@ == heads_repeated(
            k_full@,
            (seq_len * head_dim) as nat,
            num_heads as nat,
            num_heads as int / num_kv_heads as int,
        ),
{
    let group_size: usize = num_heads / num_kv_heads;
    let head_elems: usize = seq_len * head_dim;
    let mut expanded: Vec<u32> = Vec::new();
    let mut q_head: usize = 0;
    while q_head < num_heads
        invariant
            q_head <= num_heads,
            num_kv_heads > 0,
            num_heads >= num_kv_heads || num_heads == 0,
            group_size == num_heads as int / num_kv_heads as int,
            head_elems == seq_len * head_dim,
            num_heads > 0 ==> ((num_heads - 1) / (group_size as int) + 1) * head_elems
                <= k_full.len(),
            expanded@ == heads_repeated(
                k_full@,
                head_elems as nat,
                q_head as nat,
                group_size as int,
            ),
        decreases num_heads - q_head,
    {
        proof {
            lemma_div_non_zero(num_heads as int, num_kv_heads as int);
            lemma_div_is_ordered(q_head as int, num_heads - 1, group_size as int);
            lemma_div_pos_is_pos(q_head as int, group_size as int);
        }
        let kv_head: usize = q_head / group_size;
        assert(kv_head * head_elems + head_elems == (kv_head + 1) * head_elems)
            by (nonlinear_arith);
        assert((kv_head + 1) * head_elems <= ((num_heads - 1) / (group_size as int) + 1)
            * head_elems) by (nonlinear_arith)
            requires
                kv_head + 1 <= (num_heads - 1) / (group_size as int) + 1,
        ;
        assert(0 <= kv_head * head_elems) by (nonlinear_arith);
        push_range(&mut expanded, k_full, kv_head * head_elems, head_elems);
        q_head += 1;
    }
    expanded
}

/// Collect the keys and values of the first `context_len` tokens from interleaved pages, each as
/// `[context_len, head_dim]`.
pub fn gather_kv_pages(
    kv_cache: &[u32],
    block_table: &[u32],
    head_dim: usize,
    page_size: usize,
    context_len: usize,
) -> (r: (Vec<u32>, Vec<u32>))
    requires
        page_size > 0,
        page_size * head_dim <= usize::MAX,
        context_len <= block_table.len() * page_size,
        forall|i: int|
            0 <= i < context_len ==> #[trigger] value_place(
                block_table@,
                i,
                page_size as int,
                head_dim as int,
            ) + head_dim <= kv_cache.len(),
    ensures
        r.0@ == keys_through(
            kv_cache@,
            block_table@,
            page_size as int,
            head_dim as int,
            context_len as nat,
        ),
        r.1@ == values_through(
            kv_cache@,
            block_table@,
            page_size as int,
            head_dim as int,
            context_len as nat,
        ),
{
    let page_elems: usize = page_size * head_dim;
    let mut keys: Vec<u32> = Vec::new();
    let mut values: Vec<u32> = Vec::new();
    let mut pos: usize = 0;
    while pos < context_len
        invariant
            pos <= context_len,
            page_size > 0,
            page_elems == page_size * head_dim,
            context_len <= block_table.len() * page_size,
            forall|i: int|
                0 <= i < context_len ==> #[trigger] value_place(
                    block_table@,
                    i,
                    page_size as int,
                    head_dim as int,
                ) + head_dim <= kv_cache.len(),
            keys@ == keys_through(
                kv_cache@,
                block_table@,
                page_size as int,
                head_dim as int,
                pos as nat,
            ),
            values@ == values_through(
                kv_cache@,
                block_table@,
                page_size as int,
                head_dim as int,
                pos as nat,
            ),
        decreases context_len - pos,
    {
        let logical_page: usize = pos / page_size;
        let slot: usize = pos % page_size;
        proof {
            lemma_fundamental_div_mod(pos as int, page_size as int);
            if logical_page >= block_table.len() {
                assert(page_size * logical_page >= block_table.len() * page_size)
                    by (nonlinear_arith)
                    requires
                        logical_page >= block_table.len(),
                ;
            }
        }
        let phys_page: usize = block_table[logical_page] as usize;
        proof {
            assert(value_place(block_table@, pos as int, page_size as int, head_dim as int)
                + head_dim <= kv_cache.len());
            assert(phys_page * (2 * page_elems) == phys_page * page_elems * 2) by (nonlinear_arith);
            assert(0 <= phys_page * page_elems) by (nonlinear_arith);
            assert(0 <= slot * head_dim) by (nonlinear_arith);
        }
        let k_base: usize = phys_page * page_elems * 2 + slot * head_dim;
        push_range(&mut keys, kv_cache, k_base, head_dim);
        push_range(&mut values, kv_cache, k_base + page_elems, head_dim);
        pos += 1;
    }
    (keys, values)
}

/// A stretch inside one page is found in the interleaved pages where the page begins there: the
/// keys' first, the values' one page on.
pub(crate) proof fn interleaved_stretch(
    k: Seq<u32>,
    v: Seq<u32>,
    pages: nat,
    page_elems: nat,
    page: int,
    at: int,
    len: int,
)
    requires
        k.len() == pages * page_elems,
        v.len() == pages * page_elems,
        0 <= page < pages,
        0 <= at,
        0 <= len,
        at + len <= page_elems,
    ensures
        ({
            let all = interleaved(k, v, pages, page_elems);
            let base = page * (2 * page_elems) + at;
            &&& 0 <= base
            &&& base + page_elems + len <= all.len()
            &&& all.subrange(base, base + len) == k.subrange(
                page * page_elems + at,
                page * page_elems + at + len,
            )
            &&& all.subrange(base + page_elems, base + page_elems + len) == v.subrange(
                page * page_elems + at,
                page * page_elems + at + len,
            )
        }),
{
    let pe: int = page_elems as int;
    let f: spec_fn(int) -> Seq<u32> = |p: int| piece(k, p, pe) + piece(v, p, pe);
    let size: nat = (2 * pe) as nat;
    assert forall|p: int| 0 <= p < pages implies (#[trigger] f(p)).len() == size && 0 <= p * pe && p
        * pe + pe <= pages * page_elems by {
        assert(0 <= p * pe && p * pe + pe <= pages * page_elems) by (nonlinear_arith)
            requires
                0 <= p,
                p + 1 <= pages,
                pe == page_elems,
        ;
    }
    blocks_piece(pages, f, size, page);
    let all: Seq<u32> = interleaved(k, v, pages, page_elems);
    let base: int = page * (2 * page_elems) + at;
    let here: Seq<u32> = piece(all, page, 2 * pe);
    assert(here == piece(k, page, pe) + piece(v, page, pe));
    assert(f(page).len() == size);
    assert(all.subrange(base, base + len) =~= here.subrange(at, at + len));
    assert(all.subrange(base + pe, base + pe + len) =~= here.subrange(pe + at, pe + at + len));
    assert(here.subrange(at, at + len) =~= k.subrange(page * pe + at, page * pe + at + len));
    assert(here.subrange(pe + at, pe + at + len) =~= v.subrange(
        page * pe + at,
        page * pe + at + len,
    ));
}

/// A cache's pages, interleaved, hold at each token's place that token's keys and values.
pub proof fn interleaved_pages_hold_tokens(m: PagedModel, i: int)
    requires
        m.wf(),
        m.page_size > 0,
        0 <= i < m.len,
    ensures
        ({
            let kv = interleaved(m.k_pool, m.v_pool, m.total_pages, m.page_elems());
            let k_at = key_place(m.table, i, m.page_size as int, m.head_dim as int);
            let v_at = value_place(m.table, i, m.page_size as int, m.head_dim as int);
            &&& 0 <= k_at
            &&& v_at + m.head_dim <= kv.len()
            &&& kv.subrange(k_at, k_at + m.head_dim) == m.k_token(i)
            &&& kv.subrange(v_at, v_at + m.head_dim) == m.v_token(i)
        }),
{
    token_position(m, i);
    let page: int = m.table[i / m.page_size as int] as int;
    let slot: int = i % m.page_size as int;
    let hd: int = m.head_dim as int;
    assert(0 <= slot * hd && slot * hd + hd <= m.page_size * hd) by (nonlinear_arith)
        requires
            0 <= slot,
            slot + 1 <= m.page_size,
            0 <= hd,
    ;
    interleaved_stretch(
        m.k_pool,
        m.v_pool,
        m.total_pages,
        m.page_elems(),
        page,
        slot * hd,
        hd,
    );
}

/// The tokens in a run of elements are its pieces.
pub(crate) proof fn tokens_are_pieces(data: Seq<u32>, head_dim: nat)
    requires
        head_dim > 0,
        data.len() % head_dim == 0,
    ensures
        tokens_in(data, head_dim).len() == data.len() / head_dim,
        forall|i: int|
            0 <= i < data.len() / head_dim ==> #[trigger] tokens_in(data, head_dim)[i] == piece(
                data,
                i,
                head_dim as int,
            ),
    decreases data.len(),
{
    let hd: int = head_dim as int;
    let len: int = data.len() as int;
    lemma_fundamental_div_mod(len, hd);
    if len >= hd {
        let rest: Seq<u32> = data.skip(hd);
        lemma_div_minus_one(len, hd);
        lemma_mod_sub_multiples_vanish(len, hd);
        assert((len - hd) / hd == len / hd - 1);
        tokens_are_pieces(rest, head_dim);
        assert forall|i: int| 0 <= i < len / hd implies #[trigger] tokens_in(data, head_dim)[i]
            == piece(data, i, hd) by {
            if i > 0 {
                assert((i - 1) * hd == i * hd - hd) by (nonlinear_arith);
                assert(0 <= (i - 1) * hd && i * hd + hd <= hd * (len / hd)) by (nonlinear_arith)
                    requires
                        1 <= i,
                        i + 1 <= len / hd,
                        0 < hd,
                ;
                assert(tokens_in(rest, head_dim)[i - 1] == piece(rest, i - 1, hd));
                assert(piece(rest, i - 1, hd) =~= piece(data, i, hd));
            } else {
                assert(0 * hd == 0) by (nonlinear_arith);
                assert(piece(data, 0, hd) =~= data.take(hd));
            }
        }
    } else {
        lemma_basic_div(len, hd);
    }
}

/// Attention over pages sees what attention over a dense cache would: the keys and values that were
/// appended to an empty cache come back whole, found through the block table in its interleaved
/// pages.
pub proof fn pages_give_back_dense_context(m: PagedModel, k: Seq<u32>, v: Seq<u32>)
    requires
        m.wf(),
        m.exclusive(),
        m.len == 0,
        m.page_size > 0,
        m.head_dim > 0,
        k.len() % m.head_dim == 0,
        v.len() == k.len(),
        k.len() / m.head_dim <= m.room(),
    ensures
        ({
            let after = m.with_tokens(k, v);
            let kv = interleaved(after.k_pool, after.v_pool, m.total_pages, m.page_elems());
            let ps = m.page_size as int;
            let hd = m.head_dim as int;
            &&& keys_through(kv, after.table, ps, hd, after.len) == k
            &&& values_through(kv, after.table, ps, hd, after.len) == v
        }),
{
    let after: PagedModel = m.with_tokens(k, v);
    let kv: Seq<u32> = interleaved(after.k_pool, after.v_pool, m.total_pages, m.page_elems());
    let ps: int = m.page_size as int;
    let hd: int = m.head_dim as int;
    paged_reads_give_back_appends(m, k, v);
    appending_conserves_pages(m, k, v);
    tokens_are_pieces(k, m.head_dim);
    tokens_are_pieces(v, m.head_dim);
    assert(m.k_tokens() + tokens_in(k, m.head_dim) =~= tokens_in(k, m.head_dim));
    assert(m.v_tokens() + tokens_in(v, m.head_dim) =~= tokens_in(v, m.head_dim));
    lemma_fundamental_div_mod(k.len() as int, hd);
    assert(hd * (k.len() as int / hd) == (k.len() as int / hd) * hd) by (nonlinear_arith);
    let f: spec_fn(int) -> Seq<u32> = |i: int|
        kv.subrange(key_place(after.table, i, ps, hd), key_place(after.table, i, ps, hd) + hd);
    let g: spec_fn(int) -> Seq<u32> = |i: int| piece(k, i, hd);
    assert forall|i: int| 0 <= i < after.len implies #[trigger] f(i) == g(i) by {
        interleaved_pages_hold_tokens(after, i);
        assert(after.k_tokens()[i] == after.k_token(i));
    }
    blocks_same(after.len, f, g);
    pieces_join(k, after.len, m.head_dim);
    let f2: spec_fn(int) -> Seq<u32> = |i: int|
        kv.subrange(value_place(after.table, i, ps, hd), value_place(after.table, i, ps, hd) + hd);
    let g2: spec_fn(int) -> Seq<u32> = |i: int| piece(v, i, hd);
    assert forall|i: int| 0 <= i < after.len implies #[trigger] f2(i) == g2(i) by {
        interleaved_pages_hold_tokens(after, i);
        assert(after.v_tokens()[i] == after.v_token(i));
    }
    blocks_same(after.len, f2, g2);
    pieces_join(v, after.len, m.head_dim);
}

/// Query head `q` of repeated heads has the block of KV head `q / group`, so the query heads of
/// one group share it.
pub proof fn group_shares_head(k: Seq<u32>, head_elems: nat, num_heads: nat, group: int, q: int)
    requires
        group > 0,
        0 <= q < num_heads,
        ((num_heads - 1) / group + 1) * head_elems <= k.len(),
    ensures
        piece(heads_repeated(k, head_elems, num_heads, group), q, head_elems as int) == piece(
            k,
            q / group,
            head_elems as int,
        ),
        heads_repeated(k, head_elems, num_heads, group).len() == num_heads * head_elems,
{
    let size: int = head_elems as int;
    let f: spec_fn(int) -> Seq<u32> = |h: int| piece(k, h / group, size);
    assert forall|h: int| 0 <= h < num_heads implies (#[trigger] f(h)).len() == head_elems by {
        lemma_div_is_ordered(h, num_heads - 1, group);
        lemma_div_pos_is_pos(h, group);
        assert(0 <= (h / group) * size && (h / group) * size + size <= ((num_heads - 1) / group
            + 1) * size) by (nonlinear_arith)
            requires
                0 <= h / group,
                h / group <= (num_heads - 1) / group,
                0 <= size,
        ;
    }
    blocks_piece(num_heads, f, head_elems, q);
    blocks_len(num_heads, f, head_elems);
}

/// With as many KV heads as query heads, repeating heads changes nothing.
pub proof fn one_head_per_group_is_unchanged(k: Seq<u32>, head_elems: nat, num_heads: nat)
    requires
        k.len() == num_heads * head_elems,
    ensures
        heads_repeated(k, head_elems, num_heads, 1) == k,
{
    let f: spec_fn(int) -> Seq<u32> = |q: int| piece(k, q / 1, head_elems as int);
    let g: spec_fn(int) -> Seq<u32> = |i: int| piece(k, i, head_elems as int);
    assert forall|q: int| 0 <= q < num_heads implies #[trigger] f(q) == g(q) by {
        lemma_div_basics(q);
    }
    blocks_same(num_heads, f, g);
    pieces_join(k, num_heads, head_elems);
}

} // verus!
