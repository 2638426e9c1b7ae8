//! Where the elements of caches, pages and heads go.

use super::kv_cache::DenseKVCache;
use super::layout::{
    blocks_len, blocks_piece, cpu_gqa_remap, gather_kv_pages, group_shares_head,
    interleave_kv_pages, interleaved, interleaved_stretch, key_place, keys_through, piece,
    tokens_are_pieces, value_place, values_through,
};
use super::paged_cache::{
    appending_conserves_pages, caches_have_models, paged_reads_give_back_appends, slot_in_pool,
    token_position, tokens_in, PagedKVCache, PagedModel,
};
use super::prefix_sum::cpu_prefix_sum;
use vstd::arithmetic::div_mod::{lemma_fundamental_div_mod, lemma_fundamental_div_mod_converse};
use vstd::prelude::*;

verus! {

/// The row-major index of element `d` of row `i`, where each row has `width` elements.
pub open spec fn at_row(i: int, width: int, d: int) -> int {
    i * width + d
}

/// A new cache has no keys and no values, and room for as many tokens of as many elements as it
/// was made for.
pub proof fn new_caches_are_empty(
    max_seq: usize,
    head_dim: usize,
    cache: DenseKVCache,
    k: &[u32],
    v: &[u32],
    len: usize,
    max_len: usize,
    dim: usize,
)
    requires
        call_ensures(DenseKVCache::new, (max_seq, head_dim), cache),
        call_ensures(DenseKVCache::k_slice, (&cache,), k),
        call_ensures(DenseKVCache::v_slice, (&cache,), v),
        call_ensures(DenseKVCache::len, (&cache,), len),
        call_ensures(DenseKVCache::max_len, (&cache,), max_len),
        call_ensures(DenseKVCache::head_dim, (&cache,), dim),
    ensures
        k@.len() == 0,
        v@.len() == 0,
        len == 0,
        max_len == max_seq,
        dim == head_dim,
{
}

/// What is appended to a cache is found behind what it held before: new keys among the keys, and
/// new values among the values. The cache counts one token for each `head_dim` of them.
pub proof fn appended_tokens_follow(
    cache: &mut DenseKVCache,
    k_new: &[u32],
    v_new: &[u32],
    k_before: &[u32],
    v_before: &[u32],
    len_before: usize,
    head_dim: usize,
    k: &[u32],
    v: &[u32],
    len: usize,
)
    requires
        call_ensures(DenseKVCache::head_dim, (&*old(cache),), head_dim),
        head_dim > 0,
        call_ensures(DenseKVCache::k_slice, (&*old(cache),), k_before),
        call_ensures(DenseKVCache::v_slice, (&*old(cache),), v_before),
        call_ensures(DenseKVCache::len, (&*old(cache),), len_before),
        call_ensures(DenseKVCache::append, (cache, k_new, v_new), ()),
        call_ensures(DenseKVCache::k_slice, (&*final(cache),), k),
        call_ensures(DenseKVCache::v_slice, (&*final(cache),), v),
        call_ensures(DenseKVCache::len, (&*final(cache),), len),
    ensures
        k@ == k_before@ + k_new@,
        v@ == v_before@ + v_new@,
        k_new@.len() % head_dim as nat == 0 ==> (len - len_before) * head_dim == k_new@.len(),
{
    lemma_fundamental_div_mod(k_new@.len() as int, head_dim as int);
    let n: int = len - len_before;
    assert(n * head_dim == head_dim * n) by (nonlinear_arith);
}

/// A cache that is reset has no tokens left, and as much room as before.
pub proof fn reset_caches_are_empty(cache: &mut DenseKVCache, k: &[u32], v: &[u32], len: usize)
    requires
        call_ensures(DenseKVCache::reset, (cache,), ()),
        call_ensures(DenseKVCache::k_slice, (&*final(cache),), k),
        call_ensures(DenseKVCache::v_slice, (&*final(cache),), v),
        call_ensures(DenseKVCache::len, (&*final(cache),), len),
    ensures
        k@.len() == 0,
        v@.len() == 0,
        len == 0,
        final(cache).model().max_seq == old(cache).model().max_seq,
        final(cache).model().head_dim == old(cache).model().head_dim,
{
}

/// Whether `pool` has element `d` of token `i` as `x`: in the page that the block table names for
/// each `page_size` tokens, at the token's slot in the page.
pub open spec fn pool_has(
    pool: Seq<u32>,
    table: Seq<u32>,
    page_size: int,
    head_dim: int,
    i: int,
    d: int,
    x: u32,
) -> bool {
    let at = table[i / page_size] * (page_size * head_dim) + (i % page_size) * head_dim + d;
    0 <= at < pool.len() && pool[at] == x
}

proof fn token_element(m: PagedModel, k: Seq<Seq<u32>>, i: int, d: int)
    requires
        m.wf(),
        m.page_size > 0,
        0 <= i < m.len,
        0 <= d < m.head_dim,
        k == m.k_tokens() || k == m.v_tokens(),
    ensures
        k == m.k_tokens() ==> pool_has(
            m.k_pool,
            m.table,
            m.page_size as int,
            m.head_dim as int,
            i,
            d,
            k[i][d],
        ),
        k == m.v_tokens() ==> pool_has(
            m.v_pool,
            m.table,
            m.page_size as int,
            m.head_dim as int,
            i,
            d,
            k[i][d],
        ),
{
    token_position(m, i);
    let page: int = m.table[i / m.page_size as int] as int;
    let slot: int = i % m.page_size as int;
    slot_in_pool(
        page,
        m.total_pages as int,
        slot,
        m.page_size as int,
        m.head_dim as int,
    );
}

/// What is appended to a paged cache is found through its block table, behind what was there
/// before: element `d` of new token `t` in the page and slot of the token that many behind the
/// last. No token that was there before is changed.
pub proof fn paged_tokens_follow(
    cache: &mut PagedKVCache,
    k_new: &[u32],
    v_new: &[u32],
    t: int,
    d: int,
)
    requires
        old(cache).wf(),
        old(cache).model().exclusive(),
        old(cache).model().page_size > 0,
        k_new@.len() % old(cache).model().head_dim == 0,
        v_new@.len() == k_new@.len(),
        k_new@.len() / old(cache).model().head_dim <= old(cache).model().room(),
        call_ensures(PagedKVCache::append, (cache, k_new, v_new), ()),
        0 <= d < old(cache).model().head_dim,
        0 <= t < old(cache).model().len + k_new@.len() / old(cache).model().head_dim,
    ensures
        ({
            let before = old(cache).model();
            let after = final(cache).model();
            let ps = before.page_size as int;
            let hd = before.head_dim as int;
            let len = before.len as int;
            &&& after.page_size == ps && after.head_dim == hd
            &&& after.len == len + k_new@.len() as int / hd
            &&& t < len ==> pool_has(
                after.k_pool,
                after.table,
                ps,
                hd,
                t,
                d,
                before.k_pool[before.table[t / ps] * (ps * hd) + (t % ps) * hd + d],
            )
            &&& t < len ==> pool_has(
                after.v_pool,
                after.table,
                ps,
                hd,
                t,
                d,
                before.v_pool[before.table[t / ps] * (ps * hd) + (t % ps) * hd + d],
            )
            &&& t >= len ==> pool_has(
                after.k_pool,
                after.table,
                ps,
                hd,
                t,
                d,
                k_new@[at_row(t - len, hd, d)],
            )
            &&& t >= len ==> pool_has(
                after.v_pool,
                after.table,
                ps,
                hd,
                t,
                d,
                v_new@[at_row(t - len, hd, d)],
            )
        }),
{
    let before: PagedModel = old(cache).model();
    let after: PagedModel = final(cache).model();
    caches_have_models(*old(cache));
    paged_reads_give_back_appends(before, k_new@, v_new@);
    appending_conserves_pages(before, k_new@, v_new@);
    tokens_are_pieces(k_new@, before.head_dim);
    tokens_are_pieces(v_new@, before.head_dim);
    token_element(after, after.k_tokens(), t, d);
    token_element(after, after.v_tokens(), t, d);
    let hd: int = before.head_dim as int;
    if t < before.len {
        token_element(before, before.k_tokens(), t, d);
        token_element(before, before.v_tokens(), t, d);
        assert(after.k_tokens()[t] == before.k_tokens()[t]);
        assert(after.v_tokens()[t] == before.v_tokens()[t]);
    } else {
        let n: int = t - before.len;
        assert(after.k_tokens()[t] == tokens_in(k_new@, before.head_dim)[n]);
        assert(after.v_tokens()[t] == tokens_in(v_new@, before.head_dim)[n]);
        lemma_fundamental_div_mod(k_new@.len() as int, hd);
        assert(0 <= n * hd && n * hd + hd <= hd * (k_new@.len() as int / hd)) by (nonlinear_arith)
            requires
                0 <= n,
                n + 1 <= k_new@.len() as int / hd,
                hd > 0,
        ;
        assert(piece(k_new@, n, hd)[d] == k_new@[at_row(n, hd, d)]);
        assert(piece(v_new@, n, hd)[d] == v_new@[at_row(n, hd, d)]);
    }
}

/// Interleaved pages come in pairs: a page of keys, then the page of values with the same number.
pub proof fn interleaved_pages_come_in_pairs(
    k_pages: &[u32],
    v_pages: &[u32],
    num_pages: usize,
    page_size: usize,
    head_dim: usize,
    r: Vec<u32>,
    page: int,
    e: int,
)
    requires
        k_pages@.len() == num_pages * (page_size * head_dim),
        v_pages@.len() == num_pages * (page_size * head_dim),
        call_ensures(interleave_kv_pages, (k_pages, v_pages, num_pages, page_size, head_dim), r),
        0 <= page < num_pages,
        0 <= e < page_size * head_dim,
    ensures
        ({
            let elems = page_size * head_dim;
            &&& r@[at_row(2 * page, elems, e)] == k_pages@[at_row(page, elems, e)]
            &&& r@[at_row(2 * page + 1, elems, e)] == v_pages@[at_row(page, elems, e)]
            &&& at_row(2 * page + 1, elems, e) < r@.len()
        }),
{
    let elems: nat = (page_size * head_dim) as nat;
    let pe: int = elems as int;
    interleaved_stretch(k_pages@, v_pages@, num_pages as nat, elems, page, e, 1);
    let all: Seq<u32> = interleaved(k_pages@, v_pages@, num_pages as nat, elems);
    let base: int = page * (2 * elems) + e;
    assert(base == at_row(2 * page, pe, e)) by (nonlinear_arith)
        requires
            base == page * (2 * pe) + e,
            at_row(2 * page, pe, e) == (2 * page) * pe + e,
    ;
    assert(base + pe == at_row(2 * page + 1, pe, e)) by (nonlinear_arith)
        requires
            base == page * (2 * pe) + e,
            at_row(2 * page + 1, pe, e) == (2 * page + 1) * pe + e,
    ;
    assert(all.subrange(base, base + 1)[0] == all[base]);
    assert(all.subrange(base + pe, base + pe + 1)[0] == all[base + pe]);
    let from: int = page * elems + e;
    assert(0 <= page * pe && page * pe + pe <= num_pages * pe) by (nonlinear_arith)
        requires
            0 <= page,
            page + 1 <= num_pages,
            0 <= pe,
    ;
    assert(k_pages@.subrange(from, from + 1)[0] == k_pages@[from]);
    assert(v_pages@.subrange(from, from + 1)[0] == v_pages@[from]);
}

/// Query heads read the key head of their group: of as many groups of neighbours as there are key
/// heads, the first group reads the first key head, and so on.
pub proof fn groups_read_their_key_head(
    k_full: &[u32],
    seq_len: usize,
    head_dim: usize,
    num_heads: usize,
    num_kv_heads: usize,
    r: Vec<u32>,
    kv: int,
    in_group: int,
    e: int,
)
    requires
        num_kv_heads > 0,
        num_heads as int % num_kv_heads as int == 0,
        k_full@.len() == num_kv_heads * (seq_len * head_dim),
        call_ensures(cpu_gqa_remap, (k_full, seq_len, head_dim, num_heads, num_kv_heads), r),
        0 <= kv < num_kv_heads,
        0 <= in_group < num_heads as int / num_kv_heads as int,
        0 <= e < seq_len * head_dim,
    ensures
        ({
            let elems = seq_len * head_dim;
            let q = at_row(kv, num_heads as int / num_kv_heads as int, in_group);
            &&& r@.len() == num_heads * elems
            &&& 0 <= q < num_heads
            &&& 0 <= at_row(q, elems, e) < r@.len()
            &&& r@[at_row(q, elems, e)] == k_full@[at_row(kv, elems, e)]
        }),
{
    let elems: int = seq_len * head_dim;
    let group: int = num_heads as int / num_kv_heads as int;
    let q: int = at_row(kv, group, in_group);
    lemma_fundamental_div_mod(num_heads as int, num_kv_heads as int);
    assert(num_heads == num_kv_heads * group);
    assert(0 <= q < num_heads) by (nonlinear_arith)
        requires
            num_heads == num_kv_heads * group,
            q == kv * group + in_group,
            0 <= kv < num_kv_heads,
            0 <= in_group < group,
    ;
    assert(kv * group == group * kv) by (nonlinear_arith);
    lemma_fundamental_div_mod_converse(q, group, kv, in_group);
    let top: int = num_heads - 1;
    assert(top == group * (num_kv_heads - 1) + (group - 1)) by (nonlinear_arith)
        requires
            top == num_kv_heads * group - 1,
    ;
    lemma_fundamental_div_mod_converse(
        top,
        group,
        num_kv_heads - 1,
        group - 1,
    );
    group_shares_head(k_full@, elems as nat, num_heads as nat, group, q);
    assert(0 <= q * elems && q * elems + elems <= num_heads * elems) by (nonlinear_arith)
        requires
            0 <= q,
            q + 1 <= num_heads,
            0 <= elems,
    ;
    assert(0 <= kv * elems && kv * elems + elems <= num_kv_heads * elems) by (nonlinear_arith)
        requires
            0 <= kv,
            kv + 1 <= num_kv_heads,
            0 <= elems,
    ;
    assert(piece(r@, q, elems)[e] == r@[at_row(q, elems, e)]);
    assert(piece(k_full@, kv, elems)[e] == k_full@[at_row(kv, elems, e)]);
}

/// Gathered keys and values are those of the token's slot: in the pair of pages that the block
/// table names, the keys in the first page and the values in the second.
pub proof fn gathered_tokens_are_those_of_their_slots(
    kv_cache: &[u32],
    block_table: &[u32],
    head_dim: usize,
    page_size: usize,
    context_len: usize,
    r: (Vec<u32>, Vec<u32>),
    i: int,
    d: int,
)
    requires
        page_size > 0,
        call_ensures(
            gather_kv_pages,
            (kv_cache, block_table, head_dim, page_size, context_len),
            r,
        ),
        forall|j: int|
            0 <= j < context_len ==> #[trigger] value_place(
                block_table@,
                j,
                page_size as int,
                head_dim as int,
            ) + head_dim <= kv_cache@.len(),
        0 <= i < context_len,
        0 <= d < head_dim,
    ensures
        ({
            let page = block_table@[i / page_size as int] as int;
            let slot = i % page_size as int;
            let width = head_dim as int;
            let elems = page_size * head_dim;
            &&& r.0@.len() == context_len * head_dim
            &&& r.1@.len() == context_len * head_dim
            &&& r.0@[at_row(i, width, d)] == kv_cache@[at_row(
                2 * page,
                elems,
                at_row(slot, width, d),
            )]
            &&& r.1@[at_row(i, width, d)] == kv_cache@[at_row(
                2 * page + 1,
                elems,
                at_row(slot, width, d),
            )]
        }),
{
    let ps: int = page_size as int;
    let hd: int = head_dim as int;
    let elems: int = page_size * head_dim;
    let page: int = block_table@[i / ps] as int;
    let slot: int = i % ps;
    let f: spec_fn(int) -> Seq<u32> = |j: int|
        kv_cache@.subrange(
            key_place(block_table@, j, ps, hd),
            key_place(block_table@, j, ps, hd) + hd,
        );
    let g: spec_fn(int) -> Seq<u32> = |j: int|
        kv_cache@.subrange(
            value_place(block_table@, j, ps, hd),
            value_place(block_table@, j, ps, hd) + hd,
        );
    assert forall|j: int| 0 <= j < context_len implies (#[trigger] f(j)).len() == hd && g(j).len()
        == hd && 0 <= key_place(block_table@, j, ps, hd) by {
        let p: int = block_table@[j / ps] as int;
        let s: int = j % ps;
        assert(value_place(block_table@, j, ps, hd) + hd <= kv_cache@.len());
        assert(0 <= ps * hd) by (nonlinear_arith)
            requires
                0 <= ps,
                0 <= hd,
        ;
        assert(0 <= p * (2 * (ps * hd))) by (nonlinear_arith)
            requires
                0 <= p,
                0 <= ps * hd,
        ;
        assert(0 <= s * hd) by (nonlinear_arith)
            requires
                0 <= s,
                0 <= hd,
        ;
    }
    assert forall|j: int| 0 <= j < context_len implies (#[trigger] g(j)).len() == hd by {
        assert(f(j).len() == hd);
    }
    blocks_len(context_len as nat, f, head_dim as nat);
    blocks_len(context_len as nat, g, head_dim as nat);
    blocks_piece(context_len as nat, f, head_dim as nat, i);
    blocks_piece(context_len as nat, g, head_dim as nat, i);
    assert(keys_through(kv_cache@, block_table@, ps, hd, context_len as nat) == r.0@);
    assert(values_through(kv_cache@, block_table@, ps, hd, context_len as nat) == r.1@);
    assert(f(i).len() == hd);
    assert(piece(r.0@, i, hd)[d] == r.0@[at_row(i, hd, d)]);
    assert(piece(r.1@, i, hd)[d] == r.1@[at_row(i, hd, d)]);
    assert(at_row(2 * page, elems, at_row(slot, hd, d)) == key_place(block_table@, i, ps, hd) + d)
        by (nonlinear_arith)
        requires
            at_row(2 * page, elems, at_row(slot, hd, d)) == (2 * page) * elems + (slot * hd + d),
            key_place(block_table@, i, ps, hd) == page * (2 * elems) + slot * hd,
    ;
    assert(at_row(2 * page + 1, elems, at_row(slot, hd, d)) == value_place(block_table@, i, ps, hd)
        + d) by (nonlinear_arith)
        requires
            at_row(2 * page + 1, elems, at_row(slot, hd, d)) == (2 * page + 1) * elems + (slot * hd
                + d),
            value_place(block_table@, i, ps, hd) == page * (2 * elems) + slot * hd + elems,
    ;
}

/// The first matrix of the running sums is the first matrix; each later one is, cell by cell, the
/// sum of the running sum before it and the matrix at its own place.
pub proof fn sums_run_over_matrices<F: Fn(u32, u32) -> u32>(
    input: &[u32],
    n_matrices: usize,
    d: usize,
    plus: &F,
    r: Vec<u32>,
    m: int,
    cell: int,
)
    requires
        call_ensures(cpu_prefix_sum::<F>, (input, n_matrices, d, plus), r),
        input@.len() == n_matrices * (d * d),
        0 <= m < n_matrices,
        0 <= cell < d * d,
    ensures
        ({
            let cells = d * d;
            &&& r@.len() == input@.len()
            &&& m == 0 ==> r@[cell] == input@[cell]
            &&& m > 0 ==> call_ensures(
                *plus,
                (r@[at_row(m - 1, cells, cell)], input@[at_row(m, cells, cell)]),
                r@[at_row(m, cells, cell)],
            )
        }),
{
    let cells: int = d * d;
    let at: int = at_row(m, cells, cell);
    assert(0 <= at < n_matrices * cells) by (nonlinear_arith)
        requires
            at == m * cells + cell,
            0 <= m,
            m + 1 <= n_matrices,
            0 <= cell < cells,
    ;
    if m == 0 {
        assert(0 * cells == 0) by (nonlinear_arith);
    } else {
        assert(at_row(m - 1, cells, cell) == at - cells && at >= cells) by (nonlinear_arith)
            requires
                at == m * cells + cell,
                at_row(m - 1, cells, cell) == (m - 1) * cells + cell,
                m >= 1,
                0 <= cell < cells,
        ;
    }
}

/// A new paged cache has no tokens and no pages in use: all its pages are free, and none of them
/// twice.
pub proof fn new_paged_caches_are_empty(
    max_pages: usize,
    page_size: usize,
    head_dim: usize,
    cache: PagedKVCache,
    len: usize,
    used: usize,
    free: usize,
    table: &[u32],
    k: &[u32],
    v: &[u32],
    tokens: usize,
    dim: usize,
)
    requires
        max_pages <= u32::MAX,
        call_ensures(PagedKVCache::new, (max_pages, page_size, head_dim), cache),
        call_ensures(PagedKVCache::len, (&cache,), len),
        call_ensures(PagedKVCache::num_pages, (&cache,), used),
        call_ensures(PagedKVCache::free_pages, (&cache,), free),
        call_ensures(PagedKVCache::block_table, (&cache,), table),
        call_ensures(PagedKVCache::k_pages, (&cache,), k),
        call_ensures(PagedKVCache::v_pages, (&cache,), v),
        call_ensures(PagedKVCache::page_size, (&cache,), tokens),
        call_ensures(PagedKVCache::head_dim, (&cache,), dim),
    ensures
        len == 0,
        used == 0,
        free == max_pages,
        table@.len() == 0,
        k@.len() == max_pages * (page_size * head_dim),
        v@.len() == max_pages * (page_size * head_dim),
        tokens == page_size,
        dim == head_dim,
        cache.model().free.no_duplicates(),
        forall|i: int| 0 <= i < max_pages ==> (#[trigger] cache.model().free[i]) < max_pages,
{
    let m: PagedModel = cache.model();
    assert(0 <= max_pages * (page_size * head_dim)) by (nonlinear_arith);
    assert(m.table + m.free =~= m.free);
}

/// An allocated page is one that was free, and is free no longer; a page that is freed is free
/// again. Neither touches the tokens.
pub proof fn pages_are_allocated_and_freed(
    allocating: &mut PagedKVCache,
    page: u32,
    freeing: &mut PagedKVCache,
    id: u32,
)
    requires
        old(allocating).model().free.len() > 0,
        call_ensures(PagedKVCache::allocate_page, (allocating,), page),
        call_ensures(PagedKVCache::free_page, (freeing, id), ()),
    ensures
        final(allocating).model().free.push(page) == old(allocating).model().free,
        final(allocating).model().table == old(allocating).model().table,
        final(allocating).model().len == old(allocating).model().len,
        final(allocating).model().k_pool == old(allocating).model().k_pool,
        final(allocating).model().v_pool == old(allocating).model().v_pool,
        final(freeing).model().free == old(freeing).model().free.push(id),
        final(freeing).model().table == old(freeing).model().table,
        final(freeing).model().len == old(freeing).model().len,
        final(freeing).model().k_pool == old(freeing).model().k_pool,
        final(freeing).model().v_pool == old(freeing).model().v_pool,
{
    assert(final(allocating).model().free.push(page) =~= old(allocating).model().free);
}

/// A cache uses as many pages as its tokens need, and a reset makes all of them free.
pub proof fn pages_follow_the_tokens(
    cache: &mut PagedKVCache,
    page_size: usize,
    len: usize,
    used: usize,
    free: usize,
    len_after: usize,
    used_after: usize,
    free_after: usize,
)
    requires
        old(cache).wf(),
        call_ensures(PagedKVCache::page_size, (&*old(cache),), page_size),
        page_size > 0,
        call_ensures(PagedKVCache::len, (&*old(cache),), len),
        call_ensures(PagedKVCache::num_pages, (&*old(cache),), used),
        call_ensures(PagedKVCache::free_pages, (&*old(cache),), free),
        call_ensures(PagedKVCache::reset, (cache,), ()),
        call_ensures(PagedKVCache::len, (&*final(cache),), len_after),
        call_ensures(PagedKVCache::num_pages, (&*final(cache),), used_after),
        call_ensures(PagedKVCache::free_pages, (&*final(cache),), free_after),
    ensures
        used * page_size >= len,
        len > 0 ==> (used - 1) * page_size < len,
        len == 0 ==> used == 0,
        len_after == 0,
        used_after == 0,
        free_after == free + used,
{
    let m: PagedModel = old(cache).model();
    caches_have_models(*old(cache));
    let n: int = m.table.len() as int;
    let ps: int = m.page_size as int;
    if n > 0 {
        assert((n - 1) * ps + ps == n * ps) by (nonlinear_arith);
        assert(0 <= (n - 1) * ps) by (nonlinear_arith)
            requires
                1 <= n,
                0 < ps,
        ;
    } else {
        assert(0 * ps == 0) by (nonlinear_arith);
    }
}

/// A cache is empty exactly if it holds no tokens, and a copy of a dense cache holds what the cache
/// does.
pub proof fn caches_without_tokens_are_empty(
    dense: DenseKVCache,
    dense_len: usize,
    dense_is_empty: bool,
    paged: PagedKVCache,
    paged_len: usize,
    paged_is_empty: bool,
    k: &[u32],
    v: &[u32],
    copy: DenseKVCache,
    k_copy: &[u32],
    v_copy: &[u32],
)
    requires
        call_ensures(DenseKVCache::len, (&dense,), dense_len),
        call_ensures(DenseKVCache::is_empty, (&dense,), dense_is_empty),
        call_ensures(PagedKVCache::len, (&paged,), paged_len),
        call_ensures(PagedKVCache::is_empty, (&paged,), paged_is_empty),
        call_ensures(DenseKVCache::k_slice, (&dense,), k),
        call_ensures(DenseKVCache::v_slice, (&dense,), v),
        call_ensures(DenseKVCache::clone, (&dense,), copy),
        call_ensures(DenseKVCache::k_slice, (&copy,), k_copy),
        call_ensures(DenseKVCache::v_slice, (&copy,), v_copy),
    ensures
        dense_is_empty <==> dense_len == 0,
        paged_is_empty <==> paged_len == 0,
        k_copy@ == k@,
        v_copy@ == v@,
{
}

} // verus!
