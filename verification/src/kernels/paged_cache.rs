//! Paged KV cache with block-table indirection.
//!
//! Keys and values are 32-bit floats, held by their bit patterns.

use super::kv_cache::{copy_range, overwritten};
use vstd::arithmetic::div_mod::*;
use vstd::arithmetic::mul::*;
use vstd::prelude::*;

verus! {

/// What a paged cache holds: the two page pools, the pages in use in logical order, the free
/// pages (the next one to be used is the last), and how far the last page is filled.
#[verifier::ext_equal]
pub struct PagedModel {
    pub k_pool: Seq<u32>,
    pub v_pool: Seq<u32>,
    pub table: Seq<u32>,
    pub free: Seq<u32>,
    pub total_pages: nat,
    pub fill: nat,
    pub len: nat,
    pub page_size: nat,
    pub head_dim: nat,
}

impl PagedModel {
    /// Elements in one page.
    pub open spec fn page_elems(self) -> nat {
        self.page_size * self.head_dim
    }

    /// Every page number is one of the pool's, and the length is what full pages and the fill of
    /// the last one give.
    pub open spec fn wf(self) -> bool {
        &&& self.k_pool.len() == self.total_pages * self.page_elems()
        &&& self.v_pool.len() == self.total_pages * self.page_elems()
        &&& forall|i: int|
            0 <= i < self.table.len() ==> (#[trigger] self.table[i]) < self.total_pages
        &&& forall|i: int|
            0 <= i < self.free.len() ==> (#[trigger] self.free[i]) < self.total_pages
        &&& self.fill <= self.page_size
        &&& if self.table.len() == 0 {
            self.fill == 0 && self.len == 0
        } else {
            self.fill > 0 && self.len == (self.table.len() - 1) * self.page_size + self.fill
        }
    }

    /// No page is in two places at once.
    pub open spec fn exclusive(self) -> bool {
        (self.table + self.free).no_duplicates()
    }

    /// How many more tokens there is room for.
    pub open spec fn room(self) -> int {
        (if self.table.len() == 0 {
            0
        } else {
            self.page_size - self.fill
        }) + self.free.len() * self.page_size
    }

    /// Whether the next token needs a new page.
    pub open spec fn page_is_full(self) -> bool {
        self.table.len() == 0 || self.fill == self.page_size
    }

    /// With a new page for the next token, if it needs one.
    pub open spec fn with_open_page(self) -> PagedModel {
        if self.page_is_full() {
            PagedModel {
                table: self.table.push(self.free.last()),
                free: self.free.drop_last(),
                fill: 0,
                ..self
            }
        } else {
            self
        }
    }

    /// Where the next token goes in the pools, once its page is open.
    pub open spec fn next_place(self) -> int {
        self.table.last() * self.page_elems() + self.fill * self.head_dim
    }

    /// With one more token.
    pub open spec fn with_token(self, k: Seq<u32>, v: Seq<u32>) -> PagedModel {
        let open = self.with_open_page();
        PagedModel {
            k_pool: overwritten(open.k_pool, open.next_place(), k),
            v_pool: overwritten(open.v_pool, open.next_place(), v),
            fill: open.fill + 1,
            len: open.len + 1,
            ..open
        }
    }

    /// With more tokens, each `head_dim` elements.
    pub open spec fn with_tokens(self, k: Seq<u32>, v: Seq<u32>) -> PagedModel
        decreases k.len(),
    {
        if self.head_dim == 0 || k.len() < self.head_dim {
            self
        } else {
            let hd = self.head_dim as int;
            self.with_token(k.take(hd), v.take(hd)).with_tokens(k.skip(hd), v.skip(hd))
        }
    }

    /// Empty again, with the pages in use behind the free ones.
    pub open spec fn emptied(self) -> PagedModel {
        PagedModel {
            table: Seq::empty(),
            free: self.free + self.table,
            fill: 0,
            len: 0,
            ..self
        }
    }

    /// Where token `i` stands in the pools: in the page that the block table names for it.
    pub open spec fn place(self, i: int) -> int {
        self.table[i / self.page_size as int] * self.page_elems() + (i % self.page_size as int)
            * self.head_dim
    }

    /// The keys of token `i`.
    pub open spec fn k_token(self, i: int) -> Seq<u32> {
        self.k_pool.subrange(self.place(i), self.place(i) + self.head_dim)
    }

    /// The values of token `i`.
    pub open spec fn v_token(self, i: int) -> Seq<u32> {
        self.v_pool.subrange(self.place(i), self.place(i) + self.head_dim)
    }

    /// The keys of all tokens, in order.
    pub open spec fn k_tokens(self) -> Seq<Seq<u32>> {
        Seq::new(self.len, |i: int| self.k_token(i))
    }

    /// The values of all tokens, in order.
    pub open spec fn v_tokens(self) -> Seq<Seq<u32>> {
        Seq::new(self.len, |i: int| self.v_token(i))
    }
}

/// A slot of a page lies inside the pool.
pub(crate) proof fn slot_in_pool(page: int, total: int, slot: int, page_size: int, head_dim: int)
    requires
        0 <= page < total,
        0 <= slot < page_size,
        0 <= head_dim,
    ensures
        0 <= page * (page_size * head_dim) + slot * head_dim,
        slot * head_dim + head_dim <= page_size * head_dim,
        page * (page_size * head_dim) + slot * head_dim + head_dim <= (page + 1) * (page_size
            * head_dim),
        (page + 1) * (page_size * head_dim) <= total * (page_size * head_dim),
{
    let pe: int = page_size * head_dim;
    assert(0 <= pe) by (nonlinear_arith)
        requires
            0 <= page_size,
            0 <= head_dim,
            pe == page_size * head_dim,
    ;
    assert(0 <= page * pe) by (nonlinear_arith)
        requires
            0 <= page,
            0 <= pe,
    ;
    assert(0 <= slot * head_dim) by (nonlinear_arith)
        requires
            0 <= slot,
            0 <= head_dim,
    ;
    assert(slot * head_dim + head_dim == (slot + 1) * head_dim) by (nonlinear_arith);
    assert((slot + 1) * head_dim <= page_size * head_dim) by (nonlinear_arith)
        requires
            slot + 1 <= page_size,
            0 <= head_dim,
    ;
    assert(page * pe + pe == (page + 1) * pe) by (nonlinear_arith);
    assert((page + 1) * pe <= total * pe) by (nonlinear_arith)
        requires
            page + 1 <= total,
            0 <= pe,
    ;
}

/// Where there is room for a token, its page is open or can be opened.
proof fn room_allows_token(m: PagedModel)
    requires
        m.wf(),
        m.page_size > 0,
        m.room() >= 1,
    ensures
        m.page_is_full() ==> m.free.len() > 0,
{
    if m.page_is_full() && m.free.len() == 0 {
        assert(0 * m.page_size == 0) by (nonlinear_arith);
    }
}

/// One more token leaves the cache well-formed and takes one token's room.
proof fn token_keeps_shape(m: PagedModel, k: Seq<u32>, v: Seq<u32>)
    requires
        m.wf(),
        m.page_size > 0,
        m.room() >= 1,
        k.len() == m.head_dim,
        v.len() == m.head_dim,
    ensures
        m.with_token(k, v).wf(),
        m.with_token(k, v).room() == m.room() - 1,
        m.with_token(k, v).len == m.len + 1,
{
    room_allows_token(m);
    let open: PagedModel = m.with_open_page();
    let done: PagedModel = m.with_token(k, v);
    let n: int = m.table.len() as int;
    let ps: int = m.page_size as int;
    let f: int = m.free.len() as int;
    assert(open.table.last() < open.total_pages);
    slot_in_pool(
        open.table.last() as int,
        open.total_pages as int,
        open.fill as int,
        ps,
        m.head_dim as int,
    );
    assert(done.k_pool.len() == m.k_pool.len());
    assert(done.v_pool.len() == m.v_pool.len());
    if m.page_is_full() {
        assert((f - 1) * ps == f * ps - ps) by (nonlinear_arith);
        if n > 0 {
            assert((n - 1) * ps + ps == n * ps) by (nonlinear_arith);
        } else {
            assert(0 * ps == 0) by (nonlinear_arith);
        }
    }
}

/// Paged KV cache with block-table indirection for PagedAttention.
///
/// Pages are fixed-size blocks of `page_size` tokens. A block table maps
/// logical page indices to physical page IDs in a contiguous page pool.
/// This enables non-contiguous KV storage with O(1) page allocation/free.
#[derive(Debug)]
pub struct PagedKVCache {
    /// Contiguous K page storage: `[num_allocated_pages, page_size, head_dim]`.
    k_pool: Vec<u32>,
    /// Contiguous V page storage: `[num_allocated_pages, page_size, head_dim]`.
    v_pool: Vec<u32>,
    /// Block table: logical page index -> physical page ID.
    block_table: Vec<u32>,
    /// Free list of physical page IDs available for allocation.
    free_list: Vec<u32>,
    /// Total number of physical pages allocated in the pool.
    total_pages: usize,
    /// Number of logical pages currently in use.
    num_logical_pages: usize,
    /// Number of tokens in the current (last) page.
    current_page_fill: usize,
    /// Total tokens appended across all pages.
    current_len: usize,
    /// Tokens per page.
    page_size: usize,
    /// Per-head dimension.
    head_dim: usize,
}

impl Clone for PagedKVCache {
    fn clone(&self) -> (r: PagedKVCache)
        ensures
            r.model() == self.model(),
            self.wf() ==> r.wf(),
    {
        let k_pool: Vec<u32> = self.k_pool.clone();
        let v_pool: Vec<u32> = self.v_pool.clone();
        let block_table: Vec<u32> = self.block_table.clone();
        let free_list: Vec<u32> = self.free_list.clone();
        assert(k_pool@ =~= self.k_pool@);
        assert(v_pool@ =~= self.v_pool@);
        assert(block_table@ =~= self.block_table@);
        assert(free_list@ =~= self.free_list@);
        PagedKVCache {
            k_pool,
            v_pool,
            block_table,
            free_list,
            total_pages: self.total_pages,
            num_logical_pages: self.num_logical_pages,
            current_page_fill: self.current_page_fill,
            current_len: self.current_len,
            page_size: self.page_size,
            head_dim: self.head_dim,
        }
    }
}

impl PagedKVCache {
    /// The cache counts its logical pages, and its model is well-formed.
    pub closed spec fn wf(self) -> bool {
        &&& self.num_logical_pages == self.block_table.len()
        &&& self.k_pool.len() == self.total_pages * self.model().page_elems()
        &&& self.page_size * self.head_dim <= usize::MAX
        &&& self.model().wf()
    }

    /// What this cache holds.
    pub closed spec fn model(self) -> PagedModel {
        PagedModel {
            k_pool: self.k_pool@,
            v_pool: self.v_pool@,
            table: self.block_table@,
            free: self.free_list@,
            total_pages: self.total_pages as nat,
            fill: self.current_page_fill as nat,
            len: self.current_len as nat,
            page_size: self.page_size as nat,
            head_dim: self.head_dim as nat,
        }
    }

    /// Create a new paged KV cache.
    ///
    /// `max_pages` is the maximum number of physical pages in the pool.
    /// `page_size` is the number of tokens per page (default: PAGE_SIZE).
    /// `head_dim` is the per-head dimension.
    pub fn new(max_pages: usize, page_size: usize, head_dim: usize) -> (r: PagedKVCache)
        requires
            page_size * head_dim <= usize::MAX,
            max_pages * (page_size * head_dim) <= usize::MAX,
        ensures
            r.wf(),
            r.model().exclusive(),
            r.model() == (PagedModel {
                k_pool: Seq::new((max_pages * (page_size * head_dim)) as nat, |i: int| 0u32),
                v_pool: Seq::new((max_pages * (page_size * head_dim)) as nat, |i: int| 0u32),
                table: Seq::empty(),
                free: Seq::new(
                    (max_pages as u32) as nat,
                    |i: int| ((max_pages as u32) - 1 - i) as u32,
                ),
                total_pages: max_pages as nat,
                fill: 0,
                len: 0,
                page_size: page_size as nat,
                head_dim: head_dim as nat,
            }),
    {
        let page_elems: usize = page_size * head_dim;
        let k_pool: Vec<u32> = vec![0u32; max_pages * page_elems];
        let v_pool: Vec<u32> = vec![0u32; max_pages * page_elems];
        let pages: u32 = max_pages as u32;
        let mut free_list: Vec<u32> = Vec::new();
        let mut left: u32 = pages;
        while left > 0
            invariant
                left <= pages,
                free_list@ == Seq::new((pages - left) as nat, |i: int| (pages - 1 - i) as u32),
            decreases left,
        {
            left = left - 1;
            free_list.push(left);
            assert(free_list@ =~= Seq::new((pages - left) as nat, |i: int| (pages - 1 - i) as u32));
        }
        let r: PagedKVCache = PagedKVCache {
            k_pool,
            v_pool,
            block_table: Vec::new(),
            free_list,
            total_pages: max_pages,
            num_logical_pages: 0,
            current_page_fill: 0,
            current_len: 0,
            page_size,
            head_dim,
        };
        proof {
            assert(pages <= max_pages) by (bit_vector)
                requires
                    pages == max_pages as u32,
            ;
            let m: PagedModel = r.model();
            assert(m.k_pool =~= Seq::new(
                (max_pages * (page_size * head_dim)) as nat,
                |i: int| 0u32,
            ));
            assert(m.v_pool =~= m.k_pool);
            assert(m.table =~= Seq::<u32>::empty());
            assert(m.table + m.free =~= m.free);
        }
        r
    }

    /// Allocate a physical page from the free list.
    ///
    /// Returns the physical page ID. There must be a free page.
    pub fn allocate_page(&mut self) -> (r: u32)
        requires
            old(self).wf(),
            old(self).model().free.len() > 0,
        ensures
            final(self).wf(),
            r == old(self).model().free.last(),
            final(self).model() == (PagedModel {
                free: old(self).model().free.drop_last(),
                ..old(self).model()
            }),
    {
        let ghost before: PagedModel = self.model();
        let page: Option<u32> = self.free_list.pop();
        assert(self.free_list@ =~= before.free.drop_last());
        match page {
            Some(id) => id,
            None => 0,
        }
    }

    /// Free a physical page, returning it to the free list.
    pub fn free_page(&mut self, page_id: u32)
        requires
            old(self).wf(),
            page_id < old(self).model().total_pages,
        ensures
            final(self).wf(),
            final(self).model() == (PagedModel {
                free: old(self).model().free.push(page_id),
                ..old(self).model()
            }),
    {
        self.free_list.push(page_id);
    }

    /// Append K and V vectors for new tokens.
    ///
    /// `k_new` and `v_new` must have length `num_tokens * head_dim`, and there must be room for
    /// that many tokens. Automatically allocates new pages as needed.
    pub fn append(&mut self, k_new: &[u32], v_new: &[u32])
        requires
            old(self).wf(),
            old(self).model().head_dim > 0,
            old(self).model().page_size > 0,
            k_new@.len() % old(self).model().head_dim == 0,
            v_new@.len() == k_new@.len(),
            k_new@.len() / old(self).model().head_dim <= old(self).model().room(),
            old(self).model().len + k_new@.len() / old(self).model().head_dim <= usize::MAX,
        ensures
            final(self).wf(),
            final(self).model() == old(self).model().with_tokens(k_new@, v_new@),
    {
        let hd: usize = self.head_dim;
        let page_elems: usize = self.page_size * hd;
        let num_tokens: usize = k_new.len() / hd;
        let mut offset: usize = 0;
        let mut i: usize = 0;
        proof {
            lemma_fundamental_div_mod(k_new@.len() as int, hd as int);
            assert(hd * num_tokens == num_tokens * hd) by (nonlinear_arith);
            assert(k_new@.skip(0) =~= k_new@);
            assert(v_new@.skip(0) =~= v_new@);
            assert(0 * hd == 0) by (nonlinear_arith);
        }
        while i < num_tokens
            invariant
                self.wf(),
                hd == self.head_dim,
                hd > 0,
                self.page_size > 0,
                page_elems == self.page_size * hd,
                num_tokens * hd == k_new.len(),
                v_new.len() == k_new.len(),
                i <= num_tokens,
                offset == i * hd,
                num_tokens - i <= self.model().room(),
                self.current_len + (num_tokens - i) <= usize::MAX,
                old(self).model().with_tokens(k_new@, v_new@) == self.model().with_tokens(
                    k_new@.skip(offset as int),
                    v_new@.skip(offset as int),
                ),
            decreases num_tokens - i,
        {
            let ghost before: PagedModel = self.model();
            proof {
                assert(i * hd + hd == (i + 1) * hd) by (nonlinear_arith);
                assert((i + 1) * hd <= num_tokens * hd) by (nonlinear_arith)
                    requires
                        i + 1 <= num_tokens,
                        hd > 0,
                ;
                room_allows_token(before);
            }
            if self.num_logical_pages == 0 || self.current_page_fill == self.page_size {
                let phys: u32 = self.allocate_page();
                self.block_table.push(phys);
                self.num_logical_pages = self.block_table.len();
                self.current_page_fill = 0;
            }
            let ghost open: PagedModel = self.model();
            assert(open == before.with_open_page());
            let phys: usize = self.block_table[self.num_logical_pages - 1] as usize;
            let slot: usize = self.current_page_fill;
            proof {
                slot_in_pool(
                    phys as int,
                    self.total_pages as int,
                    slot as int,
                    self.page_size as int,
                    hd as int,
                );
            }
            let pool_offset: usize = phys * page_elems + slot * hd;
            copy_range(&mut self.k_pool, pool_offset, k_new, offset, hd);
            copy_range(&mut self.v_pool, pool_offset, v_new, offset, hd);
            self.current_page_fill = self.current_page_fill + 1;
            self.current_len = self.current_len + 1;
            proof {
                let k: Seq<u32> = k_new@.skip(offset as int);
                let v: Seq<u32> = v_new@.skip(offset as int);
                assert(k.take(hd as int) =~= k_new@.subrange(offset as int, offset + hd));
                assert(v.take(hd as int) =~= v_new@.subrange(offset as int, offset + hd));
                assert(k.skip(hd as int) =~= k_new@.skip(offset + hd));
                assert(v.skip(hd as int) =~= v_new@.skip(offset + hd));
                assert(self.model() == before.with_token(k.take(hd as int), v.take(hd as int)));
                token_keeps_shape(before, k.take(hd as int), v.take(hd as int));
            }
            offset = offset + hd;
            i = i + 1;
        }
    }

    /// Get the block table (logical page -> physical page mapping) for GPU dispatch.
    pub fn block_table(&self) -> (r: &[u32])
        ensures
            r@ == self.model().table,
    {
        self.block_table.as_slice()
    }

    /// Get the contiguous K page pool for GPU dispatch.
    ///
    /// Layout: `[total_pages, page_size, head_dim]`.
    pub fn k_pages(&self) -> (r: &[u32])
        ensures
            r@ == self.model().k_pool,
    {
        self.k_pool.as_slice()
    }

    /// Get the contiguous V page pool for GPU dispatch.
    ///
    /// Layout: `[total_pages, page_size, head_dim]`.
    pub fn v_pages(&self) -> (r: &[u32])
        ensures
            r@ == self.model().v_pool,
    {
        self.v_pool.as_slice()
    }

    /// Current number of cached tokens.
    pub fn len(&self) -> (r: usize)
        ensures
            r == self.model().len,
    {
        self.current_len
    }

    /// Whether the cache is empty.
    pub fn is_empty(&self) -> (r: bool)
        ensures
            r == (self.model().len == 0),
    {
        self.current_len == 0
    }

    /// Page size (tokens per page).
    pub fn page_size(&self) -> (r: usize)
        ensures
            r == self.model().page_size,
    {
        self.page_size
    }

    /// Head dimension.
    pub fn head_dim(&self) -> (r: usize)
        ensures
            r == self.model().head_dim,
    {
        self.head_dim
    }

    /// Number of logical pages in use.
    pub fn num_pages(&self) -> (r: usize)
        requires
            self.wf(),
        ensures
            r == self.model().table.len(),
    {
        self.num_logical_pages
    }

    /// Number of free pages remaining.
    pub fn free_pages(&self) -> (r: usize)
        ensures
            r == self.model().free.len(),
    {
        self.free_list.len()
    }

    /// Reset the cache to empty (does not deallocate pool). All pages in use become free.
    pub fn reset(&mut self)
        requires
            old(self).wf(),
        ensures
            final(self).wf(),
            final(self).model() == old(self).model().emptied(),
    {
        let ghost before: PagedModel = self.model();
        let mut i: usize = 0;
        while i < self.block_table.len()
            invariant
                i <= self.block_table.len(),
                self.model() == (PagedModel {
                    free: before.free + before.table.take(i as int),
                    ..before
                }),
            decreases self.block_table.len() - i,
        {
            let phys: u32 = self.block_table[i];
            self.free_list.push(phys);
            assert(self.free_list@ =~= before.free + before.table.take(i + 1));
            i = i + 1;
        }
        assert(before.table.take(i as int) =~= before.table);
        self.block_table.clear();
        self.num_logical_pages = 0;
        self.current_page_fill = 0;
        self.current_len = 0;
        proof {
            let m: PagedModel = self.model();
            assert(m == before.emptied());
            assert forall|j: int| 0 <= j < m.free.len() implies (#[trigger] m.free[j])
                < m.total_pages by {
                if j < before.free.len() {
                    assert(before.free[j] < before.total_pages);
                } else {
                    assert(before.table[j - before.free.len()] < before.total_pages);
                }
            }
        }
    }
}

/// What a well-formed cache holds is well-formed.
pub proof fn caches_have_models(cache: PagedKVCache)
    requires
        cache.wf(),
    ensures
        cache.model().wf(),
{
}

/// The pages that are in use and those that are free stay the same in number, whatever is
/// appended; tokens are never lost or made up; and no page comes to be in two places.
pub proof fn appending_conserves_pages(m: PagedModel, k: Seq<u32>, v: Seq<u32>)
    requires
        m.wf(),
        m.page_size > 0,
        m.head_dim > 0,
        k.len() % m.head_dim == 0,
        v.len() == k.len(),
        k.len() / m.head_dim <= m.room(),
    ensures
        m.with_tokens(k, v).wf(),
        m.with_tokens(k, v).len == m.len + k.len() / m.head_dim,
        m.with_tokens(k, v).table.len() + m.with_tokens(k, v).free.len() == m.table.len()
            + m.free.len(),
        m.with_tokens(k, v).total_pages == m.total_pages,
        m.with_tokens(k, v).page_size == m.page_size,
        m.with_tokens(k, v).head_dim == m.head_dim,
        m.exclusive() ==> m.with_tokens(k, v).exclusive(),
    decreases k.len(),
{
    let hd: int = m.head_dim as int;
    lemma_fundamental_div_mod(k.len() as int, hd);
    if k.len() >= hd {
        assert(k.len() as int / hd >= 1) by (nonlinear_arith)
            requires
                hd > 0,
                k.len() >= hd,
        ;
        let next: PagedModel = m.with_token(k.take(hd), v.take(hd));
        token_keeps_shape(m, k.take(hd), v.take(hd));
        room_allows_token(m);
        if m.exclusive() {
            token_keeps_pages_apart(m, k.take(hd), v.take(hd));
        }
        rest_has_one_token_less(k.len() as int, hd);
        appending_conserves_pages(next, k.skip(hd), v.skip(hd));
    } else {
        assert(k.len() as int / hd == 0) by (nonlinear_arith)
            requires
                0 <= k.len() < hd,
        ;
    }
}

proof fn rest_has_one_token_less(len: int, hd: int)
    requires
        hd > 0,
        len >= hd,
        len % hd == 0,
    ensures
        (len - hd) % hd == 0,
        (len - hd) / hd == len / hd - 1,
{
    lemma_mod_sub_multiples_vanish(len, hd);
    assert((len - hd) / hd == len / hd - 1) by (nonlinear_arith)
        requires
            hd > 0,
            len >= hd,
    ;
}

proof fn token_keeps_pages_apart(m: PagedModel, k: Seq<u32>, v: Seq<u32>)
    requires
        m.wf(),
        m.page_size > 0,
        m.room() >= 1,
        m.exclusive(),
    ensures
        m.with_token(k, v).exclusive(),
{
    room_allows_token(m);
    let a: Seq<u32> = m.table + m.free;
    let done: PagedModel = m.with_token(k, v);
    let b: Seq<u32> = done.table + done.free;
    if m.page_is_full() {
        let n: int = m.table.len() as int;
        let last: int = a.len() - 1;
        assert forall|i: int, j: int| 0 <= i < b.len() && 0 <= j < b.len() && i != j implies b[i]
            != b[j] by {
            let x: int = if i < n {
                i
            } else if i == n {
                last
            } else {
                i - 1
            };
            let y: int = if j < n {
                j
            } else if j == n {
                last
            } else {
                j - 1
            };
            assert(b[i] == a[x]);
            assert(b[j] == a[y]);
        }
    }
}

/// Two different tokens have places that do not overlap.
proof fn places_are_apart(m: PagedModel, page: int, slot: int, other_page: int, other_slot: int)
    requires
        m.wf(),
        m.exclusive(),
        0 <= page < m.table.len(),
        0 <= other_page < m.table.len(),
        0 <= slot < m.page_size,
        0 <= other_slot < m.page_size,
        page != other_page || slot != other_slot,
    ensures
        ({
            let a = m.table[page] * m.page_elems() + slot * m.head_dim;
            let b = m.table[other_page] * m.page_elems() + other_slot * m.head_dim;
            a + m.head_dim <= b || b + m.head_dim <= a
        }),
{
    let ps: int = m.page_size as int;
    let hd: int = m.head_dim as int;
    let pe: int = ps * hd;
    let p: int = m.table[page] as int;
    let q: int = m.table[other_page] as int;
    slot_in_pool(p, m.total_pages as int, slot, ps, hd);
    slot_in_pool(q, m.total_pages as int, other_slot, ps, hd);
    if page == other_page {
        if slot < other_slot {
            assert((slot + 1) * hd <= other_slot * hd) by (nonlinear_arith)
                requires
                    slot + 1 <= other_slot,
                    hd >= 0,
            ;
            assert(slot * hd + hd == (slot + 1) * hd) by (nonlinear_arith);
        } else {
            assert((other_slot + 1) * hd <= slot * hd) by (nonlinear_arith)
                requires
                    other_slot + 1 <= slot,
                    hd >= 0,
            ;
            assert(other_slot * hd + hd == (other_slot + 1) * hd) by (nonlinear_arith);
        }
    } else {
        let both: Seq<u32> = m.table + m.free;
        assert(both[page] == m.table[page]);
        assert(both[other_page] == m.table[other_page]);
        assert(pe >= 0) by (nonlinear_arith)
            requires
                pe == ps * hd,
                ps >= 0,
                hd >= 0,
        ;
        if p < q {
            assert((p + 1) * pe <= q * pe) by (nonlinear_arith)
                requires
                    p + 1 <= q,
                    pe >= 0,
            ;
        } else {
            assert((q + 1) * pe <= p * pe) by (nonlinear_arith)
                requires
                    q + 1 <= p,
                    pe >= 0,
            ;
        }
    }
}

/// A token's page is one of the block table's, and its slot is one of those filled.
pub proof fn token_position(m: PagedModel, i: int)
    requires
        m.wf(),
        m.page_size > 0,
        0 <= i < m.len,
    ensures
        0 <= i / m.page_size as int,
        (i / m.page_size as int) < m.table.len(),
        0 <= i % m.page_size as int,
        (i % m.page_size as int) < m.page_size,
        i / m.page_size as int == m.table.len() - 1 ==> (i % m.page_size as int) < m.fill,
{
    let ps: int = m.page_size as int;
    let n: int = m.table.len() as int;
    lemma_fundamental_div_mod(i, ps);
    lemma_mod_bound(i, ps);
    let page: int = i / ps;
    assert(0 <= page) by (nonlinear_arith)
        requires
            page == i / ps,
            i >= 0,
            ps > 0,
    ;
    assert((n - 1) * ps + ps == n * ps) by (nonlinear_arith);
    if page >= n {
        assert(ps * page >= n * ps) by (nonlinear_arith)
            requires
                page >= n,
                ps > 0,
        ;
    }
    if page == n - 1 {
        assert(ps * page == (n - 1) * ps) by (nonlinear_arith)
            requires
                page == n - 1,
        ;
    }
}

/// Reading through the block table gives back the token that was appended last, and leaves every
/// earlier one as it was.
proof fn token_is_kept(m: PagedModel, k: Seq<u32>, v: Seq<u32>)
    requires
        m.wf(),
        m.exclusive(),
        m.page_size > 0,
        m.room() >= 1,
        k.len() == m.head_dim,
        v.len() == m.head_dim,
    ensures
        m.with_token(k, v).k_tokens() == m.k_tokens().push(k),
        m.with_token(k, v).v_tokens() == m.v_tokens().push(v),
{
    let done: PagedModel = m.with_token(k, v);
    let open: PagedModel = m.with_open_page();
    token_keeps_shape(m, k, v);
    token_keeps_pages_apart(m, k, v);
    room_allows_token(m);
    let ps: int = m.page_size as int;
    let hd: int = m.head_dim as int;
    let last: int = done.table.len() - 1;
    let at: int = open.next_place();
    slot_in_pool(open.table.last() as int, m.total_pages as int, open.fill as int, ps, hd);
    // The new token's own place
    let len: int = m.len as int;
    assert(len == last * ps + open.fill) by {
        if m.page_is_full() {
            if m.table.len() > 0 {
                assert((last - 1) * ps + ps == last * ps) by (nonlinear_arith);
            } else {
                assert(0 * ps == 0) by (nonlinear_arith);
            }
        }
    }
    assert(ps * last == last * ps) by (nonlinear_arith);
    lemma_fundamental_div_mod_converse(len, ps, last, open.fill as int);
    assert(done.place(len) == at);
    assert(done.k_token(len) =~= k);
    assert(done.v_token(len) =~= v);
    assert forall|i: int| 0 <= i < m.len implies done.k_token(i) == m.k_token(i)
        && done.v_token(i) == m.v_token(i) by {
        token_position(m, i);
        token_position(done, i);
        let page: int = i / ps;
        let slot: int = i % ps;
        assert(done.table[page] == m.table[page]);
        if m.page_is_full() {
            assert(page != last);
        }
        places_are_apart(done, page, slot, last, open.fill as int);
        slot_in_pool(m.table[page] as int, m.total_pages as int, slot, ps, hd);
        assert(done.k_token(i) =~= m.k_token(i));
        assert(done.v_token(i) =~= m.v_token(i));
    }
    assert(done.k_tokens() =~= m.k_tokens().push(k));
    assert(done.v_tokens() =~= m.v_tokens().push(v));
}

/// The tokens in a run of elements.
pub open spec fn tokens_in(data: Seq<u32>, head_dim: nat) -> Seq<Seq<u32>>
    decreases data.len(),
{
    if head_dim == 0 || data.len() < head_dim {
        Seq::empty()
    } else {
        seq![data.take(head_dim as int)] + tokens_in(data.skip(head_dim as int), head_dim)
    }
}

/// Reading through the block table gives back everything that was appended, in order, as long as
/// no page is in two places: the tokens that were there before, then the new ones.
pub proof fn paged_reads_give_back_appends(m: PagedModel, k: Seq<u32>, v: Seq<u32>)
    requires
        m.wf(),
        m.exclusive(),
        m.page_size > 0,
        m.head_dim > 0,
        k.len() % m.head_dim == 0,
        v.len() == k.len(),
        k.len() / m.head_dim <= m.room(),
    ensures
        m.with_tokens(k, v).k_tokens() == m.k_tokens() + tokens_in(k, m.head_dim),
        m.with_tokens(k, v).v_tokens() == m.v_tokens() + tokens_in(v, m.head_dim),
    decreases k.len(),
{
    let hd: int = m.head_dim as int;
    if k.len() >= hd {
        assert(k.len() as int / hd >= 1) by (nonlinear_arith)
            requires
                hd > 0,
                k.len() >= hd,
        ;
        let next: PagedModel = m.with_token(k.take(hd), v.take(hd));
        token_keeps_shape(m, k.take(hd), v.take(hd));
        token_keeps_pages_apart(m, k.take(hd), v.take(hd));
        token_is_kept(m, k.take(hd), v.take(hd));
        rest_has_one_token_less(k.len() as int, hd);
        paged_reads_give_back_appends(next, k.skip(hd), v.skip(hd));
        assert(m.k_tokens().push(k.take(hd)) + tokens_in(k.skip(hd), m.head_dim) =~= m.k_tokens()
            + tokens_in(k, m.head_dim));
        assert(m.v_tokens().push(v.take(hd)) + tokens_in(v.skip(hd), m.head_dim) =~= m.v_tokens()
            + tokens_in(v, m.head_dim));
    } else {
        assert(m.k_tokens() + tokens_in(k, m.head_dim) =~= m.k_tokens());
        assert(m.v_tokens() + tokens_in(v, m.head_dim) =~= m.v_tokens());
    }
}

/// The block table has one page for each full or begun page of tokens.
pub proof fn pages_in_use(m: PagedModel)
    requires
        m.wf(),
        m.page_size > 0,
    ensures
        m.table.len() == (m.len + m.page_size - 1) / m.page_size as int,
{
    let ps: int = m.page_size as int;
    let n: int = m.table.len() as int;
    if n == 0 {
        lemma_basic_div(ps - 1, ps);
    } else {
        assert((n - 1) * ps + ps == n * ps) by (nonlinear_arith);
        assert(n * ps == ps * n) by (nonlinear_arith);
        let x: int = m.len + m.page_size - 1;
        assert(x == ps * n + (m.fill - 1));
        lemma_fundamental_div_mod_converse(x, ps, n, m.fill - 1);
    }
}

/// Emptying makes every page in use free, and keeps pages apart.
pub proof fn emptying_frees_all_pages(m: PagedModel)
    requires
        m.wf(),
    ensures
        m.emptied().wf(),
        m.emptied().free.len() == m.table.len() + m.free.len(),
        m.exclusive() ==> m.emptied().exclusive(),
{
    let a: Seq<u32> = m.table + m.free;
    let e: PagedModel = m.emptied();
    let b: Seq<u32> = e.table + e.free;
    assert forall|i: int| 0 <= i < e.free.len() implies (#[trigger] e.free[i]) < e.total_pages by {
        if i < m.free.len() {
            assert(m.free[i] < m.total_pages);
        } else {
            assert(m.table[i - m.free.len()] < m.total_pages);
        }
    }
    if m.exclusive() {
        let f: int = m.free.len() as int;
        let t: int = m.table.len() as int;
        assert forall|i: int, j: int| 0 <= i < b.len() && 0 <= j < b.len() && i != j implies b[i]
            != b[j] by {
            let x: int = if i < f {
                t + i
            } else {
                i - f
            };
            let y: int = if j < f {
                t + j
            } else {
                j - f
            };
            assert(b[i] == a[x]);
            assert(b[j] == a[y]);
        }
    }
}

/// Freeing the page that was just allocated takes the allocation back, and the page that an
/// allocation hands out is in no other place.
pub proof fn allocation_is_undone_by_free(m: PagedModel)
    requires
        m.wf(),
        m.free.len() > 0,
    ensures
        m.free.drop_last().push(m.free.last()) == m.free,
        m.exclusive() ==> !m.table.contains(m.free.last()) && !m.free.drop_last().contains(
            m.free.last(),
        ),
{
    assert(m.free.drop_last().push(m.free.last()) =~= m.free);
    let both: Seq<u32> = m.table + m.free;
    if m.exclusive() {
        assert(both[both.len() - 1] == m.free.last());
        if m.table.contains(m.free.last()) {
            let i: int = choose|i: int| 0 <= i < m.table.len() && m.table[i] == m.free.last();
            assert(both[i] == m.table[i]);
        }
        if m.free.drop_last().contains(m.free.last()) {
            let i: int = choose|i: int|
                0 <= i < m.free.len() - 1 && m.free.drop_last()[i] == m.free.last();
            assert(both[m.table.len() + i] == m.free[i]);
        }
    }
}

} // verus!
