//! KV caches for softmax attention.
//!
//! Keys and values are 32-bit floats, held by their bit patterns.

use vstd::arithmetic::div_mod::*;
use vstd::arithmetic::mul::*;
use vstd::prelude::*;
use vstd::slice::slice_subrange;

verus! {

/// Default page size in tokens for paged KV cache.
pub const PAGE_SIZE: usize = 16;

/// `s` with the elements from `at` on replaced by `part`.
pub open spec fn overwritten(s: Seq<u32>, at: int, part: Seq<u32>) -> Seq<u32> {
    s.take(at) + part + s.skip(at + part.len())
}

/// Copies the `n` elements at `from` in `source` to `at` in `target`.
pub(crate) fn copy_range(target: &mut Vec<u32>, at: usize, source: &[u32], from: usize, n: usize)
    requires
        at + n <= old(target).len(),
        from + n <= source.len(),
    ensures
        final(target)@ == overwritten(
            old(target)@,
            at as int,
            source@.subrange(from as int, from + n),
        ),
{
    let ghost before: Seq<u32> = target@;
    let mut i: usize = 0;
    while i < n
        invariant
            i <= n,
            at + n <= target.len(),
            from + n <= source.len(),
            target@.len() == before.len(),
            forall|j: int|
                0 <= j < before.len() ==> #[trigger] target@[j] == (if at <= j < at + i {
                    source@[from + (j - at)]
                } else {
                    before[j]
                }),
        decreases n - i,
    {
        target[at + i] = source[from + i];
        i = i + 1;
    }
    assert(target@ =~= overwritten(before, at as int, source@.subrange(from as int, from + n)));
}

/// What a dense cache holds: the keys and the values of `len` tokens.
#[verifier::ext_equal]
pub struct DenseModel {
    pub k: Seq<u32>,
    pub v: Seq<u32>,
    pub len: nat,
    pub max_seq: nat,
    pub head_dim: nat,
}

impl DenseModel {
    /// With more keys and values after those there are.
    pub open spec fn appended(self, k_new: Seq<u32>, v_new: Seq<u32>) -> DenseModel {
        DenseModel {
            k: self.k + k_new,
            v: self.v + v_new,
            len: self.len + k_new.len() / self.head_dim,
            ..self
        }
    }

    /// Without any tokens.
    pub open spec fn emptied(self) -> DenseModel {
        DenseModel { k: Seq::empty(), v: Seq::empty(), len: 0, ..self }
    }
}

/// Dense KV cache storing K and V in contiguous buffers.
///
/// Layout: K is `[max_seq, head_dim]`, V is `[max_seq, head_dim]`.
/// `current_len` tracks how many positions are populated.
#[derive(Debug)]
pub struct DenseKVCache {
    /// Key buffer: [max_seq, head_dim] row-major.
    k: Vec<u32>,
    /// Value buffer: [max_seq, head_dim] row-major.
    v: Vec<u32>,
    /// Number of populated positions (0..current_len are valid).
    current_len: usize,
    /// Maximum sequence length this cache can hold.
    max_seq: usize,
    /// Per-head dimension.
    head_dim: usize,
}

impl Clone for DenseKVCache {
    fn clone(&self) -> (r: DenseKVCache)
        ensures
            r.model() == self.model(),
            self.wf() ==> r.wf(),
    {
        let k: Vec<u32> = self.k.clone();
        let v: Vec<u32> = self.v.clone();
        assert(k@ =~= self.k@);
        assert(v@ =~= self.v@);
        DenseKVCache {
            k,
            v,
            current_len: self.current_len,
            max_seq: self.max_seq,
            head_dim: self.head_dim,
        }
    }
}

impl DenseKVCache {
    /// Both buffers have room for `max_seq` tokens, and no more than that are populated.
    pub closed spec fn wf(self) -> bool {
        &&& self.k.len() == self.max_seq * self.head_dim
        &&& self.v.len() == self.max_seq * self.head_dim
        &&& self.current_len <= self.max_seq
        &&& self.current_len * self.head_dim <= self.max_seq * self.head_dim
    }

    /// What this cache holds.
    pub closed spec fn model(self) -> DenseModel {
        DenseModel {
            k: self.k@.take(self.current_len * self.head_dim),
            v: self.v@.take(self.current_len * self.head_dim),
            len: self.current_len as nat,
            max_seq: self.max_seq as nat,
            head_dim: self.head_dim as nat,
        }
    }

    /// Create a new empty KV cache.
    pub fn new(max_seq: usize, head_dim: usize) -> (r: DenseKVCache)
        requires
            max_seq * head_dim <= usize::MAX,
        ensures
            r.wf(),
            r.model() == (DenseModel {
                k: Seq::empty(),
                v: Seq::empty(),
                len: 0,
                max_seq: max_seq as nat,
                head_dim: head_dim as nat,
            }),
    {
        let r: DenseKVCache = DenseKVCache {
            k: vec![0; max_seq * head_dim],
            v: vec![0; max_seq * head_dim],
            current_len: 0,
            max_seq,
            head_dim,
        };
        proof {
            assert(0 * head_dim == 0) by (nonlinear_arith);
            assert(0 <= max_seq * head_dim) by (nonlinear_arith);
            assert(r.model().k =~= Seq::<u32>::empty());
            assert(r.model().v =~= Seq::<u32>::empty());
        }
        r
    }

    /// Append new K/V vectors to the cache.
    ///
    /// `k_new` and `v_new` must have length `num_tokens * head_dim`, and there must be room for
    /// that many tokens.
    pub fn append(&mut self, k_new: &[u32], v_new: &[u32])
        requires
            old(self).wf(),
            old(self).model().head_dim > 0,
            k_new@.len() % old(self).model().head_dim == 0,
            v_new@.len() == k_new@.len(),
            old(self).model().len + k_new@.len() / old(self).model().head_dim <= old(
                self,
            ).model().max_seq,
        ensures
            final(self).wf(),
            final(self).model() == old(self).model().appended(k_new@, v_new@),
    {
        let ghost before: DenseModel = self.model();
        let hd: usize = self.head_dim;
        let num_tokens: usize = k_new.len() / hd;
        proof {
            let n: int = num_tokens as int;
            let d: int = hd as int;
            lemma_fundamental_div_mod(k_new@.len() as int, d);
            assert(d * n == n * d) by (nonlinear_arith);
            assert(self.current_len * d + n * d == (self.current_len + n) * d) by (nonlinear_arith);
            assert((self.current_len + n) * d <= self.max_seq * d) by (nonlinear_arith)
                requires
                    self.current_len + n <= self.max_seq,
                    d > 0,
            ;
        }
        let start: usize = self.current_len * hd;
        copy_range(&mut self.k, start, k_new, 0, k_new.len());
        copy_range(&mut self.v, start, v_new, 0, v_new.len());
        self.current_len = self.current_len + num_tokens;
        proof {
            assert(self.model().k =~= before.k + k_new@);
            assert(self.model().v =~= before.v + v_new@);
        }
    }

    /// Get the filled K slice: `[current_len * head_dim]`.
    pub fn k_slice(&self) -> (r: &[u32])
        requires
            self.wf(),
        ensures
            r@ == self.model().k,
    {
        slice_subrange(self.k.as_slice(), 0, self.current_len * self.head_dim)
    }

    /// Get the filled V slice: `[current_len * head_dim]`.
    pub fn v_slice(&self) -> (r: &[u32])
        requires
            self.wf(),
        ensures
            r@ == self.model().v,
    {
        slice_subrange(self.v.as_slice(), 0, self.current_len * self.head_dim)
    }

    /// Current number of cached positions.
    pub fn len(&self) -> (r: usize)
        ensures
            r == self.model().len,
    {
        self.current_len
    }

    /// Whether the cache is empty.
    pub fn is_empty(&self) -> (r: bool)
        ensures
            r == (self.model().len == 0),
    {
        self.current_len == 0
    }

    /// Maximum sequence length.
    pub fn max_len(&self) -> (r: usize)
        ensures
            r == self.model().max_seq,
    {
        self.max_seq
    }

    /// Head dimension.
    pub fn head_dim(&self) -> (r: usize)
        ensures
            r == self.model().head_dim,
    {
        self.head_dim
    }

    /// Reset the cache to empty (does not deallocate).
    pub fn reset(&mut self)
        requires
            old(self).wf(),
        ensures
            final(self).wf(),
            final(self).model() == old(self).model().emptied(),
    {
        self.current_len = 0;
        proof {
            assert(0 * self.head_dim == 0) by (nonlinear_arith);
            assert(0 <= self.max_seq * self.head_dim) by (nonlinear_arith);
            assert(self.model().k =~= Seq::<u32>::empty());
            assert(self.model().v =~= Seq::<u32>::empty());
        }
    }
}

/// Appending token by token, or in any other portions, comes to the same as appending at once.
pub proof fn appends_add_up(
    cache: DenseModel,
    k1: Seq<u32>,
    v1: Seq<u32>,
    k2: Seq<u32>,
    v2: Seq<u32>,
)
    requires
        cache.head_dim > 0,
        k1.len() % cache.head_dim == 0,
        k2.len() % cache.head_dim == 0,
    ensures
        cache.appended(k1, v1).appended(k2, v2) == cache.appended(k1 + k2, v1 + v2),
{
    let d: int = cache.head_dim as int;
    let a: int = k1.len() as int / d;
    let b: int = k2.len() as int / d;
    lemma_fundamental_div_mod(k1.len() as int, d);
    lemma_fundamental_div_mod(k2.len() as int, d);
    assert(k1.len() + k2.len() == d * (a + b)) by (nonlinear_arith)
        requires
            k1.len() == d * a,
            k2.len() == d * b,
    ;
    lemma_fundamental_div_mod_converse((k1.len() + k2.len()) as int, d, a + b, 0);
    assert(cache.appended(k1, v1).appended(k2, v2) =~= cache.appended(k1 + k2, v1 + v2));
}

/// A cache that was emptied is as it was at first, whatever it held.
pub proof fn emptying_forgets_tokens(cache: DenseModel, k_new: Seq<u32>, v_new: Seq<u32>)
    ensures
        cache.appended(k_new, v_new).emptied() == cache.emptied(),
{
}

} // verus!
