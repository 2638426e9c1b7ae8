//! Buffer size buckets and pooling.

use vstd::arithmetic::power2::*;
use vstd::prelude::*;

verus! {

/// Smallest bucket: one page.
pub const MIN_BUCKET: usize = 4096;

/// How far `from` is below `size`.
pub open spec fn below(from: nat, size: nat) -> nat {
    if from < size {
        (size - from) as nat
    } else {
        0
    }
}

/// The first of `from`, `2 * from`, `4 * from`, ... that is not below `size`.
pub open spec fn doubled(from: nat, size: nat) -> nat
    decreases below(from, size),
{
    if from == 0 || from >= size {
        from
    } else {
        doubled(from * 2, size)
    }
}

/// The bucket of a size: the next power of two, and at least one page.
pub open spec fn bucket_of(size: nat) -> nat {
    doubled(MIN_BUCKET as nat, size)
}

/// A bucket holds every size that belongs to it, is the least power of two to do so, and is its
/// own bucket.
pub proof fn bucket_is_least_power_of_two(size: nat)
    ensures
        bucket_of(size) >= size,
        bucket_of(size) >= MIN_BUCKET,
        size > MIN_BUCKET ==> bucket_of(size) < 2 * size,
        exists|k: nat| bucket_of(size) == #[trigger] pow2(k),
        bucket_of(bucket_of(size)) == bucket_of(size),
{
    lemma2_to64();
    assert(MIN_BUCKET == pow2(12));
    doubling_stops(12, size);
    doubling_is_stable(12, size);
}

/// A larger size never has a smaller bucket.
pub proof fn bucket_is_monotone(a: nat, b: nat)
    requires
        a <= b,
    ensures
        bucket_of(a) <= bucket_of(b),
{
    doubling_is_monotone(MIN_BUCKET as nat, a, b);
}

proof fn doubling_stops(k: nat, size: nat)
    ensures
        doubled(pow2(k), size) >= size,
        doubled(pow2(k), size) >= pow2(k),
        size > pow2(k) ==> doubled(pow2(k), size) < 2 * size,
        exists|j: nat| doubled(pow2(k), size) == #[trigger] pow2(j),
    decreases below(pow2(k), size),
{
    lemma_pow2_pos(k);
    lemma_pow2_unfold(k + 1);
    if pow2(k) < size {
        doubling_stops(k + 1, size);
    } else {
        assert(doubled(pow2(k), size) == pow2(k));
    }
}

proof fn doubling_is_stable(k: nat, size: nat)
    ensures
        doubled(pow2(k), doubled(pow2(k), size)) == doubled(pow2(k), size),
    decreases below(pow2(k), size),
{
    lemma_pow2_pos(k);
    lemma_pow2_unfold(k + 1);
    if pow2(k) < size {
        doubling_stops(k + 1, size);
        doubling_is_stable(k + 1, size);
    }
}

proof fn doubling_is_monotone(from: nat, a: nat, b: nat)
    requires
        a <= b,
    ensures
        doubled(from, a) <= doubled(from, b),
    decreases below(from, b),
{
    if from > 0 && from < b {
        doubling_is_monotone(from * 2, a, b);
        if from >= a {
            doubling_grows(from * 2, b);
        }
    }
}

proof fn doubling_grows(from: nat, size: nat)
    ensures
        doubled(from, size) >= from,
    decreases below(from, size),
{
    if from > 0 && from < size {
        doubling_grows(from * 2, size);
    }
}

/// Size bucket for the buffer pool (rounded up to power-of-two).
pub fn bucket_size(size: usize) -> (r: usize)
    requires
        size <= usize::MAX / 2 + 1,
    ensures
        r == bucket_of(size as nat),
{
    proof {
        bucket_is_least_power_of_two(size as nat);
        assert(usize::MAX % 2 == 1);
    }
    let mut bucket: usize = MIN_BUCKET;
    while bucket < size
        invariant
            bucket > 0,
            bucket_of(size as nat) == doubled(bucket as nat, size as nat),
            bucket_of(size as nat) <= usize::MAX,
        decreases below(bucket as nat, size as nat),
    {
        proof {
            doubling_grows(bucket as nat * 2, size as nat);
        }
        bucket = bucket * 2;
    }
    bucket
}

/// A buffer of type `B` with its length in bytes.
pub struct PoolBuffer<B> {
    pub length: usize,
    pub buffer: B,
}

/// Simple buffer pool that reuses buffers of type `B` by size bucket.
///
/// Buffers are grouped by power-of-two size buckets. When a buffer is released
/// back to the pool, it becomes available for future acquisitions of the same
/// or smaller size within the same bucket.
pub struct BufferPool<B> {
    /// Free buffers, in the order in which they were released.
    free: Vec<PoolBuffer<B>>,
}

/// Whether a buffer of `length` bytes serves an acquisition of `size` bytes: it is no smaller, and
/// in the same bucket.
pub open spec fn serves(length: nat, size: nat) -> bool {
    length >= size && bucket_of(length) == bucket_of(size)
}

/// Where the last buffer that serves `size` bytes stands; -1 if there is none.
pub open spec fn last_serving<B>(free: Seq<PoolBuffer<B>>, size: nat) -> int
    decreases free.len(),
{
    if free.len() == 0 {
        -1
    } else if serves(free.last().length as nat, size) {
        free.len() - 1
    } else {
        last_serving(free.drop_last(), size)
    }
}

/// The buffers that serve a size are those from the size to its bucket.
pub(crate) proof fn serving_lengths(length: nat, size: nat)
    ensures
        serves(length, size) <==> size <= length <= bucket_of(size),
{
    bucket_is_least_power_of_two(length);
    bucket_is_least_power_of_two(size);
    if size <= length <= bucket_of(size) {
        bucket_is_monotone(size, length);
        bucket_is_monotone(length, bucket_of(size));
    }
}

proof fn last_serving_serves<B>(free: Seq<PoolBuffer<B>>, size: nat)
    ensures
        -1 <= last_serving(free, size) < free.len(),
        last_serving(free, size) >= 0 ==> serves(
            free[last_serving(free, size)].length as nat,
            size,
        ),
    decreases free.len(),
{
    if free.len() > 0 && !serves(free.last().length as nat, size) {
        last_serving_serves(free.drop_last(), size);
    }
}

impl<B> View for BufferPool<B> {
    type V = Seq<PoolBuffer<B>>;

    closed spec fn view(&self) -> Seq<PoolBuffer<B>> {
        self.free@
    }
}

impl<B> BufferPool<B> {
    /// Create a new empty buffer pool.
    pub fn new() -> (r: BufferPool<B>)
        ensures
            r@ == Seq::<PoolBuffer<B>>::empty(),
    {
        BufferPool { free: Vec::new() }
    }

    /// Acquire a buffer of at least `size` bytes.
    ///
    /// Returns the buffer in the matching size bucket that was released last, of those that are
    /// large enough, if one is available, otherwise a new one of the bucket's size from `alloc`.
    pub fn acquire<F: FnOnce(usize) -> B>(&mut self, size: usize, alloc: F) -> (r: PoolBuffer<B>)
        requires
            size <= usize::MAX / 2 + 1,
            last_serving(old(self)@, size as nat) < 0 ==> call_requires(
                alloc,
                (bucket_of(size as nat) as usize,),
            ),
        ensures
            r.length >= size,
            ({
                let at = last_serving(old(self)@, size as nat);
                if at >= 0 {
                    r == old(self)@[at] && final(self)@ == old(self)@.remove(at)
                } else {
                    &&& r.length == bucket_of(size as nat)
                    &&& call_ensures(alloc, (r.length,), r.buffer)
                    &&& final(self)@ == old(self)@
                }
            }),
    {
        let bucket: usize = bucket_size(size);
        proof {
            bucket_is_least_power_of_two(size as nat);
            last_serving_serves(self.free@, size as nat);
        }
        let mut i: usize = self.free.len();
        assert(self.free@.take(i as int) =~= self.free@);
        while i > 0
            invariant
                i <= self.free.len(),
                self.free@ == old(self)@,
                bucket == bucket_of(size as nat),
                last_serving(self.free@, size as nat) == last_serving(
                    self.free@.take(i as int),
                    size as nat,
                ),
            decreases i,
        {
            let length: usize = self.free[i - 1].length;
            proof {
                assert(self.free@.take(i as int).drop_last() =~= self.free@.take(i - 1));
                serving_lengths(length as nat, size as nat);
            }
            if size <= length && length <= bucket {
                return self.free.remove(i - 1);
            }
            i = i - 1;
        }
        PoolBuffer { length: bucket, buffer: alloc(bucket) }
    }

    /// Release a buffer back to the pool for reuse.
    pub fn release(&mut self, buffer: PoolBuffer<B>)
        ensures
            final(self)@ == old(self)@.push(buffer),
    {
        self.free.push(buffer);
    }

    /// Number of free buffers across all buckets.
    pub fn free_count(&self) -> (r: usize)
        ensures
            r == self@.len(),
    {
        self.free.len()
    }

    /// Clear all pooled buffers, releasing their memory.
    pub fn clear(&mut self)
        ensures
            final(self)@ == Seq::<PoolBuffer<B>>::empty(),
    {
        self.free.clear();
    }
}

/// A released buffer is the one that the next acquisition of the same or smaller size within its
/// bucket gets, and taking it leaves the pool as it was before the release.
pub proof fn released_buffer_is_reused<B>(
    pool: Seq<PoolBuffer<B>>,
    buffer: PoolBuffer<B>,
    size: nat,
)
    requires
        size <= buffer.length,
        bucket_of(size) == bucket_of(buffer.length as nat),
    ensures
        last_serving(pool.push(buffer), size) == pool.len(),
        pool.push(buffer)[pool.len() as int] == buffer,
        pool.push(buffer).remove(pool.len() as int) == pool,
{
    assert(pool.push(buffer).remove(pool.len() as int) =~= pool);
}

} // verus!
