use metal_attention::kernels::buffer::{bucket_size, BufferPool, PoolBuffer, MIN_BUCKET};

/// Stands for a device buffer: as many bytes as were asked for.
fn new_buffer(length: usize) -> Vec<u8> {
    vec![0; length]
}

/// A buffer of `length` bytes that did not come from a pool.
fn own_buffer(length: usize) -> PoolBuffer<Vec<u8>> {
    PoolBuffer { length, buffer: new_buffer(length) }
}

#[test]
fn test_buffer_pool_acquire_release() {
    let mut pool = BufferPool::new();

    assert_eq!(pool.free_count(), 0);

    // Acquire a buffer
    let buf = pool.acquire(1024, new_buffer);
    assert!(buf.length >= 1024);
    assert_eq!(buf.buffer.len(), buf.length);

    // Release it back
    pool.release(buf);
    assert_eq!(pool.free_count(), 1);

    // Acquire again: should reuse the pooled buffer
    let buf2 = pool.acquire(1024, |_: usize| -> Vec<u8> { panic!("allocated anew") });
    assert!(buf2.length >= 1024);
    assert_eq!(pool.free_count(), 0, "Should have reused pooled buffer");

    // Clear pool
    pool.release(buf2);
    pool.clear();
    assert_eq!(pool.free_count(), 0);
}

#[test]
fn test_bucket_size() {
    assert_eq!(bucket_size(1), 4096);
    assert_eq!(bucket_size(4096), 4096);
    assert_eq!(bucket_size(4097), 8192);
    assert_eq!(bucket_size(8192), 8192);
    assert_eq!(bucket_size(10000), 16384);
}

#[test]
fn buckets_of_other_sizes_are_not_reused() {
    let mut pool = BufferPool::new();
    pool.release(own_buffer(8192));
    let buf = pool.acquire(100, new_buffer);
    assert_eq!(buf.length, 4096);
    assert_eq!(pool.free_count(), 1);
    let buf = pool.acquire(5000, new_buffer);
    assert_eq!(buf.length, 8192);
    assert_eq!(pool.free_count(), 0);
}

#[test]
fn a_buffer_that_is_too_small_is_not_reused() {
    let mut pool = BufferPool::new();
    pool.release(own_buffer(5000));
    let buf = pool.acquire(8000, new_buffer);
    assert_eq!(buf.buffer.len(), 8192);
    assert_eq!(pool.free_count(), 1);
    // The same or a smaller size in its bucket gets it.
    let buf = pool.acquire(5000, new_buffer);
    assert_eq!(buf.buffer.len(), 5000);
    pool.release(buf);
    let buf = pool.acquire(4097, new_buffer);
    assert_eq!(buf.buffer.len(), 5000);
    pool.release(buf);
    let buf = pool.acquire(4096, new_buffer);
    assert_eq!(buf.buffer.len(), 4096);
    assert_eq!(pool.free_count(), 1);
}

#[test]
fn the_last_buffer_released_is_the_first_reused() {
    let mut pool = BufferPool::new();
    pool.release(PoolBuffer { length: 4096, buffer: "first" });
    pool.release(PoolBuffer { length: 4096, buffer: "second" });
    assert_eq!(pool.acquire(4096, |_: usize| "new").buffer, "second");
    assert_eq!(pool.acquire(4096, |_: usize| "new").buffer, "first");
    assert_eq!(pool.acquire(4096, |_: usize| "new").buffer, "new");
}

#[test]
fn smallest_bucket_holds_nothing_too() {
    assert_eq!(bucket_size(0), MIN_BUCKET);
}
