use metal_attention::kernels::kv_cache::DenseKVCache;
use metal_attention::kernels::paged_cache::PagedKVCache;

fn bits(floats: &[f32]) -> Vec<u32> {
    floats.iter().map(|x| x.to_bits()).collect()
}

fn floats(bits: &[u32]) -> Vec<f32> {
    bits.iter().map(|x| f32::from_bits(*x)).collect()
}

#[test]
fn test_kv_cache_new() {
    let cache = DenseKVCache::new(128, 64);
    assert_eq!(cache.len(), 0);
    assert!(cache.is_empty());
    assert_eq!(cache.max_len(), 128);
    assert_eq!(cache.head_dim(), 64);
    assert_eq!(cache.k_slice().len(), 0);
    assert_eq!(cache.v_slice().len(), 0);
}

#[test]
fn test_kv_cache_append_single() {
    let mut cache = DenseKVCache::new(128, 4);
    let k = vec![1.0, 2.0, 3.0, 4.0];
    let v = vec![5.0, 6.0, 7.0, 8.0];
    cache.append(&bits(&k), &bits(&v));

    assert_eq!(cache.len(), 1);
    assert!(!cache.is_empty());
    assert_eq!(floats(cache.k_slice()), [1.0, 2.0, 3.0, 4.0]);
    assert_eq!(floats(cache.v_slice()), [5.0, 6.0, 7.0, 8.0]);
}

#[test]
fn test_kv_cache_append_multiple() {
    let mut cache = DenseKVCache::new(128, 4);

    // Append 3 tokens at once
    let k = vec![1.0, 2.0, 3.0, 4.0, 10.0, 20.0, 30.0, 40.0, 100.0, 200.0, 300.0, 400.0];
    let v = vec![5.0, 6.0, 7.0, 8.0, 50.0, 60.0, 70.0, 80.0, 500.0, 600.0, 700.0, 800.0];
    cache.append(&bits(&k), &bits(&v));

    assert_eq!(cache.len(), 3);
    assert_eq!(cache.k_slice().len(), 12);
    assert_eq!(cache.v_slice().len(), 12);

    // Verify data integrity
    assert_eq!(floats(cache.k_slice())[0], 1.0);
    assert_eq!(floats(cache.k_slice())[4], 10.0);
    assert_eq!(floats(cache.k_slice())[8], 100.0);
    assert_eq!(floats(cache.v_slice())[0], 5.0);
    assert_eq!(floats(cache.v_slice())[4], 50.0);
    assert_eq!(floats(cache.v_slice())[8], 500.0);
}

#[test]
fn test_kv_cache_incremental_append() {
    let mut cache = DenseKVCache::new(128, 4);

    // Append one at a time (decode pattern)
    cache.append(&bits(&[1.0, 2.0, 3.0, 4.0]), &bits(&[5.0, 6.0, 7.0, 8.0]));
    assert_eq!(cache.len(), 1);

    cache.append(&bits(&[10.0, 20.0, 30.0, 40.0]), &bits(&[50.0, 60.0, 70.0, 80.0]));
    assert_eq!(cache.len(), 2);

    // Verify both tokens are accessible
    assert_eq!(floats(cache.k_slice()), [1.0, 2.0, 3.0, 4.0, 10.0, 20.0, 30.0, 40.0]);
    assert_eq!(floats(cache.v_slice()), [5.0, 6.0, 7.0, 8.0, 50.0, 60.0, 70.0, 80.0]);
}

#[test]
fn test_kv_cache_reset() {
    let mut cache = DenseKVCache::new(128, 4);
    cache.append(&bits(&[1.0, 2.0, 3.0, 4.0]), &bits(&[5.0, 6.0, 7.0, 8.0]));
    assert_eq!(cache.len(), 1);

    cache.reset();
    assert_eq!(cache.len(), 0);
    assert!(cache.is_empty());
    assert_eq!(cache.k_slice().len(), 0);
}

#[test]
fn test_paged_kv_cache_new() {
    let cache = PagedKVCache::new(8, 4, 4);
    assert_eq!(cache.len(), 0);
    assert!(cache.is_empty());
    assert_eq!(cache.page_size(), 4);
    assert_eq!(cache.head_dim(), 4);
    assert_eq!(cache.num_pages(), 0);
    assert_eq!(cache.free_pages(), 8);
    assert!(cache.block_table().is_empty());
}

#[test]
fn test_paged_kv_cache_allocate_free() {
    let mut cache = PagedKVCache::new(4, 4, 4);
    assert_eq!(cache.free_pages(), 4);

    let p0 = cache.allocate_page();
    assert_eq!(cache.free_pages(), 3);

    let p1 = cache.allocate_page();
    assert_eq!(cache.free_pages(), 2);
    assert_ne!(p0, p1);

    cache.free_page(p0);
    assert_eq!(cache.free_pages(), 3);

    cache.free_page(p1);
    assert_eq!(cache.free_pages(), 4);
}

#[test]
fn test_paged_kv_cache_append_single_page() {
    let head_dim = 4;
    let page_size = 4;
    let mut cache = PagedKVCache::new(4, page_size, head_dim);

    // Append 2 tokens (fits in one page)
    let k = vec![1.0, 2.0, 3.0, 4.0, 10.0, 20.0, 30.0, 40.0];
    let v = vec![5.0, 6.0, 7.0, 8.0, 50.0, 60.0, 70.0, 80.0];
    cache.append(&bits(&k), &bits(&v));

    assert_eq!(cache.len(), 2);
    assert_eq!(cache.num_pages(), 1);
    assert_eq!(cache.block_table().len(), 1);
    assert_eq!(cache.free_pages(), 3);

    // Verify data in the page pool
    let phys = cache.block_table()[0] as usize;
    let page_elems = page_size * head_dim;
    let k_start = phys * page_elems;
    assert_eq!(floats(cache.k_pages())[k_start..k_start + head_dim], [1.0, 2.0, 3.0, 4.0]);
    assert_eq!(
        floats(cache.k_pages())[k_start + head_dim..k_start + 2 * head_dim],
        [10.0, 20.0, 30.0, 40.0]
    );
    assert_eq!(floats(cache.v_pages())[k_start..k_start + head_dim], [5.0, 6.0, 7.0, 8.0]);
}

#[test]
fn test_paged_kv_cache_append_spans_pages() {
    let head_dim = 4;
    let page_size = 2; // small page so 3 tokens -> 2 pages
    let mut cache = PagedKVCache::new(4, page_size, head_dim);

    // Append 3 tokens
    let k: Vec<f32> = (0..12).map(|i| i as f32).collect();
    let v: Vec<f32> = (100..112).map(|i| i as f32).collect();
    cache.append(&bits(&k), &bits(&v));

    assert_eq!(cache.len(), 3);
    assert_eq!(cache.num_pages(), 2); // page 0: 2 tokens, page 1: 1 token
    assert_eq!(cache.block_table().len(), 2);
    assert_eq!(cache.free_pages(), 2);
}

#[test]
fn test_paged_kv_cache_block_table_correct() {
    let head_dim = 2;
    let page_size = 2;
    let mut cache = PagedKVCache::new(8, page_size, head_dim);

    // Append 5 tokens -> 3 pages
    for i in 0..5 {
        let k = vec![(i * 2) as f32, (i * 2 + 1) as f32];
        let v = vec![(i * 2 + 100) as f32, (i * 2 + 101) as f32];
        cache.append(&bits(&k), &bits(&v));
    }

    assert_eq!(cache.len(), 5);
    assert_eq!(cache.num_pages(), 3);

    // Each block table entry is a valid physical page
    for &phys in cache.block_table() {
        assert!((phys as usize) < 8, "Physical page ID out of range");
    }

    // All block table entries should be distinct
    let mut seen = std::collections::HashSet::new();
    for &phys in cache.block_table() {
        assert!(seen.insert(phys), "Duplicate physical page in block table");
    }
}

#[test]
fn test_paged_kv_cache_reset() {
    let mut cache = PagedKVCache::new(4, 2, 4);
    cache.append(&bits(&[1.0, 2.0, 3.0, 4.0]), &bits(&[5.0, 6.0, 7.0, 8.0]));
    assert_eq!(cache.len(), 1);
    assert_eq!(cache.num_pages(), 1);

    cache.reset();
    assert_eq!(cache.len(), 0);
    assert!(cache.is_empty());
    assert_eq!(cache.num_pages(), 0);
    assert_eq!(cache.free_pages(), 4);
}


#[test]
fn appending_in_portions_is_appending_at_once() {
    let k: Vec<u32> = (0..12).collect();
    let v: Vec<u32> = (100..112).collect();
    let mut at_once = DenseKVCache::new(8, 4);
    at_once.append(&k, &v);
    let mut in_portions = DenseKVCache::new(8, 4);
    in_portions.append(&k[..4], &v[..4]);
    in_portions.append(&k[4..], &v[4..]);
    assert_eq!(in_portions.len(), 3);
    assert_eq!(in_portions.k_slice(), at_once.k_slice());
    assert_eq!(in_portions.v_slice(), at_once.v_slice());
}

#[test]
fn an_emptied_cache_starts_over() {
    let mut cache = DenseKVCache::new(2, 2);
    cache.append(&[1, 2, 3, 4], &[5, 6, 7, 8]);
    cache.reset();
    cache.append(&[9, 10], &[11, 12]);
    assert_eq!(cache.len(), 1);
    assert_eq!(cache.k_slice(), [9, 10]);
    assert_eq!(cache.v_slice(), [11, 12]);
    assert_eq!(cache.max_len(), 2);
}
