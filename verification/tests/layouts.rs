use metal_attention::kernels::layout::{cpu_gqa_remap, gather_kv_pages, interleave_kv_pages};
use metal_attention::kernels::paged_cache::PagedKVCache;
use metal_attention::kernels::prefix_sum::cpu_prefix_sum;

fn bits(floats: &[f32]) -> Vec<u32> {
    floats.iter().map(|x| x.to_bits()).collect()
}

fn plus(a: u32, b: u32) -> u32 {
    (f32::from_bits(a) + f32::from_bits(b)).to_bits()
}

#[test]
fn test_gqa_remap_mha() {
    // When num_heads == num_kv_heads, output == input (identity remap)
    let seq_len = 4;
    let head_dim = 8;
    let num_heads = 4;
    let num_kv_heads = 4;

    let k_full: Vec<u32> = (0..num_kv_heads * seq_len * head_dim)
        .map(|i| (i as f32 * 0.1).to_bits())
        .collect();

    let cpu_out = cpu_gqa_remap(&k_full, seq_len, head_dim, num_heads, num_kv_heads);
    assert_eq!(cpu_out, k_full, "MHA remap should be identity");
}

#[test]
fn query_heads_of_a_group_get_the_same_keys() {
    // Two KV heads of two tokens, four query heads.
    assert_eq!(
        cpu_gqa_remap(&[1, 2, 3, 4], 2, 1, 4, 2),
        vec![1, 2, 1, 2, 3, 4, 3, 4]
    );
    assert_eq!(cpu_gqa_remap(&[], 2, 1, 0, 2), Vec::<u32>::new());
}

#[test]
fn pages_are_interleaved_key_page_first() {
    // Two pages of two tokens with one element each.
    assert_eq!(
        interleave_kv_pages(&[1, 2, 3, 4], &[5, 6, 7, 8], 2, 2, 1),
        vec![1, 2, 5, 6, 3, 4, 7, 8]
    );
}

#[test]
fn tokens_are_gathered_through_the_block_table() {
    let kv = interleave_kv_pages(&[1, 2, 3, 4], &[5, 6, 7, 8], 2, 2, 1);
    let (k, v) = gather_kv_pages(&kv, &[1, 0], 1, 2, 3);
    assert_eq!(k, vec![3, 4, 1]);
    assert_eq!(v, vec![7, 8, 5]);
}

#[test]
fn a_paged_context_is_the_dense_one() {
    let head_dim = 3;
    let mut cache = PagedKVCache::new(5, 2, head_dim);
    let k: Vec<u32> = (0..7 * head_dim as u32).collect();
    let v: Vec<u32> = (100..100 + 7 * head_dim as u32).collect();
    // In three goes, so that pages fill up in between.
    cache.append(&k[..9], &v[..9]);
    cache.append(&k[9..12], &v[9..12]);
    cache.append(&k[12..], &v[12..]);
    let kv = interleave_kv_pages(cache.k_pages(), cache.v_pages(), 5, 2, head_dim);
    let (keys, values) = gather_kv_pages(&kv, cache.block_table(), head_dim, 2, cache.len());
    assert_eq!(keys, k);
    assert_eq!(values, v);
}

#[test]
fn test_prefix_sum_cpu_reference() {
    // 3 matrices, each 2x2
    let input = bits(&[
        1.0, 2.0, 3.0, 4.0, // matrix 0
        10.0, 20.0, 30.0, 40.0, // matrix 1
        100.0, 200.0, 300.0, 400.0, // matrix 2
    ]);

    let output: Vec<f32> = cpu_prefix_sum(&input, 3, 2, &plus)
        .iter()
        .map(|x| f32::from_bits(*x))
        .collect();

    // matrix 0: [1,2,3,4]
    assert_eq!(output[0], 1.0);
    assert_eq!(output[1], 2.0);
    assert_eq!(output[2], 3.0);
    assert_eq!(output[3], 4.0);

    // matrix 1: [1+10, 2+20, 3+30, 4+40] = [11, 22, 33, 44]
    assert_eq!(output[4], 11.0);
    assert_eq!(output[5], 22.0);
    assert_eq!(output[6], 33.0);
    assert_eq!(output[7], 44.0);

    // matrix 2: [11+100, 22+200, 33+300, 44+400] = [111, 222, 333, 444]
    assert_eq!(output[8], 111.0);
    assert_eq!(output[9], 222.0);
    assert_eq!(output[10], 333.0);
    assert_eq!(output[11], 444.0);
}
