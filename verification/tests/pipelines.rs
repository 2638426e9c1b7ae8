use metal_attention::kernels::pipeline::{PsoCache, PsoKey};

#[test]
fn test_pso_key_builders() {
    let k1 = PsoKey::simple("flash_attention")
        .with_uint(0, 64)
        .with_uint(1, 16)
        .with_bool(2, true);

    let k2 = PsoKey::simple("flash_attention")
        .with_uint(0, 64)
        .with_uint(1, 16)
        .with_bool(2, true);

    assert_eq!(k1, k2, "Same parameters should produce equal keys");

    let k3 = PsoKey::simple("flash_attention")
        .with_uint(0, 128)
        .with_uint(1, 16)
        .with_bool(2, true);

    assert_ne!(k1, k3, "Different values should produce different keys");
}

#[test]
fn test_pso_key_named_constants() {
    let k1 = PsoKey::simple("my_kernel")
        .with_named_uint("HEAD_DIM", 64)
        .with_named_float("SCALE", 0.125f32.to_bits())
        .with_named_bool("USE_ALIBI", false);

    let k2 = PsoKey::simple("my_kernel")
        .with_named_uint("HEAD_DIM", 64)
        .with_named_float("SCALE", 0.125f32.to_bits())
        .with_named_bool("USE_ALIBI", false);

    assert_eq!(k1, k2);

    let k3 = PsoKey::simple("my_kernel")
        .with_named_uint("HEAD_DIM", 64)
        .with_named_float("SCALE", 0.125f32.to_bits())
        .with_named_bool("USE_ALIBI", true);

    assert_ne!(k1, k3);
}

/// Stands for a compiled pipeline: which kernel it was made from.
struct Pipeline {
    function_name: String,
    max_threads: usize,
}

fn compile(key: &PsoKey) -> Pipeline {
    Pipeline { function_name: key.function_name.clone(), max_threads: 1024 }
}

#[test]
fn test_pso_cache_basic() {
    let mut cache = PsoCache::new();

    // Cache starts empty
    assert!(cache.is_empty());
    assert_eq!(cache.len(), 0);

    let key = PsoKey::simple("matmul");
    let pso = cache.get_or_compile(&key, compile);

    // Verify we got a valid PSO
    assert!(pso.max_threads > 0);
    assert_eq!(cache.len(), 1);

    // Second call should return cached version
    let pso2 = cache.get_or_compile(&key, |_: &PsoKey| -> Pipeline { panic!("compiled twice") });
    assert_eq!(pso2.function_name, "matmul");
    assert_eq!(cache.len(), 1, "Second call should hit cache");
}

#[test]
fn test_pso_cache_clear() {
    let mut cache = PsoCache::new();

    let key = PsoKey::simple("matmul");
    let _ = cache.get_or_compile(&key, compile);
    assert_eq!(cache.len(), 1);

    cache.clear();
    assert!(cache.is_empty());
}

#[test]
fn test_prewarm() {
    let mut cache = PsoCache::new();

    let keys = vec![PsoKey::simple("matmul")];
    cache.prewarm(&keys, compile);
    assert_eq!(cache.len(), 1, "prewarm should compile and cache PSOs");
}

#[test]
fn keys_with_other_constants_are_compiled_apart() {
    let mut cache = PsoCache::new();
    let narrow = PsoKey::simple("flash_attention").with_uint(0, 64);
    let wide = PsoKey::simple("flash_attention").with_uint(0, 128);
    let boolean = PsoKey::simple("flash_attention").with_bool(0, true);
    let float = PsoKey::simple("flash_attention").with_float(0, 64.0f32.to_bits());
    let named = PsoKey::simple("flash_attention").with_named_uint("HEAD_DIM", 64);
    cache.prewarm(&[narrow, wide, boolean, float, named], compile);
    assert_eq!(cache.len(), 5);
    let again = PsoKey::simple("flash_attention").with_uint(0, 64);
    assert!(cache.get(&again).is_some());
    assert!(cache.get(&PsoKey::simple("flash_attention")).is_none());
    assert!(cache.get(&PsoKey::simple("other").with_uint(0, 64)).is_none());
}

#[test]
fn constants_are_compared_by_kind_place_and_value() {
    let key = PsoKey::simple("k").with_uint(1, 7);
    assert!(key.same_as(&PsoKey::simple("k").with_uint(1, 7)));
    assert!(!key.same_as(&PsoKey::simple("k").with_uint(2, 7)));
    assert!(!key.same_as(&PsoKey::simple("k").with_uint(1, 8)));
    assert!(!key.same_as(&PsoKey::simple("k").with_float(1, 7)));
    assert!(!key.same_as(&PsoKey::simple("j").with_uint(1, 7)));
    assert!(!key.same_as(&PsoKey::simple("k").with_uint(1, 7).with_bool(2, false)));
}

#[test]
fn a_key_is_compiled_once() {
    let mut cache: PsoCache<u32> = PsoCache::new();
    let key = PsoKey::simple("rope");
    let other = PsoKey::simple("rmsnorm");
    assert_eq!(*cache.get_or_compile(&key, |_| 1), 1);
    assert_eq!(*cache.get_or_compile(&other, |_| 2), 2);
    assert_eq!(*cache.get_or_compile(&key, |_| 3), 1);
    assert_eq!(cache.len(), 2);
}
