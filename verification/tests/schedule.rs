use metal_attention::traits::schedule::{LayerSchedule, LayerType};

#[test]
fn test_periodic_7_1_pattern() {
    // periodic(32, 7) should produce 7 Linear : 1 Attention pattern
    let schedule = LayerSchedule::periodic(32, 7);
    assert_eq!(schedule.total_layers(), 32);

    // Attention layers should be at positions 7, 15, 23, 31
    for i in 0..32 {
        let expected = if (i + 1) % 8 == 0 {
            LayerType::Attention
        } else {
            LayerType::Linear
        };
        assert_eq!(
            schedule.types[i], expected,
            "Layer {i}: expected {expected:?}, got {:?}",
            schedule.types[i]
        );
    }

    // 4 attention layers, 28 linear layers
    assert_eq!(schedule.attention_count(), 4);
    assert_eq!(schedule.linear_count(), 28);
}

#[test]
fn test_periodic_ratio_1() {
    // ratio=1 means alternating: L, A, L, A, ...
    let schedule = LayerSchedule::periodic(8, 1);
    assert_eq!(schedule.types[0], LayerType::Linear);
    assert_eq!(schedule.types[1], LayerType::Attention);
    assert_eq!(schedule.types[2], LayerType::Linear);
    assert_eq!(schedule.types[3], LayerType::Attention);
    assert_eq!(schedule.attention_count(), 4);
    assert_eq!(schedule.linear_count(), 4);
}

#[test]
fn test_pure_transformer() {
    let schedule = LayerSchedule::pure_transformer(16);
    assert_eq!(schedule.total_layers(), 16);
    assert_eq!(schedule.attention_count(), 16);
    assert_eq!(schedule.linear_count(), 0);
    assert!(schedule.types.iter().all(|t| *t == LayerType::Attention));
}

#[test]
fn test_pure_linear() {
    let schedule = LayerSchedule::pure_linear(16);
    assert_eq!(schedule.total_layers(), 16);
    assert_eq!(schedule.attention_count(), 0);
    assert_eq!(schedule.linear_count(), 16);
    assert!(schedule.types.iter().all(|t| *t == LayerType::Linear));
}

#[test]
fn test_explicit() {
    let types = vec![
        LayerType::Linear,
        LayerType::Linear,
        LayerType::Attention,
        LayerType::Linear,
        LayerType::Attention,
    ];
    let schedule = LayerSchedule::explicit(types.clone());
    assert_eq!(schedule.types, types);
    assert_eq!(schedule.attention_count(), 2);
    assert_eq!(schedule.linear_count(), 3);
}

#[test]
fn test_layer_type_accessor() {
    let schedule = LayerSchedule::periodic(4, 1);
    assert_eq!(schedule.layer_type(0), Some(LayerType::Linear));
    assert_eq!(schedule.layer_type(1), Some(LayerType::Attention));
    assert_eq!(schedule.layer_type(4), None);
}

#[test]
fn test_empty_schedule() {
    let schedule = LayerSchedule::periodic(0, 7);
    assert_eq!(schedule.total_layers(), 0);
    assert_eq!(schedule.attention_count(), 0);
    assert_eq!(schedule.linear_count(), 0);
}
