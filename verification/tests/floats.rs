use metal_attention::gguf::floats::{read_floats, read_half_floats, widen};

#[test]
fn every_half_float_is_widened_as_its_value() {
    for bits in 0..=u16::MAX {
        let expected = half::f16::from_bits(bits).to_f32();
        assert_eq!(widen(bits), expected.to_bits(), "{bits:#06x}");
    }
}

#[test]
fn known_half_floats() {
    assert_eq!(f32::from_bits(widen(0x3C00)), 1.0);
    assert_eq!(f32::from_bits(widen(0xC100)), -2.5);
    assert_eq!(f32::from_bits(widen(0x7BFF)), 65504.0);
    assert_eq!(f32::from_bits(widen(0x0001)), 2.0f32.powi(-24));
    assert_eq!(f32::from_bits(widen(0x03FF)), 1023.0 * 2.0f32.powi(-24));
    assert_eq!(f32::from_bits(widen(0xFC00)), f32::NEG_INFINITY);
    assert_eq!(widen(0x8000), 0x8000_0000);
    assert_eq!(widen(0x7C01), 0x7FC0_2000);
}

#[test]
fn floats_are_read_least_significant_byte_first() {
    assert_eq!(read_floats(&[0, 0, 0x80, 0x3F, 1, 2, 3, 4]), vec![0x3F80_0000, 0x0403_0201]);
    assert_eq!(read_floats(&[1, 2, 3]), Vec::<u32>::new());
    assert_eq!(read_half_floats(&[0x00, 0x3C, 0x00, 0xC0]), vec![0x3F80_0000, 0xC000_0000]);
}
