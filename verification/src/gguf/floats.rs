//! Unquantized tensor data as 32-bit floats, held by their bit patterns.

use super::bytes::{le_u16, le_u32, le_value};
use vstd::prelude::*;

verus! {

/// The 32-bit floats that little-endian bytes hold.
pub open spec fn floats_in(bytes: Seq<u8>) -> Seq<u32> {
    Seq::new(bytes.len() / 4, |i: int| le_value(bytes.subrange(4 * i, 4 * i + 4)) as u32)
}

/// The sign of a 16-bit float, where a 32-bit float has it.
pub open spec fn wide_sign(half: u16) -> u32 {
    ((half & 0x8000) as u32) << 16
}

/// The five bits of a 16-bit float's exponent.
pub open spec fn half_exponent(half: u16) -> u32 {
    ((half & 0x7C00) >> 10) as u32
}

/// The ten bits of a 16-bit float's fraction.
pub open spec fn half_fraction(half: u16) -> u32 {
    (half & 0x03FF) as u32
}

/// The 32-bit float that a fraction below the smallest normal number stands for, where `top` is
/// the fraction's highest bit: that bit becomes the one that a normal number leaves out.
pub open spec fn normalized(sign: u32, fraction: u32, top: u32) -> u32 {
    sign | (((103 + top) as u32) << 23) | ((fraction << ((23 - top) as u32)) & 0x7F_FFFF)
}

/// Whether `wide` is the 32-bit float with the value of the 16-bit float `half`. Both are bit
/// patterns: a sign, an exponent (of 5 and of 8 bits) and a fraction (of 10 and of 23 bits). What
/// is not a number stays so, and is marked quiet.
pub open spec fn same_value(half: u16, wide: u32) -> bool {
    let sign = wide_sign(half);
    let exponent = half_exponent(half);
    let fraction = half_fraction(half);
    if exponent == 0 && fraction == 0 {
        wide == sign
    } else if exponent == 0 {
        exists|top: u32|
            top < 10 && #[trigger] (fraction >> top) == 1 && wide == normalized(
                sign,
                fraction,
                top,
            )
    } else if exponent < 31 {
        wide == sign | (((exponent + 112) as u32) << 23) | (fraction << 13)
    } else if fraction == 0 {
        wide == sign | 0x7F80_0000
    } else {
        wide == sign | 0x7FC0_0000 | (fraction << 13)
    }
}

/// Whether `wide` are the 32-bit floats with the values of the little-endian 16-bit floats that
/// bytes hold.
pub open spec fn same_values(bytes: Seq<u8>, wide: Seq<u32>) -> bool {
    &&& wide.len() == bytes.len() / 2
    &&& forall|i: int|
        0 <= i < wide.len() ==> same_value(
            le_value(bytes.subrange(2 * i, 2 * i + 2)) as u16,
            #[trigger] wide[i],
        )
}

/// Widen a 16-bit float.
pub fn widen(half: u16) -> (r: u32)
    ensures
        same_value(half, r),
{
    let sign: u32 = ((half & 0x8000) as u32) << 16;
    let exponent: u32 = ((half & 0x7C00) >> 10) as u32;
    let fraction: u32 = (half & 0x03FF) as u32;
    assert(half & 0x03FF <= 0x03FF) by (bit_vector);
    assert((half & 0x7C00) >> 10 <= 31) by (bit_vector);
    if exponent == 0 && fraction == 0 {
        sign
    } else if exponent == 0 {
        let mut top: u32 = 9;
        assert(fraction >> 10u32 == 0) by (bit_vector)
            requires
                fraction <= 0x03FF,
        ;
        while fraction >> top == 0
            invariant
                top <= 9,
                fraction != 0,
                fraction >> ((top + 1) as u32) == 0,
            decreases top,
        {
            assert(top > 0) by (bit_vector)
                requires
                    fraction != 0,
                    fraction >> top == 0,
            ;
            top -= 1;
        }
        assert(fraction >> top == 1) by (bit_vector)
            requires
                top <= 9,
                fraction >> top != 0,
                fraction >> ((top + 1) as u32) == 0,
        ;
        sign | ((103 + top) << 23) | ((fraction << (23 - top)) & 0x7F_FFFF)
    } else if exponent < 31 {
        sign | ((exponent + 112) << 23) | (fraction << 13)
    } else if fraction == 0 {
        sign | 0x7F80_0000
    } else {
        sign | 0x7FC0_0000 | (fraction << 13)
    }
}

/// Read little-endian 32-bit floats.
pub fn read_floats(bytes: &[u8]) -> (r: Vec<u32>)
    ensures
        r@ == floats_in(bytes@),
{
    let n: usize = bytes.len() / 4;
    let mut out: Vec<u32> = Vec::new();
    let mut i: usize = 0;
    while i < n
        invariant
            i <= n,
            n == bytes.len() / 4,
            out@ == floats_in(bytes@).take(i as int),
        decreases n - i,
    {
        out.push(le_u32(bytes, 4 * i));
        i += 1;
        assert(out@ =~= floats_in(bytes@).take(i as int));
    }
    assert(out@ =~= floats_in(bytes@));
    out
}

/// Read little-endian 16-bit floats and widen them.
pub fn read_half_floats(bytes: &[u8]) -> (r: Vec<u32>)
    ensures
        same_values(bytes@, r@),
{
    let n: usize = bytes.len() / 2;
    let mut out: Vec<u32> = Vec::new();
    let mut i: usize = 0;
    while i < n
        invariant
            i <= n,
            n == bytes.len() / 2,
            out.len() == i,
            forall|j: int|
                0 <= j < i ==> same_value(
                    le_value(bytes@.subrange(2 * j, 2 * j + 2)) as u16,
                    #[trigger] out@[j],
                ),
        decreases n - i,
    {
        let wide: u32 = widen(le_u16(bytes, 2 * i));
        out.push(wide);
        i += 1;
    }
    out
}

/// Widening loses nothing: two 16-bit floats that are widened to the same pattern are the same,
/// unless they are not numbers.
pub proof fn widening_is_faithful(a: u16, b: u16, wide: u32)
    requires
        same_value(a, wide),
        same_value(b, wide),
        !(half_exponent(a) == 31 && half_fraction(a) != 0),
        !(half_exponent(b) == 31 && half_fraction(b) != 0),
    ensures
        a == b,
{
    let a_top: u32 = choose|top: u32|
        top < 10 && #[trigger] (half_fraction(a) >> top) == 1 && wide == normalized(
            wide_sign(a),
            half_fraction(a),
            top,
        );
    let b_top: u32 = choose|top: u32|
        top < 10 && #[trigger] (half_fraction(b) >> top) == 1 && wide == normalized(
            wide_sign(b),
            half_fraction(b),
            top,
        );
    assert(a == b) by (bit_vector)
        requires
            !(half_exponent(a) == 31 && half_fraction(a) != 0),
            !(half_exponent(b) == 31 && half_fraction(b) != 0),
            half_exponent(a) == 0 && half_fraction(a) == 0 ==> wide == wide_sign(a),
            half_exponent(b) == 0 && half_fraction(b) == 0 ==> wide == wide_sign(b),
            half_exponent(a) == 0 && half_fraction(a) != 0 ==> a_top < 10 && half_fraction(a)
                >> a_top == 1 && wide == normalized(wide_sign(a), half_fraction(a), a_top),
            half_exponent(b) == 0 && half_fraction(b) != 0 ==> b_top < 10 && half_fraction(b)
                >> b_top == 1 && wide == normalized(wide_sign(b), half_fraction(b), b_top),
            0 < half_exponent(a) < 31 ==> wide == wide_sign(a) | (((half_exponent(a) + 112) as u32)
                << 23) | (half_fraction(a) << 13),
            0 < half_exponent(b) < 31 ==> wide == wide_sign(b) | (((half_exponent(b) + 112) as u32)
                << 23) | (half_fraction(b) << 13),
            half_exponent(a) == 31 && half_fraction(a) == 0 ==> wide == wide_sign(a) | 0x7F80_0000,
            half_exponent(b) == 31 && half_fraction(b) == 0 ==> wide == wide_sign(b) | 0x7F80_0000,
    ;
}

} // verus!
