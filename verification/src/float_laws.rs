//! What comparing and widening mean for the numbers that bit patterns stand for.

use crate::float_order::{are_equal_doubles, is_equal, is_greater, is_nan, rank};
use crate::gguf::floats::{
    half_exponent, half_fraction, normalized, read_floats, read_half_floats, same_value, wide_sign,
    widen,
};
use crate::gguf::bytes::{
    byte_ranges, le_bytes, le_bytes_len, le_round_trip, le_u16, le_u32, le_u64, le_value, push_le,
};
use vstd::arithmetic::power2::{
    lemma2_to64, lemma_pow2_adds, lemma_pow2_pos, lemma_pow2_strictly_increases, lemma_pow2_unfold,
    pow2,
};
use vstd::prelude::*;

verus! {

/// The exponent field of a 32-bit float.
pub open spec fn exponent_field(bits: u32) -> nat {
    (bits as nat / 0x80_0000) % 256
}

/// The fraction field of a 32-bit float.
pub open spec fn fraction_field(bits: u32) -> nat {
    bits as nat % 0x80_0000
}

/// Whether a 32-bit float is a number, finite or not.
pub open spec fn is_number(bits: u32) -> bool {
    exponent_field(bits) < 255 || fraction_field(bits) == 0
}

/// The size of a 32-bit float, in units of the smallest one above zero. Infinity counts as the
/// number that would come behind the largest.
pub open spec fn units(bits: u32) -> nat {
    if exponent_field(bits) == 0 {
        fraction_field(bits)
    } else {
        (0x80_0000 + fraction_field(bits)) * pow2((exponent_field(bits) - 1) as nat)
    }
}

/// The number that a 32-bit float stands for, in units of the smallest one above zero.
pub open spec fn number(bits: u32) -> int {
    if bits as nat / 0x8000_0000 == 1 {
        -units(bits)
    } else {
        units(bits) as int
    }
}

/// Without their sign bits, floats are ordered as their bit patterns are.
proof fn units_grow(x: u32, y: u32)
    requires
        x < y <= 0x7F80_0000,
    ensures
        units(x) < units(y),
{
    let ex: nat = exponent_field(x);
    let ey: nat = exponent_field(y);
    let fx: nat = fraction_field(x);
    let fy: nat = fraction_field(y);
    assert(x == ex * 0x80_0000 + fx);
    assert(y == ey * 0x80_0000 + fy);
    assert(ex <= ey);
    assert(ex == ey ==> fx < fy);
    if ex == ey {
        if ex > 0 {
            lemma_pow2_pos((ex - 1) as nat);
            let p: nat = pow2((ex - 1) as nat);
            assert((0x80_0000 + fx) * p < (0x80_0000 + fy) * p) by (nonlinear_arith)
                requires
                    fx < fy,
                    p > 0,
            ;
        }
    } else {
        let q: nat = pow2((ey - 1) as nat);
        lemma_pow2_pos((ey - 1) as nat);
        assert((0x80_0000 + fy) * q >= 0x80_0000 * q) by (nonlinear_arith);
        if ex == 0 {
            assert(0x80_0000 * q >= 0x80_0000) by (nonlinear_arith)
                requires
                    q >= 1,
            ;
        } else {
            let p: nat = pow2((ex - 1) as nat);
            lemma_pow2_pos((ex - 1) as nat);
            lemma_pow2_unfold(ex);
            if ex < ey - 1 {
                lemma_pow2_strictly_increases(ex, (ey - 1) as nat);
            }
            assert(2 * p <= q);
            assert((0x80_0000 + fx) * p < 0x80_0000 * q) by (nonlinear_arith)
                requires
                    fx < 0x80_0000,
                    2 * p <= q,
                    p > 0,
            ;
        }
    }
}

/// The sign and the size of a float.
proof fn sign_and_size(x: u32) -> (size: u32)
    ensures
        size < 0x8000_0000,
        x == size || x == 0x8000_0000 + size,
        units(x) == units(size),
        is_number(x) <==> size <= 0x7F80_0000,
        number(x) == (if x == size {
            units(size) as int
        } else {
            -units(size)
        }),
{
    let size: u32 = (x as nat % 0x8000_0000) as u32;
    assert(exponent_field(x) == exponent_field(size));
    assert(fraction_field(x) == fraction_field(size));
    size
}

proof fn sizes_compare(a: u32, b: u32)
    requires
        a <= 0x7F80_0000,
        b <= 0x7F80_0000,
    ensures
        a < b <==> units(a) < units(b),
        a == b <==> units(a) == units(b),
        units(a) == 0 <==> a == 0,
{
    if a < b {
        units_grow(a, b);
    }
    if b < a {
        units_grow(b, a);
    }
    assert(units(0) == 0);
    if a > 0 {
        units_grow(0, a);
    }
}

/// The order of floats is that of their numbers.
pub(crate) proof fn numbers_are_ranked(a: u32, b: u32)
    ensures
        is_number(a) <==> !is_nan(a),
        is_number(a) && is_number(b) ==> (number(a) < number(b) <==> rank(a) < rank(b)),
        is_number(a) && is_number(b) ==> (number(a) <= number(b) <==> rank(a) <= rank(b)),
{
    let x: u32 = sign_and_size(a);
    let y: u32 = sign_and_size(b);
    if x <= 0x7F80_0000 && y <= 0x7F80_0000 {
        sizes_compare(x, y);
        sizes_compare(y, x);
    }
}

/// A float is greater than another, or equal to it, exactly where both are numbers and the one
/// number is greater than the other, or the same.
pub proof fn floats_compare_as_numbers(a: u32, b: u32, is_more: bool, is_same: bool)
    requires
        call_ensures(is_greater, (a, b), is_more),
        call_ensures(is_equal, (a, b), is_same),
    ensures
        is_more <==> is_number(a) && is_number(b) && number(a) > number(b),
        is_same <==> is_number(a) && is_number(b) && number(a) == number(b),
{
    let x: u32 = sign_and_size(a);
    let y: u32 = sign_and_size(b);
    if x <= 0x7F80_0000 && y <= 0x7F80_0000 {
        sizes_compare(x, y);
        sizes_compare(y, x);
    }
}

/// Whether a 64-bit float is a number, finite or not: its exponent has a zero bit, or its fraction
/// has no bits.
pub open spec fn is_double_number(bits: u64) -> bool {
    (bits as nat / 0x10_0000_0000_0000) % 2048 < 2047 || bits as nat % 0x10_0000_0000_0000 == 0
}

/// Whether a 64-bit float is a zero, of either sign.
pub open spec fn is_double_zero(bits: u64) -> bool {
    bits as nat % 0x8000_0000_0000_0000 == 0
}

/// 64-bit floats are equal exactly where both are numbers and have the same bits, or both are
/// zeros.
pub proof fn doubles_are_equal_by_bits(a: u64, b: u64, r: bool)
    requires
        call_ensures(are_equal_doubles, (a, b), r),
    ensures
        r <==> is_double_number(a) && is_double_number(b) && (a == b || is_double_zero(a)
            && is_double_zero(b)),
{
}

/// The size of a finite 16-bit float, in units of the smallest one above zero.
pub open spec fn half_units(half: u16) -> nat {
    let exponent = (half as nat / 1024) % 32;
    let fraction = half as nat % 1024;
    if exponent == 0 {
        fraction
    } else {
        (1024 + fraction) * pow2((exponent - 1) as nat)
    }
}

proof fn half_fields(half: u16)
    ensures
        half_exponent(half) == (half as nat / 1024) % 32,
        half_fraction(half) == half as nat % 1024,
        wide_sign(half) == (if half >= 0x8000 {
            0x8000_0000u32
        } else {
            0
        }),
{
    assert(half_exponent(half) == (half / 1024) % 32 && half_fraction(half) == half % 1024
        && wide_sign(half) == (if half >= 0x8000 {
        0x8000_0000u32
    } else {
        0
    })) by (bit_vector);
}

proof fn shifted_fraction(fraction: u32, top: u32)
    requires
        fraction < 1024,
        top < 10,
        fraction >> top == 1,
    ensures
        fraction * pow2((23 - top) as nat) == 0x80_0000 + ((fraction << ((23 - top) as u32))
            & 0x7F_FFFF),
{
    lemma2_to64();
    assert(top == 0 || top == 1 || top == 2 || top == 3 || top == 4 || top == 5 || top == 6 || top
        == 7 || top == 8 || top == 9);
    let low: u32 = (fraction << ((23 - top) as u32)) & 0x7F_FFFF;
    assert((top == 0 ==> fraction * 0x80_0000 == 0x80_0000 + low) && (top == 1 ==> fraction
        * 0x40_0000 == 0x80_0000 + low) && (top == 2 ==> fraction * 0x20_0000 == 0x80_0000 + low)
        && (top == 3 ==> fraction * 0x10_0000 == 0x80_0000 + low) && (top == 4 ==> fraction
        * 0x8_0000 == 0x80_0000 + low) && (top == 5 ==> fraction * 0x4_0000 == 0x80_0000 + low) && (
    top == 6 ==> fraction * 0x2_0000 == 0x80_0000 + low) && (top == 7 ==> fraction * 0x1_0000
        == 0x80_0000 + low) && (top == 8 ==> fraction * 0x8000 == 0x80_0000 + low) && (top == 9
        ==> fraction * 0x4000 == 0x80_0000 + low)) by (bit_vector)
        requires
            fraction < 1024,
            top < 10,
            fraction >> top == 1,
            low == (fraction << ((23 - top) as u32)) & 0x7F_FFFF,
    ;
}

/// The fields of a float that is put together from them.
proof fn assembled(sign: u32, exponent: u32, fraction: u32)
    requires
        sign == 0 || sign == 0x8000_0000,
        exponent < 256,
        fraction < 0x80_0000,
    ensures
        ({
            let wide = sign | (exponent << 23) | fraction;
            &&& exponent_field(wide) == exponent
            &&& fraction_field(wide) == fraction
            &&& wide as nat / 0x8000_0000 == sign as nat / 0x8000_0000
        }),
{
    assert(((sign | (exponent << 23) | fraction) / 0x80_0000) % 256 == exponent && (sign | (exponent
        << 23) | fraction) % 0x80_0000 == fraction && (sign | (exponent << 23) | fraction)
        / 0x8000_0000 == sign / 0x8000_0000) by (bit_vector)
        requires
            sign == 0 || sign == 0x8000_0000,
            exponent < 256,
            fraction < 0x80_0000,
    ;
}

pub(crate) proof fn wide_has_value(half: u16, wide: u32)
    requires
        same_value(half, wide),
    ensures
        wide as nat / 0x8000_0000 == half as nat / 0x8000,
        (half as nat / 1024) % 32 < 31 ==> exponent_field(wide) < 255 && units(wide)
            == half_units(half) * pow2(125),
        (half as nat / 1024) % 32 == 31 ==> exponent_field(wide) == 255 && (fraction_field(wide)
            == 0 <==> half as nat % 1024 == 0),
{
    half_fields(half);
    let sign: u32 = wide_sign(half);
    let exponent: u32 = half_exponent(half);
    let fraction: u32 = half_fraction(half);
    if exponent == 0 && fraction == 0 {
        assert(sign == 0 || sign == 0x8000_0000);
        assert(0 * pow2(125) == 0) by (nonlinear_arith);
    } else if exponent == 0 {
        let top: u32 = choose|top: u32|
            top < 10 && #[trigger] (fraction >> top) == 1 && wide == normalized(
                sign,
                fraction,
                top,
            );
        let low: u32 = (fraction << ((23 - top) as u32)) & 0x7F_FFFF;
        assert((fraction << ((23 - top) as u32)) & 0x7F_FFFF < 0x80_0000) by (bit_vector);
        assembled(sign, (103 + top) as u32, low);
        shifted_fraction(fraction, top);
        let up: nat = (23 - top) as nat;
        let e: nat = (102 + top) as nat;
        lemma_pow2_adds(up, e);
        assert(fraction * pow2(up) * pow2(e) == fraction * (pow2(up) * pow2(e)))
            by (nonlinear_arith);
    } else if exponent < 31 {
        assert(fraction << 13 == fraction * 8192 && fraction << 13 < 0x80_0000) by (bit_vector)
            requires
                fraction < 1024,
        ;
        assembled(sign, (exponent + 112) as u32, fraction << 13);
        lemma2_to64();
        let e: nat = (exponent - 1) as nat;
        lemma_pow2_adds(e, 125);
        lemma_pow2_adds(13, (exponent + 111) as nat);
        let x: nat = (1024 + fraction) as nat;
        assert((0x80_0000 + fraction * 8192) == x * 8192);
        assert((x * 8192) * pow2((exponent + 111) as nat) == x * (8192 * pow2(
            (exponent + 111) as nat,
        ))) by (nonlinear_arith);
        assert((x * pow2(e)) * pow2(125) == x * (pow2(e) * pow2(125))) by (nonlinear_arith);
    } else if fraction == 0 {
        assembled(sign, 255, 0);
        assert(sign | 0x7F80_0000 == sign | (255u32 << 23) | 0) by (bit_vector);
    } else {
        assert(fraction << 13 < 0x40_0000 * 2 && (0x40_0000 | (fraction << 13)) < 0x80_0000 && (
        0x40_0000 | (fraction << 13)) != 0 && sign | 0x7FC0_0000 | (fraction << 13) == sign | (
        255u32 << 23) | (0x40_0000 | (fraction << 13))) by (bit_vector)
            requires
                fraction < 1024,
        ;
        assembled(sign, 255, 0x40_0000 | (fraction << 13));
    }
}

/// A widened 16-bit float is the same number, as a 32-bit float, whose units are 2 to the 125th
/// times smaller. Infinities stay infinite, what is not a number stays so, and signs are kept.
pub proof fn widening_keeps_the_number(half: u16, r: u32)
    requires
        call_ensures(widen, (half,), r),
    ensures
        r as nat / 0x8000_0000 == half as nat / 0x8000,
        (half as nat / 1024) % 32 < 31 ==> exponent_field(r) < 255 && units(r) == half_units(half)
            * pow2(125),
        (half as nat / 1024) % 32 == 31 ==> exponent_field(r) == 255 && (fraction_field(r) == 0
            <==> half as nat % 1024 == 0),
{
    wide_has_value(half, r);
}

/// The number that two bytes spell, the less significant one first.
pub open spec fn two_bytes(bytes: Seq<u8>, at: int) -> nat {
    bytes[at] as nat + 0x100 * bytes[at + 1] as nat
}

/// The number that four bytes spell, the least significant one first.
pub open spec fn four_bytes(bytes: Seq<u8>, at: int) -> nat {
    two_bytes(bytes, at) + 0x1_0000 * two_bytes(bytes, at + 2)
}

/// The number that eight bytes spell, the least significant one first.
pub open spec fn eight_bytes(bytes: Seq<u8>, at: int) -> nat {
    four_bytes(bytes, at) + 0x1_0000_0000 * four_bytes(bytes, at + 4)
}

pub(crate) proof fn bytes_spell(bytes: Seq<u8>, at: int)
    requires
        0 <= at,
    ensures
        at + 1 <= bytes.len() ==> le_value(bytes.subrange(at, at + 1)) == bytes[at],
        at + 2 <= bytes.len() ==> le_value(bytes.subrange(at, at + 2)) == two_bytes(bytes, at),
        at + 4 <= bytes.len() ==> le_value(bytes.subrange(at, at + 4)) == four_bytes(bytes, at),
        at + 8 <= bytes.len() ==> le_value(bytes.subrange(at, at + 8)) == eight_bytes(bytes, at),
{
    if at + 1 <= bytes.len() {
        one_more_byte(bytes, at, at + 1);
    }
    if at + 2 <= bytes.len() {
        one_more_byte(bytes, at, at + 2);
        one_more_byte(bytes, at + 1, at + 2);
    }
    if at + 4 <= bytes.len() {
        one_more_byte(bytes, at, at + 4);
        one_more_byte(bytes, at + 1, at + 4);
        one_more_byte(bytes, at + 2, at + 4);
        one_more_byte(bytes, at + 3, at + 4);
    }
    if at + 8 <= bytes.len() {
        one_more_byte(bytes, at, at + 8);
        one_more_byte(bytes, at + 1, at + 8);
        one_more_byte(bytes, at + 2, at + 8);
        one_more_byte(bytes, at + 3, at + 8);
        one_more_byte(bytes, at + 4, at + 8);
        one_more_byte(bytes, at + 5, at + 8);
        one_more_byte(bytes, at + 6, at + 8);
        one_more_byte(bytes, at + 7, at + 8);
    }
}

proof fn one_more_byte(bytes: Seq<u8>, from: int, to: int)
    requires
        0 <= from < to <= bytes.len(),
    ensures
        le_value(bytes.subrange(from, to)) == bytes[from] + 256 * le_value(
            bytes.subrange(from + 1, to),
        ),
        from + 1 == to ==> le_value(bytes.subrange(from + 1, to)) == 0,
{
    assert(bytes.subrange(from, to).drop_first() =~= bytes.subrange(from + 1, to));
}

/// Read floats are those that each four bytes spell.
pub proof fn floats_are_read_from_four_bytes(bytes: &[u8], r: Vec<u32>, i: int)
    requires
        call_ensures(read_floats, (bytes,), r),
        0 <= i,
        4 * i + 4 <= bytes@.len(),
    ensures
        4 * r@.len() <= bytes@.len() < 4 * r@.len() + 4,
        r@[i] == four_bytes(bytes@, 4 * i),
{
    bytes_spell(bytes@, 4 * i);
}

/// Read 16-bit floats are widened from those that each two bytes spell.
pub proof fn half_floats_are_read_from_two_bytes(bytes: &[u8], r: Vec<u32>, i: int)
    requires
        call_ensures(read_half_floats, (bytes,), r),
        0 <= i,
        2 * i + 2 <= bytes@.len(),
    ensures
        2 * r@.len() <= bytes@.len() < 2 * r@.len() + 2,
        ({
            let half = two_bytes(bytes@, 2 * i) as u16;
            &&& r@[i] as nat / 0x8000_0000 == half as nat / 0x8000
            &&& (half as nat / 1024) % 32 < 31 ==> exponent_field(r@[i]) < 255 && units(r@[i])
                == half_units(half) * pow2(125)
            &&& (half as nat / 1024) % 32 == 31 ==> exponent_field(r@[i]) == 255 && (fraction_field(
                r@[i],
            ) == 0 <==> half as nat % 1024 == 0)
        }),
{
    bytes_spell(bytes@, 2 * i);
    wide_has_value(two_bytes(bytes@, 2 * i) as u16, r@[i]);
}

/// Numbers are read from two, four and eight bytes, the least significant one first.
pub proof fn numbers_are_read_from_bytes(data: &[u8], pos: usize, a: u16, b: u32, c: u64)
    requires
        pos + 8 <= data@.len(),
        call_ensures(le_u16, (data, pos), a),
        call_ensures(le_u32, (data, pos), b),
        call_ensures(le_u64, (data, pos), c),
    ensures
        a == two_bytes(data@, pos as int),
        b == four_bytes(data@, pos as int),
        c == eight_bytes(data@, pos as int),
{
    bytes_spell(data@, pos as int);
}

/// A number is written behind the bytes that are there, in so many bytes that spell it.
pub proof fn numbers_are_written_to_bytes(buf: &mut Vec<u8>, value: u64, n: usize)
    requires
        call_ensures(push_le, (buf, value, n), ()),
    ensures
        final(buf)@.len() == old(buf)@.len() + n,
        final(buf)@.take(old(buf)@.len() as int) == old(buf)@,
        n == 1 && value < 0x100 ==> final(buf)@[old(buf)@.len() as int] == value,
        n == 4 && value < 0x1_0000_0000 ==> four_bytes(final(buf)@, old(buf)@.len() as int)
            == value,
        n == 8 ==> eight_bytes(final(buf)@, old(buf)@.len() as int) == value,
{
    let before: Seq<u8> = old(buf)@;
    let after: Seq<u8> = final(buf)@;
    let at: int = before.len() as int;
    let written: Seq<u8> = le_bytes(value as nat, n as nat);
    le_bytes_len(value as nat, n as nat);
    assert(after.take(at) =~= before);
    assert(after.subrange(at, at + n) =~= written);
    byte_ranges();
    bytes_spell(after, at);
    if n == 1 && value < 0x100 {
        le_round_trip(value as nat, 1);
    }
    if n == 4 && value < 0x1_0000_0000 {
        le_round_trip(value as nat, 4);
    }
    if n == 8 {
        le_round_trip(value as nat, 8);
    }
}

} // verus!
