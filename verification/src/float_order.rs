//! How floats that are held by their bit patterns compare.

use vstd::prelude::*;

verus! {

/// A float without its sign, as a number: larger floats have larger numbers.
pub open spec fn magnitude(bits: u32) -> int {
    if bits < 0x8000_0000 {
        bits as int
    } else {
        bits - 0x8000_0000
    }
}

/// Whether a bit pattern stands for no number at all.
pub open spec fn is_nan(bits: u32) -> bool {
    magnitude(bits) > 0x7F80_0000
}

/// Where a float stands in the order of all floats; the two zeros stand together.
pub open spec fn rank(bits: u32) -> int {
    if bits < 0x8000_0000 {
        magnitude(bits)
    } else {
        -magnitude(bits)
    }
}

/// Whether one float is greater than another. What is not a number is never greater, nor is
/// anything greater than it.
pub open spec fn greater(a: u32, b: u32) -> bool {
    !is_nan(a) && !is_nan(b) && rank(a) > rank(b)
}

/// Whether two floats are equal: the two zeros are, and what is not a number equals nothing.
pub open spec fn equal(a: u32, b: u32) -> bool {
    !is_nan(a) && !is_nan(b) && rank(a) == rank(b)
}

/// A 64-bit float without its sign, as a number: larger floats have larger numbers.
pub open spec fn double_magnitude(bits: u64) -> int {
    if bits < 0x8000_0000_0000_0000 {
        bits as int
    } else {
        bits - 0x8000_0000_0000_0000
    }
}

/// Whether the bit pattern of a 64-bit float stands for no number at all.
pub open spec fn is_double_nan(bits: u64) -> bool {
    double_magnitude(bits) > 0x7FF0_0000_0000_0000
}

/// Where a 64-bit float stands in the order of all; the two zeros stand together.
pub open spec fn double_rank(bits: u64) -> int {
    if bits < 0x8000_0000_0000_0000 {
        double_magnitude(bits)
    } else {
        -double_magnitude(bits)
    }
}

/// Whether two 64-bit floats are equal: the two zeros are, and what is not a number equals
/// nothing.
pub open spec fn equal_doubles(a: u64, b: u64) -> bool {
    !is_double_nan(a) && !is_double_nan(b) && double_rank(a) == double_rank(b)
}

/// Whether one float is greater than another.
pub fn is_greater(a: u32, b: u32) -> (r: bool)
    ensures
        r == greater(a, b),
{
    let a_size: u32 = if a < 0x8000_0000 {
        a
    } else {
        a - 0x8000_0000
    };
    let b_size: u32 = if b < 0x8000_0000 {
        b
    } else {
        b - 0x8000_0000
    };
    if a_size > 0x7F80_0000 || b_size > 0x7F80_0000 {
        false
    } else if a < 0x8000_0000 {
        if b < 0x8000_0000 {
            a_size > b_size
        } else {
            a_size > 0 || b_size > 0
        }
    } else {
        b >= 0x8000_0000 && a_size < b_size
    }
}

/// Whether two floats are equal.
pub fn is_equal(a: u32, b: u32) -> (r: bool)
    ensures
        r == equal(a, b),
{
    if a == b {
        a <= 0x7F80_0000 || (a >= 0x8000_0000 && a <= 0xFF80_0000)
    } else {
        (a == 0 || a == 0x8000_0000) && (b == 0 || b == 0x8000_0000)
    }
}

/// Whether two 64-bit floats are equal.
pub fn are_equal_doubles(a: u64, b: u64) -> (r: bool)
    ensures
        r == equal_doubles(a, b),
{
    if a == b {
        a <= 0x7FF0_0000_0000_0000 || (a >= 0x8000_0000_0000_0000 && a <= 0xFFF0_0000_0000_0000)
    } else {
        (a == 0 || a == 0x8000_0000_0000_0000) && (b == 0 || b == 0x8000_0000_0000_0000)
    }
}

} // verus!
