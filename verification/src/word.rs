//! Arithmetic on 64-bit machine words: wrap-around sums, two's-complement
//! order and sign extension.

use vstd::prelude::*;

verus! {

/// The word that stands for the integer `x`: `x` modulo 2^64.
pub open spec fn wrap64(x: int) -> u64 {
    (x % 0x1_0000_0000_0000_0000) as u64
}

/// The integer that the word `x` stands for in two's complement.
pub open spec fn signed64(x: u64) -> int {
    if x < 0x8000_0000_0000_0000 {
        x as int
    } else {
        x - 0x1_0000_0000_0000_0000
    }
}

/// The word whose `n` lowest bits are set and no others.
pub open spec fn low_ones(n: u64) -> u64 {
    if n >= 64 {
        u64::MAX
    } else {
        ((1u64 << n) - 1) as u64
    }
}

/// The `width` lowest bits of `v` widened to 64 bits by repeating the highest
/// of them. `width` is between 1 and 64.
pub open spec fn sext(v: u64, width: u64) -> u64 {
    if (v >> ((width - 1) as u64)) & 1 == 1 {
        v | !low_ones(width)
    } else {
        v & low_ones(width)
    }
}

/// The sum of two words, modulo 2^64.
pub fn add64(a: u64, b: u64) -> (sum: u64)
    ensures
        sum == wrap64(a + b),
{
    a.wrapping_add(b)
}

/// The difference of two words, modulo 2^64.
pub fn sub64(a: u64, b: u64) -> (difference: u64)
    ensures
        difference == wrap64(a - b),
{
    a.wrapping_sub(b)
}

/// Whether `a` is below `b` when both are read in two's complement.
pub fn signed_less(a: u64, b: u64) -> (less: bool)
    ensures
        less == (signed64(a) < signed64(b)),
{
    assert(a as i64 == signed64(a) && b as i64 == signed64(b)) by (bit_vector);
    (a as i64) < (b as i64)
}

/// Sign extension of the lowest byte.
pub fn sext8(v: u64) -> (wide: u64)
    ensures
        wide == sext(v, 8),
{
    assert(v as i8 as i64 as u64 == sext(v, 8)) by (bit_vector);
    v as i8 as i64 as u64
}

/// Sign extension of the two lowest bytes.
pub fn sext16(v: u64) -> (wide: u64)
    ensures
        wide == sext(v, 16),
{
    assert(v as i16 as i64 as u64 == sext(v, 16)) by (bit_vector);
    v as i16 as i64 as u64
}

/// Sign extension of the lower half.
pub fn sext32(v: u64) -> (wide: u64)
    ensures
        wide == sext(v, 32),
{
    assert(v as i32 as i64 as u64 == sext(v, 32)) by (bit_vector);
    v as i32 as i64 as u64
}

} // verus!
