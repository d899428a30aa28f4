//! Verified sign interpretation: reading an unsigned value stored in a
//! fixed number of bytes as a two's-complement signed one, including the
//! 24- and 48-bit widths, which sign-extend into the next wider machine
//! type.

use vstd::prelude::*;

use crate::model::lemma_pow256_values;
use crate::model::sint_from;

verus! {

/// The two's-complement reading of a one-byte value.
pub(crate) fn signed_of_u8(u: u8) -> (r: i8)
    ensures
        r as int == sint_from(u as nat, 1),
{
    proof {
        lemma_pow256_values();
    }
    if u < 0x80 {
        u as i8
    } else {
        -((0xff - u) as i8) - 1
    }
}

/// The two's-complement reading of a two-byte value.
pub(crate) fn signed_of_u16(u: u16) -> (r: i16)
    ensures
        r as int == sint_from(u as nat, 2),
{
    proof {
        lemma_pow256_values();
    }
    if u < 0x8000 {
        u as i16
    } else {
        -((0xffff - u) as i16) - 1
    }
}

/// The two's-complement reading of a three-byte value: bit 23 is the sign.
pub(crate) fn signed_of_u24(u: u32) -> (r: i32)
    requires
        u < 0x100_0000,
    ensures
        r as int == sint_from(u as nat, 3),
{
    proof {
        lemma_pow256_values();
    }
    if u < 0x80_0000 {
        u as i32
    } else {
        -((0xff_ffff - u) as i32) - 1
    }
}

/// The two's-complement reading of a four-byte value.
pub(crate) fn signed_of_u32(u: u32) -> (r: i32)
    ensures
        r as int == sint_from(u as nat, 4),
{
    proof {
        lemma_pow256_values();
    }
    if u < 0x8000_0000 {
        u as i32
    } else {
        -((0xffff_ffff - u) as i32) - 1
    }
}

/// The two's-complement reading of a six-byte value: bit 47 is the sign.
pub(crate) fn signed_of_u48(u: u64) -> (r: i64)
    requires
        u < 0x1_0000_0000_0000,
    ensures
        r as int == sint_from(u as nat, 6),
{
    proof {
        lemma_pow256_values();
    }
    if u < 0x8000_0000_0000 {
        u as i64
    } else {
        -((0xffff_ffff_ffff - u) as i64) - 1
    }
}

/// The two's-complement reading of an eight-byte value.
pub(crate) fn signed_of_u64(u: u64) -> (r: i64)
    ensures
        r as int == sint_from(u as nat, 8),
{
    proof {
        lemma_pow256_values();
    }
    if u < 0x8000_0000_0000_0000 {
        u as i64
    } else {
        -((0xffff_ffff_ffff_ffff - u) as i64) - 1
    }
}

/// The two's-complement reading of a sixteen-byte value.
pub(crate) fn signed_of_u128(u: u128) -> (r: i128)
    ensures
        r as int == sint_from(u as nat, 16),
{
    proof {
        lemma_pow256_values();
    }
    if u < 0x8000_0000_0000_0000_0000_0000_0000_0000 {
        u as i128
    } else {
        -((0xffff_ffff_ffff_ffff_ffff_ffff_ffff_ffff - u) as i128) - 1
    }
}

} // verus!
