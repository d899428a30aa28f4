//! Laws the reader obeys, stated over the model and proved once for all
//! inputs: the encode/decode round trips in both directions and for both
//! signedness conventions, the independence of bounds checking from the
//! byte-order mode, and the boundary behavior of the bounds check itself.

use vstd::prelude::*;

use crate::endian::Endian;
use crate::model::be_bytes_of;
use crate::model::be_value;
use crate::model::bytes_of_uint;
use crate::model::le_bytes_of;
use crate::model::le_value;
use crate::model::pow256;
use crate::model::sint_from;
use crate::model::uint_of;
use crate::reader::BinaryReader;
use vstd::arithmetic::div_mod::lemma_fundamental_div_mod;
use vstd::arithmetic::div_mod::lemma_fundamental_div_mod_converse_div;
use vstd::arithmetic::div_mod::lemma_fundamental_div_mod_converse_mod;
use vstd::arithmetic::div_mod::lemma_mod_bound;
use vstd::arithmetic::div_mod::lemma_multiply_divide_lt;
use vstd::arithmetic::mul::lemma_mul_is_commutative;

verus! {

proof fn lemma_le_bytes_of_len(v: nat, n: nat)
    ensures
        le_bytes_of(v, n).len() == n,
    decreases n,
{
    if n > 0 {
        lemma_le_bytes_of_len(v / 256, (n - 1) as nat);
    }
}

proof fn lemma_be_bytes_of_len(v: nat, n: nat)
    ensures
        be_bytes_of(v, n).len() == n,
    decreases n,
{
    if n > 0 {
        lemma_be_bytes_of_len(v / 256, (n - 1) as nat);
    }
}

proof fn lemma_le_round_trip(v: nat, n: nat)
    requires
        v < pow256(n),
    ensures
        le_value(le_bytes_of(v, n)) == v,
    decreases n,
{
    if n > 0 {
        let s = le_bytes_of(v, n);
        let t = le_bytes_of(v / 256, (n - 1) as nat);
        assert(s == seq![(v % 256) as u8] + t);
        assert(s.skip(1) =~= t);
        assert(256 * pow256((n - 1) as nat) == pow256(n));
        lemma_multiply_divide_lt(v as int, 256, pow256((n - 1) as nat) as int);
        lemma_le_round_trip(v / 256, (n - 1) as nat);
        lemma_mod_bound(v as int, 256);
        lemma_fundamental_div_mod(v as int, 256);
        assert(le_value(s) == s[0] as nat + 256 * le_value(s.skip(1)));
    }
}

proof fn lemma_be_round_trip(v: nat, n: nat)
    requires
        v < pow256(n),
    ensures
        be_value(be_bytes_of(v, n)) == v,
    decreases n,
{
    if n > 0 {
        let s = be_bytes_of(v, n);
        let t = be_bytes_of(v / 256, (n - 1) as nat);
        lemma_be_bytes_of_len(v / 256, (n - 1) as nat);
        assert(s == t + seq![(v % 256) as u8]);
        assert(s.take(s.len() - 1) =~= t);
        assert(s[s.len() - 1] == (v % 256) as u8);
        assert(256 * pow256((n - 1) as nat) == pow256(n));
        lemma_multiply_divide_lt(v as int, 256, pow256((n - 1) as nat) as int);
        lemma_be_round_trip(v / 256, (n - 1) as nat);
        lemma_mod_bound(v as int, 256);
        lemma_fundamental_div_mod(v as int, 256);
        assert(be_value(s) == 256 * be_value(s.take(s.len() - 1)) + s[s.len() - 1] as nat);
    }
}

proof fn lemma_le_bytes_inverse(s: Seq<u8>)
    ensures
        le_bytes_of(le_value(s), s.len()) == s,
    decreases s.len(),
{
    if s.len() == 0 {
        assert(le_bytes_of(le_value(s), s.len()) =~= s);
    } else {
        let v = le_value(s);
        let q = le_value(s.skip(1));
        assert(v == s[0] as nat + 256 * q);
        lemma_mul_is_commutative(256, q as int);
        lemma_fundamental_div_mod_converse_mod(v as int, 256, q as int, s[0] as int);
        lemma_fundamental_div_mod_converse_div(v as int, 256, q as int, s[0] as int);
        lemma_le_bytes_inverse(s.skip(1));
        assert(le_bytes_of(v, s.len()) =~= s);
    }
}

proof fn lemma_be_bytes_inverse(s: Seq<u8>)
    ensures
        be_bytes_of(be_value(s), s.len()) == s,
    decreases s.len(),
{
    if s.len() == 0 {
        assert(be_bytes_of(be_value(s), s.len()) =~= s);
    } else {
        let v = be_value(s);
        let t = s.take(s.len() - 1);
        let q = be_value(t);
        assert(v == 256 * q + s[s.len() - 1] as nat);
        lemma_mul_is_commutative(256, q as int);
        lemma_fundamental_div_mod_converse_mod(v as int, 256, q as int, s[s.len() - 1] as int);
        lemma_fundamental_div_mod_converse_div(v as int, 256, q as int, s[s.len() - 1] as int);
        lemma_be_bytes_inverse(t);
        assert(be_bytes_of(v, s.len()) =~= s);
    }
}

/// Round trip, encode then decode: a value that fits in `n` bytes is
/// recovered exactly when its `n`-byte encoding under a byte order is
/// decoded under the same order.
pub proof fn lemma_uint_round_trip(big: bool, v: nat, n: nat)
    requires
        v < pow256(n),
    ensures
        bytes_of_uint(big, v, n).len() == n,
        uint_of(big, bytes_of_uint(big, v, n)) == v,
{
    lemma_le_bytes_of_len(v, n);
    lemma_be_bytes_of_len(v, n);
    lemma_le_round_trip(v, n);
    lemma_be_round_trip(v, n);
}

/// Round trip, decode then encode: re-encoding a decoded byte sequence
/// under the same byte order reproduces it byte for byte.
pub proof fn lemma_bytes_round_trip(big: bool, s: Seq<u8>)
    ensures
        bytes_of_uint(big, uint_of(big, s), s.len()) == s,
{
    lemma_le_bytes_inverse(s);
    lemma_be_bytes_inverse(s);
}

/// The two's-complement representative a signed value is stored as in an
/// `n`-byte field.
pub open spec fn uint_rep(v: int, n: nat) -> nat
    recommends
        -((pow256(n) / 2) as int) <= v < pow256(n) / 2,
{
    if v >= 0 {
        v as nat
    } else {
        (v + pow256(n)) as nat
    }
}

/// Round trip for signed values: a value in the signed range of `n` bytes,
/// stored through its two's-complement representative and decoded under
/// the same byte order, reads back as itself.
pub proof fn lemma_sint_round_trip(big: bool, v: int, n: nat)
    requires
        n >= 1,
        -((pow256(n) / 2) as int) <= v < pow256(n) / 2,
    ensures
        sint_from(uint_of(big, bytes_of_uint(big, uint_rep(v, n), n)), n) == v,
{
    lemma_fundamental_div_mod(pow256(n) as int, 2);
    lemma_mod_bound(pow256(n) as int, 2);
    lemma_uint_round_trip(big, uint_rep(v, n), n);
}

/// Switching the byte order changes only the decoded value, never the
/// bytes consumed: whether a fixed-width read is in bounds, and which
/// window of the buffer it consumes, do not depend on the endianness mode.
pub proof fn lemma_endian_switch(a: BinaryReader, b: BinaryReader, n: nat)
    requires
        a.data@ == b.data@,
        a.pos == b.pos,
        a.length == b.length,
    ensures
        a.can_read(n) == b.can_read(n),
        a.window(n) == b.window(n),
{
}

/// Network byte order is big-endian: over the same buffer and position,
/// the two modes decode every width to the same values.
pub proof fn lemma_network_decodes_as_big(a: BinaryReader, b: BinaryReader, n: nat)
    requires
        a.endian == Endian::Network,
        b.endian == Endian::Big,
        a.data@ == b.data@,
        a.pos == b.pos,
        a.length == b.length,
    ensures
        a.big() == b.big(),
        a.uint_at(n) == b.uint_at(n),
        a.sint_at(n) == b.sint_at(n),
{
}

/// A single byte denotes the same value under every byte-order mode.
pub proof fn lemma_single_byte_mode_free(a: BinaryReader, b: BinaryReader)
    requires
        a.wf(),
        b.wf(),
        a.data@ == b.data@,
        a.pos == b.pos,
        a.length == b.length,
        a.can_read(1),
    ensures
        a.uint_at(1) == b.uint_at(1),
{
    crate::model::lemma_uint_of_single(a.big(), a.window(1));
    crate::model::lemma_uint_of_single(b.big(), b.window(1));
}

/// Boundary: at the last byte of the buffer a one-byte read is in bounds
/// and a two-byte read is not.
pub proof fn lemma_boundary(r: BinaryReader)
    requires
        r.length >= 1,
        r.pos == r.length - 1,
    ensures
        r.can_read(1),
        !r.can_read(2),
{
}

/// A zero-byte read is in bounds whenever the position is within the
/// buffer, and consumes nothing.
pub proof fn lemma_zero_read(r: BinaryReader)
    requires
        r.wf(),
        r.pos <= r.length,
    ensures
        r.can_read(0),
        r.window(0) == Seq::<u8>::empty(),
{
    assert(r.window(0) =~= Seq::<u8>::empty());
}

/// The round trip as the reader sees it: over a buffer that is the
/// `n`-byte encoding of `v` under the reader's active order, a reader at
/// the start finds exactly `v` as its next `n`-byte unsigned value.
pub proof fn lemma_reader_round_trip(r: BinaryReader, v: nat, n: nat)
    requires
        r.wf(),
        r.pos == 0,
        v < pow256(n),
        r.data@ == bytes_of_uint(r.big(), v, n),
    ensures
        r.can_read(n),
        r.uint_at(n) == v,
{
    lemma_uint_round_trip(r.big(), v, n);
    assert(r.window(n) =~= r.data@);
}

} // verus!
