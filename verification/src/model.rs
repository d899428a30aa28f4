//! The mathematical model of byte-order decoding: the value a byte
//! sequence denotes under each byte order, the signed (two's-complement)
//! reading of such a value, the inverse encodings, and the first-NUL scan
//! that delimits null-terminated strings.

use vstd::prelude::*;

verus! {

/// The value of a byte sequence read least-significant byte first.
pub open spec fn le_value(s: Seq<u8>) -> nat
    decreases s.len(),
{
    if s.len() == 0 {
        0
    } else {
        s[0] as nat + 256 * le_value(s.skip(1))
    }
}

/// The value of a byte sequence read most-significant byte first.
pub open spec fn be_value(s: Seq<u8>) -> nat
    decreases s.len(),
{
    if s.len() == 0 {
        0
    } else {
        256 * be_value(s.take(s.len() - 1)) + s[s.len() - 1] as nat
    }
}

/// The value of a byte sequence under the given byte order.
pub open spec fn uint_of(big: bool, s: Seq<u8>) -> nat {
    if big {
        be_value(s)
    } else {
        le_value(s)
    }
}

/// 256 to the power `n`: the number of values an `n`-byte field can hold.
pub open spec fn pow256(n: nat) -> nat
    decreases n,
{
    if n == 0 {
        1
    } else {
        256 * pow256((n - 1) as nat)
    }
}

/// The two's-complement reading of an unsigned value `u` stored in `n` bytes.
pub open spec fn sint_from(u: nat, n: nat) -> int {
    if u < pow256(n) / 2 {
        u as int
    } else {
        u - pow256(n)
    }
}

/// The `n`-byte little-endian encoding of `v` (of `v % pow256(n)` if `v` is larger).
pub open spec fn le_bytes_of(v: nat, n: nat) -> Seq<u8>
    decreases n,
{
    if n == 0 {
        Seq::empty()
    } else {
        seq![(v % 256) as u8] + le_bytes_of(v / 256, (n - 1) as nat)
    }
}

/// The `n`-byte big-endian encoding of `v` (of `v % pow256(n)` if `v` is larger).
pub open spec fn be_bytes_of(v: nat, n: nat) -> Seq<u8>
    decreases n,
{
    if n == 0 {
        Seq::empty()
    } else {
        be_bytes_of(v / 256, (n - 1) as nat) + seq![(v % 256) as u8]
    }
}

/// The `n`-byte encoding of `v` under the given byte order.
pub open spec fn bytes_of_uint(big: bool, v: nat, n: nat) -> Seq<u8> {
    if big {
        be_bytes_of(v, n)
    } else {
        le_bytes_of(v, n)
    }
}

/// The index of the first `0x00` byte of `s`, or `s.len()` if there is none.
pub open spec fn first_nul(s: Seq<u8>) -> int
    decreases s.len(),
{
    if s.len() == 0 {
        0
    } else if s[0] == 0 {
        0
    } else {
        1 + first_nul(s.skip(1))
    }
}

/// Whether `s` holds a `0x00` byte at all.
pub open spec fn has_nul(s: Seq<u8>) -> bool {
    first_nul(s) < s.len()
}

/// A byte sequence denotes fewer than `pow256(len)` under either byte order.
pub proof fn lemma_le_value_bound(s: Seq<u8>)
    ensures
        le_value(s) < pow256(s.len()),
    decreases s.len(),
{
    if s.len() > 0 {
        lemma_le_value_bound(s.skip(1));
    }
}

/// See [`lemma_le_value_bound`].
pub proof fn lemma_be_value_bound(s: Seq<u8>)
    ensures
        be_value(s) < pow256(s.len()),
    decreases s.len(),
{
    if s.len() > 0 {
        lemma_be_value_bound(s.take(s.len() - 1));
    }
}

/// The bound under either byte order at once.
pub proof fn lemma_uint_of_bound(big: bool, s: Seq<u8>)
    ensures
        uint_of(big, s) < pow256(s.len()),
{
    lemma_le_value_bound(s);
    lemma_be_value_bound(s);
}

/// A scan that passed only nonzero bytes and stopped at a NUL, or at the
/// end, has found the first NUL.
pub proof fn lemma_first_nul_at(s: Seq<u8>, k: int)
    requires
        0 <= k <= s.len(),
        forall|j: int| 0 <= j < k ==> s[j] != 0,
        k < s.len() ==> s[k] == 0,
    ensures
        first_nul(s) == k,
    decreases s.len(),
{
    if s.len() > 0 && s[0] != 0 {
        assert(k >= 1);
        assert forall|j: int| 0 <= j < k - 1 implies s.skip(1)[j] != 0 by {
            assert(s.skip(1)[j] == s[j + 1]);
        }
        if k - 1 < s.skip(1).len() {
            assert(s.skip(1)[k - 1] == s[k]);
        }
        lemma_first_nul_at(s.skip(1), k - 1);
    }
}

/// A single byte denotes itself under either byte order.
pub proof fn lemma_uint_of_single(big: bool, s: Seq<u8>)
    requires
        s.len() == 1,
    ensures
        uint_of(big, s) == s[0] as nat,
{
    reveal_with_fuel(le_value, 2);
    reveal_with_fuel(be_value, 2);
    assert(s.skip(1).len() == 0);
    assert(s.take(0).len() == 0);
}

/// `pow256` at the widths the reader uses.
pub proof fn lemma_pow256_values()
    ensures
        pow256(0) == 1,
        pow256(1) == 0x100,
        pow256(2) == 0x1_0000,
        pow256(3) == 0x100_0000,
        pow256(4) == 0x1_0000_0000,
        pow256(6) == 0x1_0000_0000_0000,
        pow256(8) == 0x1_0000_0000_0000_0000,
        pow256(16) == 0x1_0000_0000_0000_0000_0000_0000_0000_0000,
{
    reveal_with_fuel(pow256, 17);
}

} // verus!
