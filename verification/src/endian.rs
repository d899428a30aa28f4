//! The byte-order modes a reader can decode under.

use vstd::prelude::*;

verus! {

/// The byte order used to interpret a multi-byte numeric value.
#[derive(Debug, Clone, Copy, PartialEq, Eq, Structural)]
pub enum Endian {
    /// Most-significant byte first.
    Big,
    /// Least-significant byte first.
    Little,
    /// Whichever of `Big` / `Little` matches the platform the program runs on.
    Native,
    /// Network byte order: identical to `Big`.
    Network,
}

/// Whether `e` decodes most-significant byte first, given which order the
/// platform uses (`native_big`) for resolving [`Endian::Native`].
pub open spec fn endian_is_big(e: Endian, native_big: bool) -> bool {
    match e {
        Endian::Big => true,
        Endian::Little => false,
        Endian::Native => native_big,
        Endian::Network => true,
    }
}

} // verus!
