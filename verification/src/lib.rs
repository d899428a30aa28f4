//! A sequential binary-buffer reader, verified with Verus.
//!
//! A [`BinaryReader`] owns a byte buffer and a cursor, and decodes
//! fixed-width integers, booleans, null-terminated strings and raw byte
//! runs from it, interpreting multi-byte values under a configurable
//! byte order ([`Endian`]).  Every read either consumes exactly the bytes
//! it decodes or fails without moving the cursor.

pub mod codec;
pub mod endian;
pub mod laws;
pub mod model;
pub mod numeric;
pub mod reader;

pub use endian::Endian;
pub use reader::BinaryReader;
pub use reader::ReadError;
