//! The trusted boundary: thin wrappers around the outside calls the
//! reader decodes through, each with the contract the callee's source
//! and documentation show.

use vstd::prelude::*;

use crate::model::be_value;
use crate::model::le_value;

verus! {

/// What `String::from_utf8` makes of a byte sequence: the decoded text,
/// or nothing where the bytes are not valid UTF-8.  The decoding itself
/// is left unstated; it depends on the bytes alone.
pub uninterp spec fn utf8_decode(s: Seq<u8>) -> Option<Seq<char>>;

/// What `String::from_utf8_lossy` makes of a byte sequence: the decoded
/// text with every malformed sequence replaced by U+FFFD.  It too depends
/// on the bytes alone.
pub uninterp spec fn utf8_decode_lossy(s: Seq<u8>) -> Seq<char>;

/// Relies on `String::from_utf8`: it succeeds on exactly the byte
/// sequences that are valid UTF-8, and returns their decoding.
#[verifier::external_body]
pub(crate) fn utf8_to_string(v: Vec<u8>) -> (r: Option<String>)
    ensures
        match r {
            Some(s) => utf8_decode(v@) == Some(s@),
            None => utf8_decode(v@) == None::<Seq<char>>,
        },
{
    match String::from_utf8(v) {
        Ok(s) => Some(s),
        Err(_) => None,
    }
}

/// Relies on `String::from_utf8_lossy`: it never fails, substitutes
/// U+FFFD for malformed sequences, and returns the plain decoding where
/// the bytes are valid UTF-8.
#[verifier::external_body]
pub(crate) fn utf8_to_string_lossy(v: &Vec<u8>) -> (r: String)
    ensures
        r@ == utf8_decode_lossy(v@),
        utf8_decode(v@) is Some ==> r@ == utf8_decode(v@)->Some_0,
{
    String::from_utf8_lossy(v.as_slice()).to_string()
}

/// Relies on `u16::from_ne_bytes` to report whether the platform stores the
/// most significant byte first.  Nothing is assumed of the answer.
#[verifier::external_body]
pub(crate) fn probe_native_big() -> bool {
    u16::from_ne_bytes([0x12, 0x34]) == 0x1234
}

/// Relies on `byteorder::BigEndian::read_u16`: the value of the two bytes,
/// most significant first.
#[verifier::external_body]
pub(crate) fn be_read_u16(b: &[u8]) -> (r: u16)
    requires
        b@.len() == 2,
    ensures
        r == be_value(b@),
{
    <byteorder::BigEndian as byteorder::ByteOrder>::read_u16(b)
}

/// Relies on `byteorder::LittleEndian::read_u16`: the value of the two
/// bytes, least significant first.
#[verifier::external_body]
pub(crate) fn le_read_u16(b: &[u8]) -> (r: u16)
    requires
        b@.len() == 2,
    ensures
        r == le_value(b@),
{
    <byteorder::LittleEndian as byteorder::ByteOrder>::read_u16(b)
}

/// Relies on `byteorder::BigEndian::read_u24`: the value of the three
/// bytes, most significant first, stored in a `u32`.
#[verifier::external_body]
pub(crate) fn be_read_u24(b: &[u8]) -> (r: u32)
    requires
        b@.len() == 3,
    ensures
        r == be_value(b@),
{
    <byteorder::BigEndian as byteorder::ByteOrder>::read_u24(b)
}

/// Relies on `byteorder::LittleEndian::read_u24`: the value of the three
/// bytes, least significant first, stored in a `u32`.
#[verifier::external_body]
pub(crate) fn le_read_u24(b: &[u8]) -> (r: u32)
    requires
        b@.len() == 3,
    ensures
        r == le_value(b@),
{
    <byteorder::LittleEndian as byteorder::ByteOrder>::read_u24(b)
}

/// Relies on `byteorder::BigEndian::read_u32`: the value of the four bytes,
/// most significant first.
#[verifier::external_body]
pub(crate) fn be_read_u32(b: &[u8]) -> (r: u32)
    requires
        b@.len() == 4,
    ensures
        r == be_value(b@),
{
    <byteorder::BigEndian as byteorder::ByteOrder>::read_u32(b)
}

/// Relies on `byteorder::LittleEndian::read_u32`: the value of the four
/// bytes, least significant first.
#[verifier::external_body]
pub(crate) fn le_read_u32(b: &[u8]) -> (r: u32)
    requires
        b@.len() == 4,
    ensures
        r == le_value(b@),
{
    <byteorder::LittleEndian as byteorder::ByteOrder>::read_u32(b)
}

/// Relies on `byteorder::BigEndian::read_u48`: the value of the six bytes,
/// most significant first, stored in a `u64`.
#[verifier::external_body]
pub(crate) fn be_read_u48(b: &[u8]) -> (r: u64)
    requires
        b@.len() == 6,
    ensures
        r == be_value(b@),
{
    <byteorder::BigEndian as byteorder::ByteOrder>::read_u48(b)
}

/// Relies on `byteorder::LittleEndian::read_u48`: the value of the six
/// bytes, least significant first, stored in a `u64`.
#[verifier::external_body]
pub(crate) fn le_read_u48(b: &[u8]) -> (r: u64)
    requires
        b@.len() == 6,
    ensures
        r == le_value(b@),
{
    <byteorder::LittleEndian as byteorder::ByteOrder>::read_u48(b)
}

/// Relies on `byteorder::BigEndian::read_u64`: the value of the eight
/// bytes, most significant first.
#[verifier::external_body]
pub(crate) fn be_read_u64(b: &[u8]) -> (r: u64)
    requires
        b@.len() == 8,
    ensures
        r == be_value(b@),
{
    <byteorder::BigEndian as byteorder::ByteOrder>::read_u64(b)
}

/// Relies on `byteorder::LittleEndian::read_u64`: the value of the eight
/// bytes, least significant first.
#[verifier::external_body]
pub(crate) fn le_read_u64(b: &[u8]) -> (r: u64)
    requires
        b@.len() == 8,
    ensures
        r == le_value(b@),
{
    <byteorder::LittleEndian as byteorder::ByteOrder>::read_u64(b)
}

/// Relies on `byteorder::BigEndian::read_u128`: the value of the sixteen
/// bytes, most significant first.
#[verifier::external_body]
pub(crate) fn be_read_u128(b: &[u8]) -> (r: u128)
    requires
        b@.len() == 16,
    ensures
        r == be_value(b@),
{
    <byteorder::BigEndian as byteorder::ByteOrder>::read_u128(b)
}

/// Relies on `byteorder::LittleEndian::read_u128`: the value of the sixteen
/// bytes, least significant first.
#[verifier::external_body]
pub(crate) fn le_read_u128(b: &[u8]) -> (r: u128)
    requires
        b@.len() == 16,
    ensures
        r == le_value(b@),
{
    <byteorder::LittleEndian as byteorder::ByteOrder>::read_u128(b)
}

} // verus!
