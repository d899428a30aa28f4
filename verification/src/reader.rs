//! The cursor reader itself: an owned byte buffer, a read position, and a
//! byte-order mode, with bounds-checked decoding operations.

use vstd::prelude::*;

use crate::codec::utf8_decode;
use crate::codec::utf8_decode_lossy;
use crate::endian::Endian;
use crate::endian::endian_is_big;
use crate::model::first_nul;
use crate::model::has_nul;
use crate::model::lemma_first_nul_at;
use crate::model::lemma_pow256_values;
use crate::model::lemma_uint_of_bound;
use crate::model::lemma_uint_of_single;
use crate::model::sint_from;
use crate::model::uint_of;

verus! {

/// An error a read operation can signal.
#[derive(Debug, Clone, Copy, PartialEq, Eq, Structural)]
pub enum ReadError {
    /// The read would consume bytes past the end of the buffer, or no
    /// terminator byte exists before the end.  Carries the byte count the
    /// operation asked for and the position it was attempted at.
    OutOfBounds { requested: usize, offset: usize },
    /// The delimited bytes are not valid UTF-8 text.
    InvalidEncoding,
}

/// A cursor-based reader over an owned byte buffer.
#[derive(Debug, Clone)]
pub struct BinaryReader {
    /// The buffer data.
    pub data: Vec<u8>,
    /// The current position.
    pub pos: usize,
    /// The length of the buffer.
    pub length: usize,
    /// The byte order for multi-byte numeric reads.
    pub endian: Endian,
    /// Whether the platform resolves `Endian::Native` to big-endian;
    /// probed once at construction.
    pub native_big: bool,
}

impl BinaryReader {
    /// The cached length agrees with the buffer.
    pub open spec fn wf(self) -> bool {
        self.length == self.data@.len()
    }

    /// Whether the active byte-order mode reads most-significant byte first.
    pub open spec fn big(self) -> bool {
        endian_is_big(self.endian, self.native_big)
    }

    /// Everything but the position agrees with `other`: reads may move the
    /// cursor but never touch the buffer or the byte-order mode.
    pub open spec fn same_except_pos(self, other: BinaryReader) -> bool {
        &&& self.data@ == other.data@
        &&& self.length == other.length
        &&& self.endian == other.endian
        &&& self.native_big == other.native_big
    }

    /// Whether a read of `n` bytes at the current position is in bounds.
    pub open spec fn can_read(self, n: nat) -> bool {
        self.pos + n <= self.length
    }

    /// The `n` bytes a fixed-width read at the current position consumes.
    pub open spec fn window(self, n: nat) -> Seq<u8>
        recommends
            self.wf(),
            self.can_read(n),
    {
        self.data@.subrange(self.pos as int, self.pos + n)
    }

    /// How many bytes remain between the position and the end of the buffer.
    pub open spec fn remaining(self) -> nat {
        if self.pos <= self.length {
            (self.length - self.pos) as nat
        } else {
            0
        }
    }

    /// The bytes from the position to the end of the buffer.
    pub open spec fn rest(self) -> Seq<u8>
        recommends
            self.wf(),
    {
        if self.pos <= self.length {
            self.data@.subrange(self.pos as int, self.length as int)
        } else {
            Seq::empty()
        }
    }

    /// Whether a terminator byte (`0x00`) exists at or after the position.
    pub open spec fn cstr_found(self) -> bool
        recommends
            self.wf(),
    {
        has_nul(self.rest())
    }

    /// The bytes of the next null-terminated string, terminator excluded.
    pub open spec fn cstr_bytes(self) -> Seq<u8>
        recommends
            self.wf(),
            self.cstr_found(),
    {
        self.rest().take(first_nul(self.rest()))
    }

    /// The position just past the next string's terminator.
    pub open spec fn cstr_end(self) -> int
        recommends
            self.wf(),
            self.cstr_found(),
    {
        self.pos + first_nul(self.rest()) + 1
    }

    /// The unsigned value the next `n` bytes denote under the active order.
    pub open spec fn uint_at(self, n: nat) -> nat
        recommends
            self.wf(),
            self.can_read(n),
    {
        uint_of(self.big(), self.window(n))
    }

    /// The signed (two's-complement) value the next `n` bytes denote under
    /// the active order.
    pub open spec fn sint_at(self, n: nat) -> int
        recommends
            self.wf(),
            self.can_read(n),
    {
        sint_from(self.uint_at(n), n)
    }

    fn initialize() -> (r: BinaryReader)
        ensures
            r.data@ == Seq::<u8>::empty(),
            r.pos == 0,
            r.length == 0,
            r.endian == Endian::Big,
            r.wf(),
    {
        BinaryReader {
            data: Vec::new(),
            pos: 0,
            length: 0,
            endian: Endian::Big,
            native_big: crate::codec::probe_native_big(),
        }
    }

    /// Build a reader over a copy of the given bytes, positioned at the
    /// start and decoding big-endian until told otherwise.
    pub fn from_u8(get: &[u8]) -> (r: BinaryReader)
        ensures
            r.data@ == get@,
            r.pos == 0,
            r.length == get@.len(),
            r.endian == Endian::Big,
            r.wf(),
    {
        let mut a = BinaryReader::initialize();
        a.data = vstd::slice::slice_to_vec(get);
        a.length = a.data.len();
        a
    }

    /// Build a reader over a copy of the given vector, positioned at the
    /// start and decoding big-endian until told otherwise.
    pub fn from_vec(vec: &Vec<u8>) -> (r: BinaryReader)
        ensures
            r.data@ == vec@,
            r.pos == 0,
            r.length == vec@.len(),
            r.endian == Endian::Big,
            r.wf(),
    {
        let mut a = BinaryReader::initialize();
        a.data = vstd::slice::slice_to_vec(vec.as_slice());
        a.length = a.data.len();
        a
    }

    /// Replace the byte order used by every later multi-byte read.
    pub fn set_endian(&mut self, endian: Endian)
        ensures
            final(self).endian == endian,
            final(self).data@ == old(self).data@,
            final(self).pos == old(self).pos,
            final(self).length == old(self).length,
            final(self).native_big == old(self).native_big,
    {
        self.endian = endian
    }

    /// Set the position, unconditionally; a position past the end makes the
    /// next read fail rather than this call.
    pub fn jmp(&mut self, pos: usize)
        ensures
            final(self).same_except_pos(*old(self)),
            final(self).pos == pos,
    {
        self.pos = pos
    }

    /// Move the position forward by `size`, unconditionally.
    pub fn adv(&mut self, size: usize)
        requires
            old(self).pos + size <= usize::MAX,
        ensures
            final(self).same_except_pos(*old(self)),
            final(self).pos == old(self).pos + size,
    {
        self.pos = self.pos + size
    }

    /// Round the position up to the next multiple of `size`.  An alignment
    /// of zero is rejected with an error instead of dividing by it.
    pub fn align(&mut self, size: usize) -> (r: Result<(), ReadError>)
        requires
            old(self).pos + size <= usize::MAX,
        ensures
            final(self).same_except_pos(*old(self)),
            size == 0 ==> r == Err::<(), ReadError>(
                ReadError::OutOfBounds { requested: 0, offset: old(self).pos },
            ) && final(self).pos == old(self).pos,
            size > 0 ==> {
                &&& r == Ok::<(), ReadError>(())
                &&& final(self).pos == ((old(self).pos + size - 1) / (size as int)) * size
                &&& (final(self).pos as int) % (size as int) == 0
                &&& old(self).pos <= final(self).pos < old(self).pos + size
            },
    {
        if size == 0 {
            return Err(ReadError::OutOfBounds { requested: 0, offset: self.pos });
        }
        let d: usize = self.pos + size - 1;
        let q: usize = d / size;
        proof {
            vstd::arithmetic::div_mod::lemma_fundamental_div_mod(d as int, size as int);
            vstd::arithmetic::div_mod::lemma_mod_bound(d as int, size as int);
            vstd::arithmetic::div_mod::lemma_mod_multiples_basic(q as int, size as int);
            vstd::arithmetic::mul::lemma_mul_is_commutative(q as int, size as int);
            assert((size as int) * (q as int) == d - (d as int) % (size as int));
            assert((q as int) * (size as int) <= d);
        }
        self.pos = q * size;
        Ok(())
    }

    /// Read `size` raw bytes and advance, or report absence (`None`) when
    /// fewer than `size` bytes remain, leaving the reader untouched.
    pub fn read(&mut self, size: usize) -> (r: Option<Vec<u8>>)
        requires
            old(self).wf(),
        ensures
            final(self).wf(),
            final(self).same_except_pos(*old(self)),
            old(self).can_read(size as nat) ==> {
                &&& r matches Some(v) && v@ == old(self).window(size as nat)
                &&& final(self).pos == old(self).pos + size
            },
            !old(self).can_read(size as nat) ==> r is None && final(self).pos == old(self).pos,
    {
        match self.read_bytes(size) {
            Ok(v) => Some(v),
            Err(_) => None,
        }
    }

    /// Read `size` raw bytes and advance, or signal `OutOfBounds` when fewer
    /// than `size` bytes remain, leaving the reader untouched.  Every typed
    /// read below consumes its bytes through this accessor.
    pub fn read_bytes(&mut self, bytes: usize) -> (r: Result<Vec<u8>, ReadError>)
        requires
            old(self).wf(),
        ensures
            final(self).wf(),
            final(self).same_except_pos(*old(self)),
            old(self).can_read(bytes as nat) ==> {
                &&& r matches Ok(v) && v@ == old(self).window(bytes as nat)
                &&& final(self).pos == old(self).pos + bytes
            },
            !old(self).can_read(bytes as nat) ==> {
                &&& r == Err::<Vec<u8>, ReadError>(
                    ReadError::OutOfBounds { requested: bytes, offset: old(self).pos },
                )
                &&& final(self).pos == old(self).pos
            },
    {
        if self.pos <= self.length && bytes <= self.length - self.pos {
            let s = vstd::slice::slice_subrange(self.data.as_slice(), self.pos, self.pos + bytes);
            let v = vstd::slice::slice_to_vec(s);
            self.pos = self.pos + bytes;
            Ok(v)
        } else {
            Err(ReadError::OutOfBounds { requested: bytes, offset: self.pos })
        }
    }

    /// Read one byte as a boolean: `0x00` is `false`, anything else `true`.
    pub fn read_bool(&mut self) -> (r: Result<bool, ReadError>)
        requires
            old(self).wf(),
        ensures
            final(self).wf(),
            final(self).same_except_pos(*old(self)),
            old(self).can_read(1) ==> r == Ok::<bool, ReadError>(
                old(self).data@[old(self).pos as int] != 0,
            ) && final(self).pos == old(self).pos + 1,
            !old(self).can_read(1) ==> r == Err::<bool, ReadError>(
                ReadError::OutOfBounds { requested: 1, offset: old(self).pos },
            ) && final(self).pos == old(self).pos,
    {
        let data = match self.read_bytes(1) {
            Ok(d) => d,
            Err(e) => {
                return Err(e);
            },
        };
        Ok(data[0] != 0)
    }

    /// Scan from the position for the first terminator byte.  On success,
    /// hand back the bytes strictly before it and the index just past it;
    /// otherwise report how many bytes were scanned in vain.  The reader
    /// itself is untouched: the callers advance it.
    fn scan_cstr(&self) -> (r: Result<(Vec<u8>, usize), ReadError>)
        requires
            self.wf(),
        ensures
            self.cstr_found() ==> {
                &&& r matches Ok(p) && p.0@ == self.cstr_bytes() && p.1 == self.cstr_end()
            },
            !self.cstr_found() ==> r == Err::<(Vec<u8>, usize), ReadError>(
                (ReadError::OutOfBounds { requested: self.remaining() as usize, offset: self.pos }),
            ),
    {
        if self.pos > self.length {
            proof {
                lemma_first_nul_at(self.rest(), 0);
            }
            return Err(ReadError::OutOfBounds { requested: 0, offset: self.pos });
        }
        let mut i: usize = self.pos;
        while i < self.length && self.data[i] != 0
            invariant
                self.wf(),
                self.pos <= i <= self.length,
                forall|j: int| self.pos <= j < i ==> self.data@[j] != 0,
            decreases self.length - i,
        {
            i = i + 1;
        }
        proof {
            assert forall|j: int| 0 <= j < i - self.pos implies self.rest()[j] != 0 by {
                assert(self.rest()[j] == self.data@[self.pos + j]);
            }
            lemma_first_nul_at(self.rest(), i - self.pos);
        }
        if i >= self.length {
            return Err(
                ReadError::OutOfBounds { requested: self.length - self.pos, offset: self.pos },
            );
        }
        let bytes = vstd::slice::slice_to_vec(
            vstd::slice::slice_subrange(self.data.as_slice(), self.pos, i),
        );
        proof {
            assert(self.cstr_bytes() =~= self.data@.subrange(self.pos as int, i as int));
        }
        Ok((bytes, i + 1))
    }

    /// Read the text before the next terminator byte as UTF-8, and advance
    /// to just past the terminator.  Fails without moving when no
    /// terminator exists before the end, or when the delimited bytes are
    /// not valid UTF-8.
    pub fn read_cstr(&mut self) -> (r: Result<String, ReadError>)
        requires
            old(self).wf(),
        ensures
            final(self).wf(),
            final(self).same_except_pos(*old(self)),
            !old(self).cstr_found() ==> {
                &&& r == Err::<String, ReadError>(
                    (ReadError::OutOfBounds {
                        requested: old(self).remaining() as usize,
                        offset: old(self).pos,
                    }),
                )
                &&& final(self).pos == old(self).pos
            },
            old(self).cstr_found() && utf8_decode(old(self).cstr_bytes()) is Some ==> {
                &&& r matches Ok(s) && s@ == utf8_decode(old(self).cstr_bytes())->Some_0
                &&& final(self).pos == old(self).cstr_end()
            },
            old(self).cstr_found() && utf8_decode(old(self).cstr_bytes()) is None ==> {
                &&& r == Err::<String, ReadError>(ReadError::InvalidEncoding)
                &&& final(self).pos == old(self).pos
            },
    {
        let (bytes, end) = match self.scan_cstr() {
            Ok(p) => p,
            Err(e) => {
                return Err(e);
            },
        };
        match crate::codec::utf8_to_string(bytes) {
            Some(s) => {
                self.pos = end;
                Ok(s)
            },
            None => Err(ReadError::InvalidEncoding),
        }
    }

    /// Read the text before the next terminator byte as UTF-8, substituting
    /// the replacement character for malformed sequences, and advance to
    /// just past the terminator.  Fails without moving only when no
    /// terminator exists before the end.
    pub fn read_cstr_lossy(&mut self) -> (r: Result<String, ReadError>)
        requires
            old(self).wf(),
        ensures
            final(self).wf(),
            final(self).same_except_pos(*old(self)),
            !old(self).cstr_found() ==> {
                &&& r == Err::<String, ReadError>(
                    (ReadError::OutOfBounds {
                        requested: old(self).remaining() as usize,
                        offset: old(self).pos,
                    }),
                )
                &&& final(self).pos == old(self).pos
            },
            old(self).cstr_found() ==> {
                &&& r matches Ok(s) && s@ == utf8_decode_lossy(old(self).cstr_bytes())
                &&& final(self).pos == old(self).cstr_end()
            },
            old(self).cstr_found() && utf8_decode(old(self).cstr_bytes()) is Some ==> {
                &&& r matches Ok(s) && s@ == utf8_decode(old(self).cstr_bytes())->Some_0
            },
    {
        let (bytes, end) = match self.scan_cstr() {
            Ok(p) => p,
            Err(e) => {
                return Err(e);
            },
        };
        let s = crate::codec::utf8_to_string_lossy(&bytes);
        self.pos = end;
        Ok(s)
    }

    /// Whether multi-byte reads currently decode most-significant byte
    /// first.
    fn is_big(&self) -> (r: bool)
        ensures
            r == self.big(),
    {
        match self.endian {
            Endian::Big => true,
            Endian::Little => false,
            Endian::Native => self.native_big,
            Endian::Network => true,
        }
    }

    /// Read an unsigned 8 bit integer; a single byte has no ordering.
    pub fn read_u8(&mut self) -> (r: Result<u8, ReadError>)
        requires
            old(self).wf(),
        ensures
            final(self).wf(),
            final(self).same_except_pos(*old(self)),
            old(self).can_read(1) ==> {
                &&& r matches Ok(v) && v == old(self).data@[old(self).pos as int] && v == old(
                    self,
                ).uint_at(1)
                &&& final(self).pos == old(self).pos + 1
            },
            !old(self).can_read(1) ==> {
                &&& r == Err::<u8, ReadError>(
                    ReadError::OutOfBounds { requested: 1, offset: old(self).pos },
                )
                &&& final(self).pos == old(self).pos
            },
    {
        let data = match self.read_bytes(1) {
            Ok(d) => d,
            Err(e) => {
                return Err(e);
            },
        };
        proof {
            lemma_uint_of_single(old(self).big(), old(self).window(1));
        }
        Ok(data[0])
    }

    /// Read a signed 8 bit integer.
    pub fn read_i8(&mut self) -> (r: Result<i8, ReadError>)
        requires
            old(self).wf(),
        ensures
            final(self).wf(),
            final(self).same_except_pos(*old(self)),
            old(self).can_read(1) ==> {
                &&& r matches Ok(v) && v as int == old(self).sint_at(1)
                &&& final(self).pos == old(self).pos + 1
            },
            !old(self).can_read(1) ==> {
                &&& r == Err::<i8, ReadError>(
                    ReadError::OutOfBounds { requested: 1, offset: old(self).pos },
                )
                &&& final(self).pos == old(self).pos
            },
    {
        let v = match self.read_u8() {
            Ok(v) => v,
            Err(e) => {
                return Err(e);
            },
        };
        Ok(crate::numeric::signed_of_u8(v))
    }

    /// Read an unsigned 16 bit integer under the active byte order.
    pub fn read_u16(&mut self) -> (r: Result<u16, ReadError>)
        requires
            old(self).wf(),
        ensures
            final(self).wf(),
            final(self).same_except_pos(*old(self)),
            old(self).can_read(2) ==> {
                &&& r matches Ok(v) && v == old(self).uint_at(2)
                &&& final(self).pos == old(self).pos + 2
            },
            !old(self).can_read(2) ==> {
                &&& r == Err::<u16, ReadError>(
                    ReadError::OutOfBounds { requested: 2, offset: old(self).pos },
                )
                &&& final(self).pos == old(self).pos
            },
    {
        let big = self.is_big();
        let data = match self.read_bytes(2) {
            Ok(d) => d,
            Err(e) => {
                return Err(e);
            },
        };
        let v = if big {
            crate::codec::be_read_u16(data.as_slice())
        } else {
            crate::codec::le_read_u16(data.as_slice())
        };
        Ok(v)
    }

    /// Read a signed 16 bit integer under the active byte order.
    pub fn read_i16(&mut self) -> (r: Result<i16, ReadError>)
        requires
            old(self).wf(),
        ensures
            final(self).wf(),
            final(self).same_except_pos(*old(self)),
            old(self).can_read(2) ==> {
                &&& r matches Ok(v) && v as int == old(self).sint_at(2)
                &&& final(self).pos == old(self).pos + 2
            },
            !old(self).can_read(2) ==> {
                &&& r == Err::<i16, ReadError>(
                    ReadError::OutOfBounds { requested: 2, offset: old(self).pos },
                )
                &&& final(self).pos == old(self).pos
            },
    {
        let v = match self.read_u16() {
            Ok(v) => v,
            Err(e) => {
                return Err(e);
            },
        };
        Ok(crate::numeric::signed_of_u16(v))
    }

    /// Read an unsigned 24 bit integer under the active byte order, stored
    /// in a `u32`.
    pub fn read_u24(&mut self) -> (r: Result<u32, ReadError>)
        requires
            old(self).wf(),
        ensures
            final(self).wf(),
            final(self).same_except_pos(*old(self)),
            old(self).can_read(3) ==> {
                &&& r matches Ok(v) && v == old(self).uint_at(3)
                &&& final(self).pos == old(self).pos + 3
            },
            !old(self).can_read(3) ==> {
                &&& r == Err::<u32, ReadError>(
                    ReadError::OutOfBounds { requested: 3, offset: old(self).pos },
                )
                &&& final(self).pos == old(self).pos
            },
    {
        let big = self.is_big();
        let data = match self.read_bytes(3) {
            Ok(d) => d,
            Err(e) => {
                return Err(e);
            },
        };
        let v = if big {
            crate::codec::be_read_u24(data.as_slice())
        } else {
            crate::codec::le_read_u24(data.as_slice())
        };
        Ok(v)
    }

    /// Read a signed 24 bit integer under the active byte order, stored in
    /// an `i32`.
    pub fn read_i24(&mut self) -> (r: Result<i32, ReadError>)
        requires
            old(self).wf(),
        ensures
            final(self).wf(),
            final(self).same_except_pos(*old(self)),
            old(self).can_read(3) ==> {
                &&& r matches Ok(v) && v as int == old(self).sint_at(3)
                &&& final(self).pos == old(self).pos + 3
            },
            !old(self).can_read(3) ==> {
                &&& r == Err::<i32, ReadError>(
                    ReadError::OutOfBounds { requested: 3, offset: old(self).pos },
                )
                &&& final(self).pos == old(self).pos
            },
    {
        let v = match self.read_u24() {
            Ok(v) => v,
            Err(e) => {
                return Err(e);
            },
        };
        proof {
            lemma_uint_of_bound(old(self).big(), old(self).window(3));
            lemma_pow256_values();
        }
        Ok(crate::numeric::signed_of_u24(v))
    }

    /// Read an unsigned 32 bit integer under the active byte order.
    pub fn read_u32(&mut self) -> (r: Result<u32, ReadError>)
        requires
            old(self).wf(),
        ensures
            final(self).wf(),
            final(self).same_except_pos(*old(self)),
            old(self).can_read(4) ==> {
                &&& r matches Ok(v) && v == old(self).uint_at(4)
                &&& final(self).pos == old(self).pos + 4
            },
            !old(self).can_read(4) ==> {
                &&& r == Err::<u32, ReadError>(
                    ReadError::OutOfBounds { requested: 4, offset: old(self).pos },
                )
                &&& final(self).pos == old(self).pos
            },
    {
        let big = self.is_big();
        let data = match self.read_bytes(4) {
            Ok(d) => d,
            Err(e) => {
                return Err(e);
            },
        };
        let v = if big {
            crate::codec::be_read_u32(data.as_slice())
        } else {
            crate::codec::le_read_u32(data.as_slice())
        };
        Ok(v)
    }

    /// Read a signed 32 bit integer under the active byte order.
    pub fn read_i32(&mut self) -> (r: Result<i32, ReadError>)
        requires
            old(self).wf(),
        ensures
            final(self).wf(),
            final(self).same_except_pos(*old(self)),
            old(self).can_read(4) ==> {
                &&& r matches Ok(v) && v as int == old(self).sint_at(4)
                &&& final(self).pos == old(self).pos + 4
            },
            !old(self).can_read(4) ==> {
                &&& r == Err::<i32, ReadError>(
                    ReadError::OutOfBounds { requested: 4, offset: old(self).pos },
                )
                &&& final(self).pos == old(self).pos
            },
    {
        let v = match self.read_u32() {
            Ok(v) => v,
            Err(e) => {
                return Err(e);
            },
        };
        Ok(crate::numeric::signed_of_u32(v))
    }

    /// Read an unsigned 48 bit integer under the active byte order, stored
    /// in a `u64`.
    pub fn read_u48(&mut self) -> (r: Result<u64, ReadError>)
        requires
            old(self).wf(),
        ensures
            final(self).wf(),
            final(self).same_except_pos(*old(self)),
            old(self).can_read(6) ==> {
                &&& r matches Ok(v) && v == old(self).uint_at(6)
                &&& final(self).pos == old(self).pos + 6
            },
            !old(self).can_read(6) ==> {
                &&& r == Err::<u64, ReadError>(
                    ReadError::OutOfBounds { requested: 6, offset: old(self).pos },
                )
                &&& final(self).pos == old(self).pos
            },
    {
        let big = self.is_big();
        let data = match self.read_bytes(6) {
            Ok(d) => d,
            Err(e) => {
                return Err(e);
            },
        };
        let v = if big {
            crate::codec::be_read_u48(data.as_slice())
        } else {
            crate::codec::le_read_u48(data.as_slice())
        };
        Ok(v)
    }

    /// Read a signed 48 bit integer under the active byte order, stored in
    /// an `i64`.
    pub fn read_i48(&mut self) -> (r: Result<i64, ReadError>)
        requires
            old(self).wf(),
        ensures
            final(self).wf(),
            final(self).same_except_pos(*old(self)),
            old(self).can_read(6) ==> {
                &&& r matches Ok(v) && v as int == old(self).sint_at(6)
                &&& final(self).pos == old(self).pos + 6
            },
            !old(self).can_read(6) ==> {
                &&& r == Err::<i64, ReadError>(
                    ReadError::OutOfBounds { requested: 6, offset: old(self).pos },
                )
                &&& final(self).pos == old(self).pos
            },
    {
        let v = match self.read_u48() {
            Ok(v) => v,
            Err(e) => {
                return Err(e);
            },
        };
        proof {
            lemma_uint_of_bound(old(self).big(), old(self).window(6));
            lemma_pow256_values();
        }
        Ok(crate::numeric::signed_of_u48(v))
    }

    /// Read an unsigned 64 bit integer under the active byte order.
    pub fn read_u64(&mut self) -> (r: Result<u64, ReadError>)
        requires
            old(self).wf(),
        ensures
            final(self).wf(),
            final(self).same_except_pos(*old(self)),
            old(self).can_read(8) ==> {
                &&& r matches Ok(v) && v == old(self).uint_at(8)
                &&& final(self).pos == old(self).pos + 8
            },
            !old(self).can_read(8) ==> {
                &&& r == Err::<u64, ReadError>(
                    ReadError::OutOfBounds { requested: 8, offset: old(self).pos },
                )
                &&& final(self).pos == old(self).pos
            },
    {
        let big = self.is_big();
        let data = match self.read_bytes(8) {
            Ok(d) => d,
            Err(e) => {
                return Err(e);
            },
        };
        let v = if big {
            crate::codec::be_read_u64(data.as_slice())
        } else {
            crate::codec::le_read_u64(data.as_slice())
        };
        Ok(v)
    }

    /// Read a signed 64 bit integer under the active byte order.
    pub fn read_i64(&mut self) -> (r: Result<i64, ReadError>)
        requires
            old(self).wf(),
        ensures
            final(self).wf(),
            final(self).same_except_pos(*old(self)),
            old(self).can_read(8) ==> {
                &&& r matches Ok(v) && v as int == old(self).sint_at(8)
                &&& final(self).pos == old(self).pos + 8
            },
            !old(self).can_read(8) ==> {
                &&& r == Err::<i64, ReadError>(
                    ReadError::OutOfBounds { requested: 8, offset: old(self).pos },
                )
                &&& final(self).pos == old(self).pos
            },
    {
        let v = match self.read_u64() {
            Ok(v) => v,
            Err(e) => {
                return Err(e);
            },
        };
        Ok(crate::numeric::signed_of_u64(v))
    }

    /// Read an unsigned 128 bit integer under the active byte order.
    pub fn read_u128(&mut self) -> (r: Result<u128, ReadError>)
        requires
            old(self).wf(),
        ensures
            final(self).wf(),
            final(self).same_except_pos(*old(self)),
            old(self).can_read(16) ==> {
                &&& r matches Ok(v) && v == old(self).uint_at(16)
                &&& final(self).pos == old(self).pos + 16
            },
            !old(self).can_read(16) ==> {
                &&& r == Err::<u128, ReadError>(
                    ReadError::OutOfBounds { requested: 16, offset: old(self).pos },
                )
                &&& final(self).pos == old(self).pos
            },
    {
        let big = self.is_big();
        let data = match self.read_bytes(16) {
            Ok(d) => d,
            Err(e) => {
                return Err(e);
            },
        };
        let v = if big {
            crate::codec::be_read_u128(data.as_slice())
        } else {
            crate::codec::le_read_u128(data.as_slice())
        };
        Ok(v)
    }

    /// Read a signed 128 bit integer under the active byte order.
    pub fn read_i128(&mut self) -> (r: Result<i128, ReadError>)
        requires
            old(self).wf(),
        ensures
            final(self).wf(),
            final(self).same_except_pos(*old(self)),
            old(self).can_read(16) ==> {
                &&& r matches Ok(v) && v as int == old(self).sint_at(16)
                &&& final(self).pos == old(self).pos + 16
            },
            !old(self).can_read(16) ==> {
                &&& r == Err::<i128, ReadError>(
                    ReadError::OutOfBounds { requested: 16, offset: old(self).pos },
                )
                &&& final(self).pos == old(self).pos
            },
    {
        let v = match self.read_u128() {
            Ok(v) => v,
            Err(e) => {
                return Err(e);
            },
        };
        Ok(crate::numeric::signed_of_u128(v))
    }
}

} // verus!
