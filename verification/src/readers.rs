//! Sequential decoding of integers and strings from a byte buffer.

use crate::bigendian::{decode_int16, decode_int32, int16_from_be, int32_from_be};
use crate::error::KafkaError;
use std::string::FromUtf8Error;
use vstd::prelude::*;
use vstd::slice::{slice_subrange, slice_to_vec};
use vstd::utf8::{decode_utf8, valid_utf8};

verus! {

/// A read position in an immutable byte buffer. Reads consume bytes from the
/// front of what is left and never look past the end of the buffer.
pub struct Cursor<'a> {
    data: &'a [u8],
    pos: usize,
}

/// What is left of `input` after an attempt to consume `len` bytes: the
/// bytes behind them, or nothing when `input` is too short.
pub open spec fn rest_after(input: Seq<u8>, len: int) -> Seq<u8> {
    if 0 <= len <= input.len() {
        input.skip(len)
    } else {
        Seq::empty()
    }
}

/// The 16-bit integer at the front of `input`.
pub open spec fn spec_read_int16(input: Seq<u8>) -> Result<i16, KafkaError> {
    if input.len() >= 2 {
        Ok(int16_from_be(input[0], input[1]))
    } else {
        Err(KafkaError::Truncated)
    }
}

/// The 32-bit integer at the front of `input`.
pub open spec fn spec_read_int32(input: Seq<u8>) -> Result<i32, KafkaError> {
    if input.len() >= 4 {
        Ok(int32_from_be(input[0], input[1], input[2], input[3]))
    } else {
        Err(KafkaError::Truncated)
    }
}

/// The nullable string at the front of `input`: a 16-bit length, then that
/// many bytes of UTF-8. The length -1 stands for an absent string; no other
/// negative length is accepted.
pub open spec fn spec_read_nullable_string(input: Seq<u8>) -> Result<
    Option<Seq<char>>,
    KafkaError,
> {
    if input.len() < 2 {
        Err(KafkaError::Truncated)
    } else {
        let len = int16_from_be(input[0], input[1]);
        if len == -1 {
            Ok(None)
        } else if len < 0 {
            Err(KafkaError::InvalidStringLength(len))
        } else if input.len() - 2 < len {
            Err(KafkaError::Truncated)
        } else {
            let bytes = input.subrange(2, 2 + len);
            if valid_utf8(bytes) {
                Ok(Some(decode_utf8(bytes)))
            } else {
                Err(KafkaError::InvalidUtf8)
            }
        }
    }
}

/// What is left of `input` after an attempt to read a nullable string.
pub open spec fn rest_after_nullable_string(input: Seq<u8>) -> Seq<u8> {
    if input.len() < 2 {
        Seq::empty()
    } else {
        let len = int16_from_be(input[0], input[1]);
        if len < 0 {
            input.skip(2)
        } else {
            rest_after(input.skip(2), len as int)
        }
    }
}

/// The outcome of reading a string, with the string taken by its characters.
pub open spec fn string_outcome(r: Result<Option<String>, KafkaError>) -> Result<
    Option<Seq<char>>,
    KafkaError,
> {
    match r {
        Ok(Some(s)) => Ok(Some(s@)),
        Ok(None) => Ok(None),
        Err(e) => Err(e),
    }
}

impl<'a> Cursor<'a> {
    #[verifier::type_invariant]
    spec fn inv(self) -> bool {
        self.pos <= self.data@.len()
    }

    /// The whole buffer, read and unread.
    pub closed spec fn data(self) -> Seq<u8> {
        self.data@
    }

    /// The number of bytes consumed so far.
    pub closed spec fn spec_position(self) -> nat {
        self.pos as nat
    }

    /// The position lies within the buffer. This holds of every cursor.
    pub open spec fn in_bounds(self) -> bool {
        self.spec_position() <= self.data().len()
    }

    /// The bytes that have not been consumed yet.
    pub open spec fn remaining(self) -> Seq<u8> {
        self.data().skip(self.spec_position() as int)
    }

    /// A cursor at the start of `data`.
    pub fn new(data: &'a [u8]) -> (cursor: Self)
        ensures
            cursor.data() == data@,
            cursor.spec_position() == 0,
            cursor.remaining() == data@,
            cursor.in_bounds(),
    {
        Cursor { data, pos: 0 }
    }

    /// The number of bytes consumed so far.
    pub fn position(&self) -> (pos: usize)
        ensures
            pos == self.spec_position(),
            self.in_bounds(),
    {
        proof {
            use_type_invariant(self);
        }
        self.pos
    }

    /// The number of bytes left to read.
    pub fn remaining_len(&self) -> (len: usize)
        ensures
            len == self.remaining().len(),
            self.in_bounds(),
    {
        proof {
            use_type_invariant(self);
        }
        self.data.len() - self.pos
    }

    /// Consumes exactly `len` bytes and returns them. When fewer are left,
    /// the read fails with `Truncated` and consumes what there is.
    pub fn read_bytes(&mut self, len: usize) -> (r: Result<&'a [u8], KafkaError>)
        ensures
            final(self).data() == old(self).data(),
            final(self).in_bounds(),
            final(self).remaining() == rest_after(old(self).remaining(), len as int),
            match r {
                Ok(bytes) => len <= old(self).remaining().len() && bytes@ == old(
                    self,
                ).remaining().take(len as int),
                Err(e) => len > old(self).remaining().len() && e == KafkaError::Truncated,
            },
    {
        proof {
            use_type_invariant(&*self);
        }
        let total = self.data.len();
        if len > total - self.pos {
            self.pos = total;
            return Err(KafkaError::Truncated);
        }
        let start = self.pos;
        let bytes = slice_subrange(self.data, start, start + len);
        self.pos = start + len;
        Ok(bytes)
    }
}

/// Reads a big-endian signed 16-bit integer and advances the cursor past it.
/// Fails with `Truncated` when fewer than two bytes are left.
pub fn read_int16(cursor: &mut Cursor<'_>) -> (r: Result<i16, KafkaError>)
    ensures
        final(cursor).data() == old(cursor).data(),
        final(cursor).in_bounds(),
        final(cursor).remaining() == rest_after(old(cursor).remaining(), 2),
        r == spec_read_int16(old(cursor).remaining()),
{
    match cursor.read_bytes(2) {
        Ok(bytes) => Ok(decode_int16(bytes[0], bytes[1])),
        Err(e) => Err(e),
    }
}

/// Reads a big-endian signed 32-bit integer and advances the cursor past it.
/// Fails with `Truncated` when fewer than four bytes are left.
pub fn read_int32(cursor: &mut Cursor<'_>) -> (r: Result<i32, KafkaError>)
    ensures
        final(cursor).data() == old(cursor).data(),
        final(cursor).in_bounds(),
        final(cursor).remaining() == rest_after(old(cursor).remaining(), 4),
        r == spec_read_int32(old(cursor).remaining()),
{
    match cursor.read_bytes(4) {
        Ok(bytes) => Ok(decode_int32(bytes[0], bytes[1], bytes[2], bytes[3])),
        Err(e) => Err(e),
    }
}

/// `std::string::FromUtf8Error`, the error of `String::from_utf8`. Nothing
/// is known of what it holds; it is only told apart from success.
#[verifier::external_type_specification]
#[verifier::external_body]
pub struct ExFromUtf8Error(FromUtf8Error);

/// `String::from_utf8` of the standard library, which is taken on trust: it
/// succeeds exactly on well-formed UTF-8, and the string it then returns
/// holds the characters that the bytes encode.
#[verifier::external_body]
fn string_from_utf8(bytes: Vec<u8>) -> (r: Result<String, FromUtf8Error>)
    ensures
        r is Ok <==> valid_utf8(bytes@),
        r matches Ok(s) ==> s@ == decode_utf8(bytes@),
{
    String::from_utf8(bytes)
}

/// Reads a nullable string: a 16-bit length followed by that many bytes of
/// UTF-8. The length -1 gives `None`. Any other negative length fails with
/// `InvalidStringLength`, a buffer that ends early with `Truncated`, and
/// bytes that are not UTF-8 with `InvalidUtf8`.
pub fn read_nullable_string(cursor: &mut Cursor<'_>) -> (r: Result<Option<String>, KafkaError>)
    ensures
        final(cursor).data() == old(cursor).data(),
        final(cursor).in_bounds(),
        final(cursor).remaining() == rest_after_nullable_string(old(cursor).remaining()),
        string_outcome(r) == spec_read_nullable_string(old(cursor).remaining()),
{
    let length = match read_int16(cursor) {
        Ok(length) => length,
        Err(e) => {
            return Err(e);
        },
    };
    if length == -1 {
        return Ok(None);
    }
    if length < 0 {
        return Err(KafkaError::InvalidStringLength(length));
    }
    let bytes = match cursor.read_bytes(length as usize) {
        Ok(bytes) => bytes,
        Err(e) => {
            return Err(e);
        },
    };
    assert(bytes@ =~= old(cursor).remaining().subrange(2, 2 + length));
    match string_from_utf8(slice_to_vec(bytes)) {
        Ok(string) => Ok(Some(string)),
        Err(_) => Err(KafkaError::InvalidUtf8),
    }
}

} // verus!
