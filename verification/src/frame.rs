//! Length-prefixed frames: the four-byte length and the payload behind it.

use crate::bigendian::{
    decode_int32, int32_from_be, int32_to_be, lemma_int32_round_trip, put_int32,
};
use crate::error::KafkaError;
use crate::readers::{rest_after, Cursor};
use vstd::prelude::*;

verus! {

/// The number of bytes of the length prefix.
pub const LENGTH_PREFIX_LEN: usize = 4;

/// The largest payload accepted unless the caller sets another limit.
pub const MAX_FRAME_LEN: i32 = 1_000_000;

/// The payload length that `prefix` announces. A length that is not positive
/// or exceeds `max_len` is a violation of the protocol.
pub open spec fn spec_frame_length(prefix: Seq<u8>, max_len: i32) -> Result<usize, KafkaError> {
    if prefix.len() < LENGTH_PREFIX_LEN {
        Err(KafkaError::Truncated)
    } else {
        let n = int32_from_be(prefix[0], prefix[1], prefix[2], prefix[3]);
        if n <= 0 || n > max_len {
            Err(KafkaError::InvalidMessageLength(n))
        } else {
            Ok(n as usize)
        }
    }
}

/// The frame at the front of `input`: the payload that the length prefix
/// announces, in full.
pub open spec fn spec_read_frame(input: Seq<u8>, max_len: i32) -> Result<Seq<u8>, KafkaError> {
    match spec_frame_length(input, max_len) {
        Err(e) => Err(e),
        Ok(n) => if input.len() - LENGTH_PREFIX_LEN < n {
            Err(KafkaError::Truncated)
        } else {
            Ok(input.subrange(LENGTH_PREFIX_LEN as int, LENGTH_PREFIX_LEN + n))
        },
    }
}

/// What is left of `input` after an attempt to read a frame. A refused
/// length leaves the bytes behind the prefix untouched.
pub open spec fn rest_after_frame(input: Seq<u8>, max_len: i32) -> Seq<u8> {
    match spec_frame_length(input, max_len) {
        Err(_) => rest_after(input, LENGTH_PREFIX_LEN as int),
        Ok(n) => rest_after(input.skip(LENGTH_PREFIX_LEN as int), n as int),
    }
}

/// A payload behind its length prefix.
pub open spec fn frame_bytes(payload: Seq<u8>) -> Seq<u8> {
    int32_to_be(payload.len() as i32) + payload
}

/// The outcome of reading a frame, with the payload taken as a sequence.
pub open spec fn frame_outcome(r: Result<&[u8], KafkaError>) -> Result<Seq<u8>, KafkaError> {
    match r {
        Ok(payload) => Ok(payload@),
        Err(e) => Err(e),
    }
}

/// Decodes and checks the payload length in a length prefix.
pub fn frame_length(prefix: &[u8], max_len: i32) -> (r: Result<usize, KafkaError>)
    ensures
        r == spec_frame_length(prefix@, max_len),
{
    if prefix.len() < LENGTH_PREFIX_LEN {
        return Err(KafkaError::Truncated);
    }
    let n = decode_int32(prefix[0], prefix[1], prefix[2], prefix[3]);
    if n <= 0 || n > max_len {
        Err(KafkaError::InvalidMessageLength(n))
    } else {
        Ok(n as usize)
    }
}

/// Reads one frame and returns its payload, header and body not yet told
/// apart. Nothing of the payload is read when the length is refused.
pub fn read_frame<'a>(cursor: &mut Cursor<'a>, max_len: i32) -> (r: Result<&'a [u8], KafkaError>)
    ensures
        final(cursor).data() == old(cursor).data(),
        final(cursor).in_bounds(),
        final(cursor).remaining() == rest_after_frame(old(cursor).remaining(), max_len),
        frame_outcome(r) == spec_read_frame(old(cursor).remaining(), max_len),
{
    let prefix = match cursor.read_bytes(LENGTH_PREFIX_LEN) {
        Ok(prefix) => prefix,
        Err(e) => {
            return Err(e);
        },
    };
    let n = match frame_length(prefix, max_len) {
        Ok(n) => n,
        Err(e) => {
            return Err(e);
        },
    };
    match cursor.read_bytes(n) {
        Ok(payload) => {
            assert(payload@ =~= old(cursor).remaining().subrange(
                LENGTH_PREFIX_LEN as int,
                LENGTH_PREFIX_LEN + n,
            ));
            Ok(payload)
        },
        Err(e) => Err(e),
    }
}

/// Puts the length prefix in front of `payload`.
pub fn frame_message(payload: &[u8]) -> (framed: Vec<u8>)
    requires
        payload@.len() <= i32::MAX,
    ensures
        framed@ == frame_bytes(payload@),
{
    let mut out: Vec<u8> = Vec::new();
    put_int32(&mut out, payload.len() as i32);
    let ghost head = out@;
    let mut i: usize = 0;
    while i < payload.len()
        invariant
            i <= payload@.len(),
            out@ == head + payload@.take(i as int),
        decreases payload@.len() - i,
    {
        out.push(payload[i]);
        i += 1;
    }
    out
}

/// Reading a framed payload gives the payload back, whatever follows the
/// frame, as long as the payload is not empty and within the limit.
pub proof fn lemma_read_framed(payload: Seq<u8>, rest: Seq<u8>, max_len: i32)
    requires
        0 < payload.len() <= max_len,
    ensures
        spec_read_frame(frame_bytes(payload) + rest, max_len) == Ok::<Seq<u8>, KafkaError>(
            payload,
        ),
        rest_after_frame(frame_bytes(payload) + rest, max_len) == rest,
{
    let input = frame_bytes(payload) + rest;
    lemma_int32_round_trip(payload.len() as i32);
    assert(input.subrange(LENGTH_PREFIX_LEN as int, LENGTH_PREFIX_LEN + payload.len()) =~= payload);
}

/// A length that is zero or negative is refused, whatever the limit.
pub proof fn lemma_nonpositive_length_refused(prefix: Seq<u8>, max_len: i32)
    requires
        prefix.len() >= LENGTH_PREFIX_LEN,
        int32_from_be(prefix[0], prefix[1], prefix[2], prefix[3]) <= 0,
    ensures
        spec_frame_length(prefix, max_len) == Err::<usize, KafkaError>(
            KafkaError::InvalidMessageLength(
                int32_from_be(prefix[0], prefix[1], prefix[2], prefix[3]),
            ),
        ),
        spec_read_frame(prefix, max_len) == Err::<Seq<u8>, KafkaError>(
            KafkaError::InvalidMessageLength(
                int32_from_be(prefix[0], prefix[1], prefix[2], prefix[3]),
            ),
        ),
        rest_after_frame(prefix, max_len) == prefix.skip(LENGTH_PREFIX_LEN as int),
{
}

} // verus!
