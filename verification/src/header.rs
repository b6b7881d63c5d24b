//! The header that opens every request.

use crate::bigendian::{
    decode_int32, int16_from_be, int16_to_be, int32_from_be, int32_to_be, lemma_int16_round_trip,
    lemma_int32_round_trip, put_int16, put_int32,
};
use crate::error::KafkaError;
use crate::readers::{
    read_int16, read_int32, read_nullable_string, spec_read_nullable_string, Cursor,
};
use vstd::prelude::*;
use vstd::utf8::{encode_utf8, encode_utf8_decode_utf8, encode_utf8_valid_utf8};

verus! {

/// The header common to all requests. It is decoded once per frame and not
/// changed afterwards.
#[derive(Clone, Debug, PartialEq, Eq)]
pub struct RequestHeader {
    pub api_key: i16,
    pub api_version: i16,
    pub correlation_id: i32,
    pub client_id: Option<String>,
}

/// What a [`RequestHeader`] stands for: the client id is taken by its
/// characters.
pub struct HeaderView {
    pub api_key: i16,
    pub api_version: i16,
    pub correlation_id: i32,
    pub client_id: Option<Seq<char>>,
}

impl View for RequestHeader {
    type V = HeaderView;

    open spec fn view(&self) -> HeaderView {
        HeaderView {
            api_key: self.api_key,
            api_version: self.api_version,
            correlation_id: self.correlation_id,
            client_id: match self.client_id {
                Some(s) => Some(s@),
                None => None,
            },
        }
    }
}

impl HeaderView {
    /// Whether the client id, if there is one, is short enough for its
    /// 16-bit length field.
    pub open spec fn encodable(self) -> bool {
        self.client_id matches Some(chars) ==> encode_utf8(chars).len() <= i16::MAX
    }
}

/// The number of bytes before the client id: key, version and correlation id.
pub const FIXED_HEADER_LEN: usize = 8;

/// The header at the front of `frame`: key, version and correlation id as
/// big-endian integers, then the client id as a nullable string. What follows
/// the header is not looked at.
pub open spec fn spec_parse_header(frame: Seq<u8>) -> Result<HeaderView, KafkaError> {
    if frame.len() < FIXED_HEADER_LEN {
        Err(KafkaError::Truncated)
    } else {
        match spec_read_nullable_string(frame.skip(FIXED_HEADER_LEN as int)) {
            Ok(client_id) => Ok(
                HeaderView {
                    api_key: int16_from_be(frame[0], frame[1]),
                    api_version: int16_from_be(frame[2], frame[3]),
                    correlation_id: int32_from_be(frame[4], frame[5], frame[6], frame[7]),
                    client_id,
                },
            ),
            Err(e) => Err(e),
        }
    }
}

/// The correlation id of `frame`, which can be told as soon as the frame
/// holds the eight fixed bytes, whatever becomes of the client id.
pub open spec fn spec_correlation_id(frame: Seq<u8>) -> Option<i32> {
    if frame.len() < FIXED_HEADER_LEN {
        None
    } else {
        Some(int32_from_be(frame[4], frame[5], frame[6], frame[7]))
    }
}

/// The bytes of a nullable string: the length -1 for an absent one, else the
/// number of bytes of the UTF-8 encoding and the encoding itself.
pub open spec fn encode_nullable_string(s: Option<Seq<char>>) -> Seq<u8> {
    match s {
        None => int16_to_be(-1i16),
        Some(chars) => int16_to_be(encode_utf8(chars).len() as i16) + encode_utf8(chars),
    }
}

/// The bytes of a header.
pub open spec fn encode_header(header: HeaderView) -> Seq<u8> {
    int16_to_be(header.api_key) + int16_to_be(header.api_version) + int32_to_be(
        header.correlation_id,
    ) + encode_nullable_string(header.client_id)
}

/// The outcome of parsing, with the header taken by its view.
pub open spec fn header_outcome(r: Result<RequestHeader, KafkaError>) -> Result<
    HeaderView,
    KafkaError,
> {
    match r {
        Ok(header) => Ok(header@),
        Err(e) => Err(e),
    }
}

impl RequestHeader {
    /// Decodes the header at the front of `frame`. Fails as the reads of its
    /// fields fail.
    pub fn parse(frame: &[u8]) -> (r: Result<RequestHeader, KafkaError>)
        ensures
            header_outcome(r) == spec_parse_header(frame@),
    {
        let mut cursor = Cursor::new(frame);
        let api_key = match read_int16(&mut cursor) {
            Ok(v) => v,
            Err(e) => {
                return Err(e);
            },
        };
        let api_version = match read_int16(&mut cursor) {
            Ok(v) => v,
            Err(e) => {
                return Err(e);
            },
        };
        let correlation_id = match read_int32(&mut cursor) {
            Ok(v) => v,
            Err(e) => {
                return Err(e);
            },
        };
        let client_id = match read_nullable_string(&mut cursor) {
            Ok(v) => v,
            Err(e) => {
                return Err(e);
            },
        };
        Ok(RequestHeader { api_key, api_version, correlation_id, client_id })
    }

    /// Reads the correlation id of `frame` without decoding the rest.
    pub fn peek_correlation_id(frame: &[u8]) -> (id: Option<i32>)
        ensures
            id == spec_correlation_id(frame@),
    {
        if frame.len() < FIXED_HEADER_LEN {
            None
        } else {
            Some(decode_int32(frame[4], frame[5], frame[6], frame[7]))
        }
    }

    /// Whether the header can be encoded: a client id of more than 32767
    /// bytes cannot.
    pub fn is_encodable(&self) -> (ok: bool)
        ensures
            ok == self@.encodable(),
    {
        match &self.client_id {
            Some(s) => s.as_str().as_bytes().len() <= 0x7fff,
            None => true,
        }
    }

    /// Serializes the header.
    pub fn encode(&self) -> (bytes: Vec<u8>)
        requires
            self@.encodable(),
        ensures
            bytes@ == encode_header(self@),
    {
        let mut out: Vec<u8> = Vec::new();
        put_int16(&mut out, self.api_key);
        put_int16(&mut out, self.api_version);
        put_int32(&mut out, self.correlation_id);
        match &self.client_id {
            None => {
                put_int16(&mut out, -1);
            },
            Some(s) => {
                let raw = s.as_str().as_bytes();
                put_int16(&mut out, raw.len() as i16);
                let ghost head = out@;
                let mut i: usize = 0;
                while i < raw.len()
                    invariant
                        i <= raw@.len(),
                        out@ == head + raw@.take(i as int),
                    decreases raw@.len() - i,
                {
                    out.push(raw[i]);
                    i += 1;
                }
            },
        }
        out
    }
}

/// Parsing the encoding of a header gives the header back, whatever bytes
/// follow it.
pub proof fn lemma_parse_encoded_header(header: HeaderView, body: Seq<u8>)
    requires
        header.encodable(),
    ensures
        spec_parse_header(encode_header(header) + body) == Ok::<HeaderView, KafkaError>(header),
        spec_correlation_id(encode_header(header) + body) == Some(header.correlation_id),
{
    let frame = encode_header(header) + body;
    lemma_int16_round_trip(header.api_key);
    lemma_int16_round_trip(header.api_version);
    lemma_int32_round_trip(header.correlation_id);
    let tail = encode_nullable_string(header.client_id) + body;
    assert(frame.skip(FIXED_HEADER_LEN as int) =~= tail);
    match header.client_id {
        None => {
            lemma_int16_round_trip(-1i16);
        },
        Some(chars) => {
            let raw = encode_utf8(chars);
            lemma_int16_round_trip(raw.len() as i16);
            encode_utf8_valid_utf8(chars);
            encode_utf8_decode_utf8(chars);
            assert(tail.subrange(2, 2 + raw.len() as int) =~= raw);
        },
    }
}

} // verus!
