//! Responses and their byte layout.

use crate::bigendian::{int16_to_be, int32_to_be, put_int16, put_int32};
use crate::error::ErrorCode;
use crate::registry::ApiKeyVersionInfo;
use vstd::prelude::*;

verus! {

/// The largest number of entries whose count, plus one, still fits the single
/// length byte of a compact array.
pub const MAX_SUPPORTED_ENTRIES: usize = 254;

/// A response, built afresh for each request.
#[derive(Clone, Debug, PartialEq, Eq)]
pub enum Response {
    /// The request was accepted: the whole table of supported APIs follows.
    ApiVersionsOk { correlation_id: i32, supported: Vec<ApiKeyVersionInfo> },
    /// The request was refused with the given code.
    Error { correlation_id: i32, error_code: ErrorCode },
}

/// What a [`Response`] stands for.
pub enum ResponseView {
    ApiVersionsOk { correlation_id: i32, supported: Seq<ApiKeyVersionInfo> },
    Error { correlation_id: i32, error_code: ErrorCode },
}

impl View for Response {
    type V = ResponseView;

    open spec fn view(&self) -> ResponseView {
        match self {
            Response::ApiVersionsOk { correlation_id, supported } => ResponseView::ApiVersionsOk {
                correlation_id: *correlation_id,
                supported: supported@,
            },
            Response::Error { correlation_id, error_code } => ResponseView::Error {
                correlation_id: *correlation_id,
                error_code: *error_code,
            },
        }
    }
}

impl ResponseView {
    /// The correlation id that the response echoes.
    pub open spec fn correlation_id(self) -> i32 {
        match self {
            ResponseView::ApiVersionsOk { correlation_id, .. } => correlation_id,
            ResponseView::Error { correlation_id, .. } => correlation_id,
        }
    }

    /// The error code that the response carries; a success carries `NoError`.
    pub open spec fn error_code(self) -> ErrorCode {
        match self {
            ResponseView::ApiVersionsOk { .. } => ErrorCode::NoError,
            ResponseView::Error { error_code, .. } => error_code,
        }
    }

    /// Whether the number of entries fits the length byte of the layout.
    pub open spec fn encodable(self) -> bool {
        match self {
            ResponseView::ApiVersionsOk { supported, .. } => supported.len()
                <= MAX_SUPPORTED_ENTRIES,
            ResponseView::Error { .. } => true,
        }
    }
}

/// The seven bytes of one table entry: key, lowest and highest version, and
/// an empty tag buffer.
pub open spec fn encode_entry(entry: ApiKeyVersionInfo) -> Seq<u8> {
    int16_to_be(entry.id) + int16_to_be(entry.min) + int16_to_be(entry.max) + seq![0u8]
}

/// The entries of a table, encoded one after the other in table order.
pub open spec fn encode_entries(entries: Seq<ApiKeyVersionInfo>) -> Seq<u8>
    decreases entries.len(),
{
    if entries.len() == 0 {
        Seq::empty()
    } else {
        encode_entries(entries.drop_last()) + encode_entry(entries.last())
    }
}

/// The body of a response, without a length prefix.
///
/// A success is the correlation id, the code 0, the number of entries plus
/// one in a single byte, the entries, a throttle time of zero and an empty
/// tag buffer. A refusal is the correlation id and the code, nothing more.
pub open spec fn encode_response(response: ResponseView) -> Seq<u8> {
    match response {
        ResponseView::ApiVersionsOk { correlation_id, supported } => int32_to_be(correlation_id)
            + int16_to_be(ErrorCode::NoError.spec_code()) + seq![(supported.len() + 1) as u8]
            + encode_entries(supported) + int32_to_be(0) + seq![0u8],
        ResponseView::Error { correlation_id, error_code } => int32_to_be(correlation_id)
            + int16_to_be(error_code.spec_code()),
    }
}

/// The number of bytes of a response body.
pub open spec fn encoded_len(response: ResponseView) -> nat {
    match response {
        ResponseView::ApiVersionsOk { supported, .. } => 12 + 7 * supported.len(),
        ResponseView::Error { .. } => 6,
    }
}

/// Encoding one entry more appends its seven bytes.
pub proof fn lemma_encode_entries_push(entries: Seq<ApiKeyVersionInfo>, entry: ApiKeyVersionInfo)
    ensures
        encode_entries(entries.push(entry)) == encode_entries(entries) + encode_entry(entry),
{
    assert(entries.push(entry).drop_last() =~= entries);
}

/// The entries of a table take seven bytes each.
pub proof fn lemma_encode_entries_len(entries: Seq<ApiKeyVersionInfo>)
    ensures
        encode_entries(entries).len() == 7 * entries.len(),
    decreases entries.len(),
{
    if entries.len() > 0 {
        lemma_encode_entries_len(entries.drop_last());
    }
}

/// A response body has the length that its kind and table size give.
pub proof fn lemma_encode_response_len(response: ResponseView)
    ensures
        encode_response(response).len() == encoded_len(response),
{
    match response {
        ResponseView::ApiVersionsOk { supported, .. } => {
            lemma_encode_entries_len(supported);
        },
        ResponseView::Error { .. } => {},
    }
}

impl Response {
    /// The correlation id that the response echoes.
    pub fn correlation_id(&self) -> (id: i32)
        ensures
            id == self@.correlation_id(),
    {
        match self {
            Response::ApiVersionsOk { correlation_id, .. } => *correlation_id,
            Response::Error { correlation_id, .. } => *correlation_id,
        }
    }

    /// The error code that the response carries; a success carries `NoError`.
    pub fn error_code(&self) -> (code: ErrorCode)
        ensures
            code == self@.error_code(),
    {
        match self {
            Response::ApiVersionsOk { .. } => ErrorCode::NoError,
            Response::Error { error_code, .. } => *error_code,
        }
    }

    /// Serializes the response body. The length prefix of the frame is not
    /// part of it.
    pub fn encode(&self) -> (bytes: Vec<u8>)
        requires
            self@.encodable(),
        ensures
            bytes@ == encode_response(self@),
            bytes@.len() == encoded_len(self@),
    {
        let mut out: Vec<u8> = Vec::new();
        proof {
            lemma_encode_response_len(self@);
        }
        match self {
            Response::ApiVersionsOk { correlation_id, supported } => {
                put_int32(&mut out, *correlation_id);
                put_int16(&mut out, ErrorCode::NoError.code());
                let n = supported.len();
                out.push((n + 1) as u8);
                let ghost head = out@;
                let mut i: usize = 0;
                while i < n
                    invariant
                        i <= n,
                        n == supported@.len(),
                        out@ == head + encode_entries(supported@.take(i as int)),
                    decreases n - i,
                {
                    let entry = supported[i];
                    put_int16(&mut out, entry.id);
                    put_int16(&mut out, entry.min);
                    put_int16(&mut out, entry.max);
                    out.push(0);
                    proof {
                        lemma_encode_entries_push(supported@.take(i as int), entry);
                        assert(supported@.take(i as int).push(entry) =~= supported@.take(
                            i as int + 1,
                        ));
                    }
                    i += 1;
                }
                assert(supported@.take(n as int) =~= supported@);
                put_int32(&mut out, 0);
                out.push(0);
            },
            Response::Error { correlation_id, error_code } => {
                put_int32(&mut out, *correlation_id);
                put_int16(&mut out, error_code.code());
            },
        }
        out
    }
}

} // verus!
