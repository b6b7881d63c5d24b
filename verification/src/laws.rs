//! What holds of the library as a whole, proved from the definitions that
//! the contracts of its functions use.

use crate::bigendian::{int16_to_be, int32_from_be, int32_to_be, lemma_int32_round_trip};
use crate::connection::{
    spec_handle_frame, spec_reply, spec_step, ActionView, ConnectionState, EventView,
};
use crate::error::{ErrorCode, KafkaError};
use crate::frame::{frame_bytes, lemma_read_framed, spec_read_frame, LENGTH_PREFIX_LEN};
use crate::header::{
    encode_header, lemma_parse_encoded_header, spec_correlation_id, spec_parse_header, HeaderView,
};
use crate::negotiator::spec_respond;
use crate::registry::{lemma_registry_keys, registry, ApiKeyVersionInfo};
use crate::response::{
    encode_entries, encode_entry, encode_response, lemma_encode_response_len, ResponseView,
};
use vstd::prelude::*;

verus! {

/// Whether the table that this library serves holds `key`.
pub open spec fn is_supported_key(key: i16) -> bool {
    key == 17 || key == 18 || key == 19
}

/// Whether `version` lies in the range served for every supported key.
pub open spec fn is_supported_version(version: i16) -> bool {
    0 <= version <= 4
}

/// The twenty-one bytes of the three table entries on the wire.
pub open spec fn registry_bytes() -> Seq<u8> {
    seq![0u8, 17, 0, 0, 0, 4, 0, 0, 18, 0, 0, 0, 4, 0, 0, 19, 0, 0, 0, 4, 0]
}

/// The table on the wire is its three entries, in table order.
pub proof fn lemma_registry_bytes()
    ensures
        encode_entries(registry()) == registry_bytes(),
{
    let table = registry();
    let one = table.drop_last().drop_last();
    let two = table.drop_last();
    assert(encode_entries(one.drop_last()) =~= Seq::<u8>::empty());
    assert(encode_entries(one) =~= encode_entry(table[0]));
    assert(encode_entries(two) =~= encode_entry(table[0]) + encode_entry(table[1]));
    assert(encode_entries(table) =~= encode_entry(table[0]) + encode_entry(table[1])
        + encode_entry(table[2]));
}

/// A request for a supported key in a supported version is accepted: the
/// response carries the code 0 and the whole table, its three entries in
/// table order, and nothing else but the fixed trailer.
pub proof fn lemma_supported_request_accepted(frame: Seq<u8>, header: HeaderView)
    requires
        spec_parse_header(frame) == Ok::<HeaderView, KafkaError>(header),
        is_supported_key(header.api_key),
        is_supported_version(header.api_version),
    ensures
        spec_reply(frame) == Some(
            ResponseView::ApiVersionsOk {
                correlation_id: header.correlation_id,
                supported: registry(),
            },
        ),
        spec_reply(frame).unwrap().error_code().spec_code() == 0,
        encode_response(spec_reply(frame).unwrap()) == int32_to_be(header.correlation_id)
            + seq![0u8, 0, 4] + registry_bytes() + seq![0u8, 0, 0, 0, 0],
        spec_handle_frame(frame) == Some(
            frame_bytes(encode_response(spec_reply(frame).unwrap())),
        ),
{
    lemma_registry_keys(header.api_key);
    lemma_registry_bytes();
    let response = spec_reply(frame).unwrap();
    assert(encode_response(response) =~= int32_to_be(header.correlation_id) + seq![0u8, 0, 4]
        + registry_bytes() + seq![0u8, 0, 0, 0, 0]);
}

/// A request for a supported key in a version that is not served is refused
/// with the code 35, and the response holds nothing but the correlation id
/// and that code.
pub proof fn lemma_unsupported_version_refused(frame: Seq<u8>, header: HeaderView)
    requires
        spec_parse_header(frame) == Ok::<HeaderView, KafkaError>(header),
        is_supported_key(header.api_key),
        !is_supported_version(header.api_version),
    ensures
        spec_reply(frame) == Some(
            ResponseView::Error {
                correlation_id: header.correlation_id,
                error_code: ErrorCode::UnsupportedVersion,
            },
        ),
        spec_reply(frame).unwrap().error_code().spec_code() == 35,
        encode_response(spec_reply(frame).unwrap()) == int32_to_be(header.correlation_id)
            + seq![0u8, 35],
        encode_response(spec_reply(frame).unwrap()).len() == 6,
{
    lemma_registry_keys(header.api_key);
    lemma_encode_response_len(spec_reply(frame).unwrap());
}

/// A request for a key that the table does not hold is refused with the code
/// 42, whatever its version.
pub proof fn lemma_unsupported_key_refused(frame: Seq<u8>, header: HeaderView)
    requires
        spec_parse_header(frame) == Ok::<HeaderView, KafkaError>(header),
        !is_supported_key(header.api_key),
    ensures
        spec_reply(frame) == Some(
            ResponseView::Error {
                correlation_id: header.correlation_id,
                error_code: ErrorCode::InvalidRequest,
            },
        ),
        spec_reply(frame).unwrap().error_code().spec_code() == 42,
        encode_response(spec_reply(frame).unwrap()) == int32_to_be(header.correlation_id)
            + seq![0u8, 42],
{
    lemma_registry_keys(header.api_key);
}

/// A header that is encoded, framed and read back is the header that went
/// in: key, version, correlation id and client id alike.
pub proof fn lemma_frame_round_trip(
    header: HeaderView,
    body: Seq<u8>,
    rest: Seq<u8>,
    max_frame_len: i32,
)
    requires
        header.encodable(),
        (encode_header(header) + body).len() <= max_frame_len,
    ensures
        spec_read_frame(frame_bytes(encode_header(header) + body) + rest, max_frame_len) == Ok::<
            Seq<u8>,
            KafkaError,
        >(encode_header(header) + body),
        spec_parse_header(encode_header(header) + body) == Ok::<HeaderView, KafkaError>(header),
{
    lemma_parse_encoded_header(header, body);
    lemma_read_framed(encode_header(header) + body, rest, max_frame_len);
}

/// A length prefix of zero or less closes the connection with
/// `InvalidMessageLength`: no read of a payload is asked for.
pub proof fn lemma_nonpositive_length_closes(
    keep_alive: bool,
    max_frame_len: i32,
    prefix: Seq<u8>,
)
    requires
        prefix.len() >= LENGTH_PREFIX_LEN,
        int32_from_be(prefix[0], prefix[1], prefix[2], prefix[3]) <= 0,
    ensures
        spec_step(
            keep_alive,
            max_frame_len,
            ConnectionState::ReadingLength,
            EventView::Data(prefix),
        ) == (
            ConnectionState::Closed,
            ActionView::Close {
                error: Some(
                    KafkaError::InvalidMessageLength(
                        int32_from_be(prefix[0], prefix[1], prefix[2], prefix[3]),
                    ),
                ),
            },
        ),
{
}

/// Whether two payloads are the same request but for the correlation id,
/// which takes the bytes four to seven.
pub open spec fn same_but_for_correlation_id(first: Seq<u8>, second: Seq<u8>) -> bool {
    &&& first.len() == second.len()
    &&& forall|i: int| 0 <= i < first.len() && !(4 <= i < 8) ==> first[i] == second[i]
}

/// On a connection that is kept alive, a request that could be decoded is
/// answered and leaves the connection waiting for the next frame, as it was
/// before. The same request sent again is therefore answered in the same
/// way: the two responses have the same length and the same bytes, but for
/// the correlation id that each of them echoes.
pub proof fn lemma_repeated_request(max_frame_len: i32, first: Seq<u8>, second: Seq<u8>)
    requires
        0 < first.len() <= max_frame_len,
        spec_parse_header(first) is Ok,
        same_but_for_correlation_id(first, second),
    ensures
        spec_step(
            true,
            max_frame_len,
            ConnectionState::ReadingLength,
            EventView::Data(int32_to_be(first.len() as i32)),
        ) == (
            ConnectionState::ReadingPayload { len: first.len() as usize },
            ActionView::Read { len: first.len() as usize },
        ),
        spec_handle_frame(first) is Some,
        spec_handle_frame(second) is Some,
        spec_step(
            true,
            max_frame_len,
            ConnectionState::ReadingPayload { len: first.len() as usize },
            EventView::Data(first),
        ) == (
            ConnectionState::Writing,
            ActionView::Write { bytes: spec_handle_frame(first).unwrap() },
        ),
        spec_step(true, max_frame_len, ConnectionState::Writing, EventView::Written) == (
            ConnectionState::ReadingLength,
            ActionView::Read { len: LENGTH_PREFIX_LEN },
        ),
        spec_step(
            true,
            max_frame_len,
            ConnectionState::ReadingPayload { len: second.len() as usize },
            EventView::Data(second),
        ) == (
            ConnectionState::Writing,
            ActionView::Write { bytes: spec_handle_frame(second).unwrap() },
        ),
        same_but_for_correlation_id(
            spec_handle_frame(first).unwrap(),
            spec_handle_frame(second).unwrap(),
        ),
        spec_handle_frame(first).unwrap().subrange(4, 8) == int32_to_be(
            spec_correlation_id(first).unwrap(),
        ),
        spec_handle_frame(second).unwrap().subrange(4, 8) == int32_to_be(
            spec_correlation_id(second).unwrap(),
        ),
        spec_correlation_id(first) == spec_correlation_id(second) ==> spec_handle_frame(first)
            == spec_handle_frame(second),
{
    lemma_int32_round_trip(first.len() as i32);
    assert(first.take(first.len() as int) =~= first);
    assert(second.take(second.len() as int) =~= second);
    assert(first.skip(8) =~= second.skip(8));
    let one = spec_respond(spec_parse_header(first).unwrap());
    let two = spec_respond(spec_parse_header(second).unwrap());
    lemma_encode_response_len(one);
    lemma_encode_response_len(two);
    let x = frame_bytes(encode_response(one));
    let y = frame_bytes(encode_response(two));
    assert forall|i: int| 0 <= i < x.len() && !(4 <= i < 8) implies x[i] == y[i] by {}
}

} // verus!
