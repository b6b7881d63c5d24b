//! The decision on a request: accept it, or refuse it with a code.

use crate::error::KafkaError;
use crate::header::{HeaderView, RequestHeader};
use crate::registry::{find_api, lookup, registry, supported_apis, ApiKeyVersionInfo};
use crate::response::{Response, ResponseView};
use vstd::prelude::*;

verus! {

/// The decision on `header` against `table`. A key that the table does not
/// hold is refused as such. A version outside the range of its key, the two
/// ends of which count as inside, is refused as such. Otherwise the request
/// is accepted, and the response carries the whole table.
pub open spec fn spec_negotiate(header: HeaderView, table: Seq<ApiKeyVersionInfo>) -> Result<
    ResponseView,
    KafkaError,
> {
    match find_api(table, header.api_key) {
        None => Err(KafkaError::UnsupportedApiKey(header.api_key)),
        Some(entry) => if entry.min <= header.api_version <= entry.max {
            Ok(
                ResponseView::ApiVersionsOk {
                    correlation_id: header.correlation_id,
                    supported: table,
                },
            )
        } else {
            Err(KafkaError::UnsupportedApiVersion(header.api_version))
        },
    }
}

/// The response owed to `header`: the accepted one, or a refusal that echoes
/// the correlation id and carries the code of the failure.
pub open spec fn spec_respond(header: HeaderView) -> ResponseView {
    match spec_negotiate(header, registry()) {
        Ok(response) => response,
        Err(e) => ResponseView::Error {
            correlation_id: header.correlation_id,
            error_code: e.spec_error_code(),
        },
    }
}

/// The outcome of a negotiation, with the response taken by its view.
pub open spec fn negotiation_outcome(r: Result<Response, KafkaError>) -> Result<
    ResponseView,
    KafkaError,
> {
    match r {
        Ok(response) => Ok(response@),
        Err(e) => Err(e),
    }
}

/// Decides on `header` against `table`.
pub fn negotiate_with(header: &RequestHeader, table: Vec<ApiKeyVersionInfo>) -> (r: Result<
    Response,
    KafkaError,
>)
    ensures
        negotiation_outcome(r) == spec_negotiate(header@, table@),
{
    match lookup(&table, header.api_key) {
        None => Err(KafkaError::UnsupportedApiKey(header.api_key)),
        Some(entry) => {
            if entry.min <= header.api_version && header.api_version <= entry.max {
                Ok(
                    Response::ApiVersionsOk {
                        correlation_id: header.correlation_id,
                        supported: table,
                    },
                )
            } else {
                Err(KafkaError::UnsupportedApiVersion(header.api_version))
            }
        },
    }
}

/// Decides on `header` against the table that this library serves.
pub fn negotiate(header: &RequestHeader) -> (r: Result<Response, KafkaError>)
    ensures
        negotiation_outcome(r) == spec_negotiate(header@, registry()),
{
    negotiate_with(header, supported_apis())
}

/// Builds the response owed to `header`. A refused request still gets a
/// response: the refusal itself.
pub fn respond(header: &RequestHeader) -> (response: Response)
    ensures
        response@ == spec_respond(header@),
        response@.encodable(),
{
    match negotiate(header) {
        Ok(response) => response,
        Err(e) => Response::Error {
            correlation_id: header.correlation_id,
            error_code: e.error_code(),
        },
    }
}

} // verus!
