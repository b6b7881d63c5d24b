//! Wire error codes and the library's failure kinds.

use vstd::prelude::*;

verus! {

/// The closed set of error codes that may appear on the wire.
#[derive(Clone, Copy, Debug, PartialEq, Eq, Structural)]
pub enum ErrorCode {
    UnknownServerError,
    NoError,
    CorruptMessage,
    UnsupportedVersion,
    InvalidRequest,
}

impl ErrorCode {
    /// The fixed 16-bit integer that stands for this code on the wire.
    pub open spec fn spec_code(self) -> i16 {
        match self {
            ErrorCode::UnknownServerError => -1i16,
            ErrorCode::NoError => 0,
            ErrorCode::CorruptMessage => 2,
            ErrorCode::UnsupportedVersion => 35,
            ErrorCode::InvalidRequest => 42,
        }
    }

    /// Returns the wire integer of this code.
    #[verifier::when_used_as_spec(spec_code)]
    pub fn code(self) -> (c: i16)
        ensures
            c == self.spec_code(),
    {
        match self {
            ErrorCode::UnknownServerError => -1,
            ErrorCode::NoError => 0,
            ErrorCode::CorruptMessage => 2,
            ErrorCode::UnsupportedVersion => 35,
            ErrorCode::InvalidRequest => 42,
        }
    }
}

/// Every way in which the library can fail to serve a request.
#[derive(Clone, Copy, Debug, PartialEq, Eq, Structural)]
pub enum KafkaError {
    /// The transport failed while reading or writing.
    Transport,
    /// Fewer bytes were available than the format calls for.
    Truncated,
    /// A frame announced a length that is not positive or exceeds the limit.
    InvalidMessageLength(i32),
    /// A nullable string announced a negative length other than -1.
    InvalidStringLength(i16),
    /// The bytes of a string are not valid UTF-8.
    InvalidUtf8,
    /// The request names an API key that the registry does not hold.
    UnsupportedApiKey(i16),
    /// The request names a version outside the range supported for its key.
    UnsupportedApiVersion(i16),
}

impl KafkaError {
    /// The one wire code that stands for this failure.
    pub open spec fn spec_error_code(self) -> ErrorCode {
        match self {
            KafkaError::Transport => ErrorCode::UnknownServerError,
            KafkaError::Truncated => ErrorCode::CorruptMessage,
            KafkaError::InvalidMessageLength(_) => ErrorCode::CorruptMessage,
            KafkaError::InvalidStringLength(_) => ErrorCode::CorruptMessage,
            KafkaError::InvalidUtf8 => ErrorCode::CorruptMessage,
            KafkaError::UnsupportedApiKey(_) => ErrorCode::InvalidRequest,
            KafkaError::UnsupportedApiVersion(_) => ErrorCode::UnsupportedVersion,
        }
    }

    /// Maps the failure to its wire code. The detail carried by the failure
    /// (an offending length, key or version) never reaches the wire.
    #[verifier::when_used_as_spec(spec_error_code)]
    pub fn error_code(self) -> (c: ErrorCode)
        ensures
            c == self.spec_error_code(),
    {
        match self {
            KafkaError::Transport => ErrorCode::UnknownServerError,
            KafkaError::Truncated => ErrorCode::CorruptMessage,
            KafkaError::InvalidMessageLength(_) => ErrorCode::CorruptMessage,
            KafkaError::InvalidStringLength(_) => ErrorCode::CorruptMessage,
            KafkaError::InvalidUtf8 => ErrorCode::CorruptMessage,
            KafkaError::UnsupportedApiKey(_) => ErrorCode::InvalidRequest,
            KafkaError::UnsupportedApiVersion(_) => ErrorCode::UnsupportedVersion,
        }
    }
}

} // verus!
