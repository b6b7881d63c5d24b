use kafka_wire::connection::{handle_frame, reply_to};
use kafka_wire::error::{ErrorCode, KafkaError};
use kafka_wire::frame::{frame_length, frame_message, read_frame, MAX_FRAME_LEN};
use kafka_wire::header::RequestHeader;
use kafka_wire::negotiator::{negotiate, negotiate_with, respond};
use kafka_wire::readers::Cursor;
use kafka_wire::registry::{lookup, supported_apis, ApiKeyVersionInfo};
use kafka_wire::response::Response;

fn header(api_key: i16, api_version: i16, correlation_id: i32) -> RequestHeader {
    RequestHeader { api_key, api_version, correlation_id, client_id: None }
}

fn table() -> Vec<ApiKeyVersionInfo> {
    vec![
        ApiKeyVersionInfo { id: 17, min: 0, max: 4 },
        ApiKeyVersionInfo { id: 18, min: 0, max: 4 },
        ApiKeyVersionInfo { id: 19, min: 0, max: 4 },
    ]
}

const ACCEPTED_BODY: [u8; 33] = [
    0x6f, 0x7f, 0xc6, 0x61, 0x00, 0x00, 0x04, 0x00, 0x11, 0x00, 0x00, 0x00, 0x04, 0x00, 0x00, 0x12,
    0x00, 0x00, 0x00, 0x04, 0x00, 0x00, 0x13, 0x00, 0x00, 0x00, 0x04, 0x00, 0x00, 0x00, 0x00, 0x00,
    0x00,
];

#[test]
fn error_codes_have_their_wire_values() {
    assert_eq!(ErrorCode::UnknownServerError.code(), -1);
    assert_eq!(ErrorCode::NoError.code(), 0);
    assert_eq!(ErrorCode::CorruptMessage.code(), 2);
    assert_eq!(ErrorCode::UnsupportedVersion.code(), 35);
    assert_eq!(ErrorCode::InvalidRequest.code(), 42);
}

#[test]
fn every_failure_maps_to_one_code() {
    assert_eq!(KafkaError::Transport.error_code(), ErrorCode::UnknownServerError);
    assert_eq!(KafkaError::Truncated.error_code(), ErrorCode::CorruptMessage);
    assert_eq!(KafkaError::InvalidMessageLength(0).error_code(), ErrorCode::CorruptMessage);
    assert_eq!(KafkaError::InvalidStringLength(-2).error_code(), ErrorCode::CorruptMessage);
    assert_eq!(KafkaError::InvalidUtf8.error_code(), ErrorCode::CorruptMessage);
    assert_eq!(KafkaError::UnsupportedApiKey(1).error_code(), ErrorCode::InvalidRequest);
    assert_eq!(KafkaError::UnsupportedApiVersion(9).error_code(), ErrorCode::UnsupportedVersion);
}

#[test]
fn registry_holds_three_entries_in_order() {
    assert_eq!(supported_apis(), table());
}

#[test]
fn lookup_is_by_exact_key() {
    let t = supported_apis();
    assert_eq!(lookup(&t, 17), Some(ApiKeyVersionInfo { id: 17, min: 0, max: 4 }));
    assert_eq!(lookup(&t, 18), Some(ApiKeyVersionInfo { id: 18, min: 0, max: 4 }));
    assert_eq!(lookup(&t, 19), Some(ApiKeyVersionInfo { id: 19, min: 0, max: 4 }));
    assert_eq!(lookup(&t, 16), None);
    assert_eq!(lookup(&t, 20), None);
    assert_eq!(lookup(&t, 75), None);
    assert_eq!(lookup(&t, -1), None);
    assert_eq!(lookup(&Vec::new(), 18), None);
}

#[test]
fn lookup_takes_the_first_match() {
    let t = vec![
        ApiKeyVersionInfo { id: 1, min: 0, max: 1 },
        ApiKeyVersionInfo { id: 2, min: 3, max: 5 },
        ApiKeyVersionInfo { id: 2, min: 7, max: 9 },
    ];
    assert_eq!(lookup(&t, 2), Some(ApiKeyVersionInfo { id: 2, min: 3, max: 5 }));
}

#[test]
fn supported_requests_are_accepted_with_the_whole_table() {
    for key in [17i16, 18, 19] {
        for version in 0i16..=4 {
            let r = negotiate(&header(key, version, 99));
            assert_eq!(
                r,
                Ok(Response::ApiVersionsOk { correlation_id: 99, supported: table() })
            );
            let response = respond(&header(key, version, 99));
            assert_eq!(response.error_code().code(), 0);
            assert_eq!(response.correlation_id(), 99);
        }
    }
}

#[test]
fn unsupported_versions_are_refused_with_35() {
    for key in [17i16, 18, 19] {
        for version in [-1i16, 5, 6, i16::MAX, i16::MIN] {
            assert_eq!(
                negotiate(&header(key, version, 7)),
                Err(KafkaError::UnsupportedApiVersion(version))
            );
            let response = respond(&header(key, version, 7));
            assert_eq!(
                response,
                Response::Error { correlation_id: 7, error_code: ErrorCode::UnsupportedVersion }
            );
            assert_eq!(response.error_code().code(), 35);
            assert_eq!(response.encode().len(), 6);
        }
    }
}

#[test]
fn unsupported_keys_are_refused_with_42() {
    for key in [0i16, 1, 16, 20, 75, -1, i16::MAX, i16::MIN] {
        for version in [-1i16, 0, 4, 5] {
            assert_eq!(
                negotiate(&header(key, version, 7)),
                Err(KafkaError::UnsupportedApiKey(key))
            );
            let response = respond(&header(key, version, 7));
            assert_eq!(
                response,
                Response::Error { correlation_id: 7, error_code: ErrorCode::InvalidRequest }
            );
            assert_eq!(response.error_code().code(), 42);
            assert_eq!(response.encode(), vec![0, 0, 0, 7, 0, 42]);
        }
    }
}

#[test]
fn negotiate_with_a_custom_table() {
    let custom = vec![ApiKeyVersionInfo { id: 75, min: 2, max: 3 }];
    assert_eq!(
        negotiate_with(&header(75, 2, 1), custom.clone()),
        Ok(Response::ApiVersionsOk { correlation_id: 1, supported: custom.clone() })
    );
    assert_eq!(
        negotiate_with(&header(75, 3, 1), custom.clone()),
        Ok(Response::ApiVersionsOk { correlation_id: 1, supported: custom.clone() })
    );
    assert_eq!(
        negotiate_with(&header(75, 1, 1), custom.clone()),
        Err(KafkaError::UnsupportedApiVersion(1))
    );
    assert_eq!(
        negotiate_with(&header(75, 4, 1), custom.clone()),
        Err(KafkaError::UnsupportedApiVersion(4))
    );
    assert_eq!(
        negotiate_with(&header(18, 2, 1), custom),
        Err(KafkaError::UnsupportedApiKey(18))
    );
}

#[test]
fn accepted_response_layout() {
    let response = respond(&header(18, 4, 0x6f7f_c661));
    let body = response.encode();
    assert_eq!(body, ACCEPTED_BODY.to_vec());
    let framed = frame_message(&body);
    assert_eq!(&framed[0..4], &[0x00, 0x00, 0x00, 0x21]);
    assert_eq!(&framed[4..], &ACCEPTED_BODY[..]);
}

#[test]
fn accepted_request_from_bytes() {
    let payload = [0x00u8, 0x12, 0x00, 0x04, 0x6f, 0x7f, 0xc6, 0x61, 0xff, 0xff];
    let framed = handle_frame(&payload).expect("a response is owed");
    let mut expected = vec![0x00u8, 0x00, 0x00, 0x21];
    expected.extend_from_slice(&ACCEPTED_BODY);
    assert_eq!(framed, expected);
}

#[test]
fn unsupported_version_response_is_six_bytes() {
    let response = respond(&header(18, 5, 0x6f7f_c661));
    let framed = frame_message(&response.encode());
    assert_eq!(framed, vec![0x00, 0x00, 0x00, 0x06, 0x6f, 0x7f, 0xc6, 0x61, 0x00, 0x23]);

    let payload = [0x00u8, 0x12, 0x00, 0x05, 0x6f, 0x7f, 0xc6, 0x61, 0xff, 0xff];
    assert_eq!(
        handle_frame(&payload),
        Some(vec![0x00, 0x00, 0x00, 0x06, 0x6f, 0x7f, 0xc6, 0x61, 0x00, 0x23])
    );
}

#[test]
fn empty_and_custom_tables_encode() {
    let empty = Response::ApiVersionsOk { correlation_id: 1, supported: Vec::new() };
    assert_eq!(empty.encode(), vec![0, 0, 0, 1, 0, 0, 1, 0, 0, 0, 0, 0]);
    let one = Response::ApiVersionsOk {
        correlation_id: -1,
        supported: vec![ApiKeyVersionInfo { id: 75, min: -1, max: 258 }],
    };
    assert_eq!(
        one.encode(),
        vec![0xff, 0xff, 0xff, 0xff, 0, 0, 2, 0, 75, 0xff, 0xff, 1, 2, 0, 0, 0, 0, 0, 0]
    );
    let full = Response::ApiVersionsOk {
        correlation_id: 0,
        supported: vec![ApiKeyVersionInfo { id: 1, min: 0, max: 0 }; 254],
    };
    let bytes = full.encode();
    assert_eq!(bytes.len(), 12 + 7 * 254);
    assert_eq!(bytes[6], 255);
}

#[test]
fn error_response_carries_each_code() {
    for (code, wire) in [
        (ErrorCode::UnknownServerError, [0xffu8, 0xff]),
        (ErrorCode::NoError, [0, 0]),
        (ErrorCode::CorruptMessage, [0, 2]),
        (ErrorCode::UnsupportedVersion, [0, 35]),
        (ErrorCode::InvalidRequest, [0, 42]),
    ] {
        let response = Response::Error { correlation_id: 258, error_code: code };
        assert_eq!(response.encode(), vec![0, 0, 1, 2, wire[0], wire[1]]);
        assert_eq!(response.error_code(), code);
    }
}

#[test]
fn header_parse_reads_all_fields() {
    let payload = [0x00u8, 0x12, 0x00, 0x04, 0x6f, 0x7f, 0xc6, 0x61, 0x00, 0x03, b'c', b'l', b'i', 9, 9];
    assert_eq!(
        RequestHeader::parse(&payload),
        Ok(RequestHeader {
            api_key: 18,
            api_version: 4,
            correlation_id: 0x6f7f_c661,
            client_id: Some(String::from("cli")),
        })
    );
    assert_eq!(RequestHeader::peek_correlation_id(&payload), Some(0x6f7f_c661));
}

#[test]
fn header_parse_failures() {
    assert_eq!(RequestHeader::parse(&[]), Err(KafkaError::Truncated));
    assert_eq!(RequestHeader::parse(&[0, 18, 0]), Err(KafkaError::Truncated));
    assert_eq!(RequestHeader::parse(&[0, 18, 0, 4, 0, 0, 0]), Err(KafkaError::Truncated));
    // The eight fixed bytes without a client id field.
    assert_eq!(
        RequestHeader::parse(&[0, 18, 0, 4, 0x6f, 0x7f, 0xc6, 0x61]),
        Err(KafkaError::Truncated)
    );
    assert_eq!(
        RequestHeader::parse(&[0, 18, 0, 4, 0, 0, 0, 7, 0xff, 0xfd]),
        Err(KafkaError::InvalidStringLength(-3))
    );
    assert_eq!(
        RequestHeader::parse(&[0, 18, 0, 4, 0, 0, 0, 7, 0, 2, b'a']),
        Err(KafkaError::Truncated)
    );
    assert_eq!(
        RequestHeader::parse(&[0, 18, 0, 4, 0, 0, 0, 7, 0, 1, 0x80]),
        Err(KafkaError::InvalidUtf8)
    );
    assert_eq!(RequestHeader::peek_correlation_id(&[0, 18, 0, 4, 0, 0, 0]), None);
    assert_eq!(RequestHeader::peek_correlation_id(&[0, 18, 0, 4, 0, 0, 0, 7]), Some(7));
}

#[test]
fn header_round_trip() {
    let headers = [
        header(18, 4, 0x6f7f_c661),
        header(i16::MIN, i16::MAX, i32::MIN),
        header(-1, -1, -1),
        RequestHeader {
            api_key: 17,
            api_version: 0,
            correlation_id: i32::MAX,
            client_id: Some(String::new()),
        },
        RequestHeader {
            api_key: 19,
            api_version: 3,
            correlation_id: 12345,
            client_id: Some(String::from("kafka-cli \u{e9}\u{4e16}\u{1f600}")),
        },
        RequestHeader {
            api_key: 19,
            api_version: 3,
            correlation_id: 12345,
            client_id: Some("x".repeat(32767)),
        },
    ];
    for h in headers {
        assert!(h.is_encodable());
        let bytes = h.encode();
        assert_eq!(RequestHeader::parse(&bytes), Ok(h.clone()));
        let mut with_body = bytes.clone();
        with_body.extend_from_slice(&[1, 2, 3]);
        assert_eq!(RequestHeader::parse(&with_body), Ok(h.clone()));

        let framed = frame_message(&with_body);
        let mut cursor = Cursor::new(&framed);
        let payload = read_frame(&mut cursor, MAX_FRAME_LEN).expect("the frame is whole");
        assert_eq!(payload, &with_body[..]);
        assert_eq!(cursor.remaining_len(), 0);
        assert_eq!(RequestHeader::parse(payload), Ok(h));
    }
}

#[test]
fn header_encode_layout() {
    assert_eq!(
        header(18, 4, 0x6f7f_c661).encode(),
        vec![0x00, 0x12, 0x00, 0x04, 0x6f, 0x7f, 0xc6, 0x61, 0xff, 0xff]
    );
    let h = RequestHeader {
        api_key: 1,
        api_version: 2,
        correlation_id: 3,
        client_id: Some(String::from("ab")),
    };
    assert_eq!(h.encode(), vec![0, 1, 0, 2, 0, 0, 0, 3, 0, 2, b'a', b'b']);
}

#[test]
fn too_long_client_id_is_not_encodable() {
    let h = RequestHeader {
        api_key: 1,
        api_version: 2,
        correlation_id: 3,
        client_id: Some("x".repeat(32768)),
    };
    assert!(!h.is_encodable());
}

#[test]
fn frame_length_bounds() {
    assert_eq!(frame_length(&[0, 0, 0, 0], MAX_FRAME_LEN), Err(KafkaError::InvalidMessageLength(0)));
    assert_eq!(
        frame_length(&[0xff, 0xff, 0xff, 0xff], MAX_FRAME_LEN),
        Err(KafkaError::InvalidMessageLength(-1))
    );
    assert_eq!(
        frame_length(&[0x80, 0, 0, 0], MAX_FRAME_LEN),
        Err(KafkaError::InvalidMessageLength(i32::MIN))
    );
    assert_eq!(frame_length(&[0, 0, 0, 1], MAX_FRAME_LEN), Ok(1));
    assert_eq!(frame_length(&[0, 0, 0, 0x23], MAX_FRAME_LEN), Ok(35));
    // 1_000_000 is 0x000f4240.
    assert_eq!(frame_length(&[0x00, 0x0f, 0x42, 0x40], MAX_FRAME_LEN), Ok(1_000_000));
    assert_eq!(
        frame_length(&[0x00, 0x0f, 0x42, 0x41], MAX_FRAME_LEN),
        Err(KafkaError::InvalidMessageLength(1_000_001))
    );
    assert_eq!(frame_length(&[0, 0, 0, 9], 8), Err(KafkaError::InvalidMessageLength(9)));
    assert_eq!(frame_length(&[0, 0, 0, 8], 8), Ok(8));
    assert_eq!(frame_length(&[0, 0, 0, 8], 0), Err(KafkaError::InvalidMessageLength(8)));
    assert_eq!(frame_length(&[0, 0, 0], MAX_FRAME_LEN), Err(KafkaError::Truncated));
    assert_eq!(frame_length(&[], MAX_FRAME_LEN), Err(KafkaError::Truncated));
    assert_eq!(frame_length(&[0, 0, 0, 2, 9, 9], MAX_FRAME_LEN), Ok(2));
}

#[test]
fn read_frame_returns_the_payload() {
    let input = [0u8, 0, 0, 3, 7, 8, 9, 0, 0, 0, 1, 5, 0xee];
    let mut cursor = Cursor::new(&input);
    assert_eq!(read_frame(&mut cursor, MAX_FRAME_LEN), Ok(&input[4..7]));
    assert_eq!(cursor.position(), 7);
    assert_eq!(read_frame(&mut cursor, MAX_FRAME_LEN), Ok(&input[11..12]));
    assert_eq!(cursor.position(), 12);
    assert_eq!(read_frame(&mut cursor, MAX_FRAME_LEN), Err(KafkaError::Truncated));
}

#[test]
fn read_frame_rejects_bad_lengths_before_the_payload() {
    let input = [0u8, 0, 0, 0, 0, 0x12, 0, 4, 0x6f, 0x7f, 0xc6, 0x61];
    let mut cursor = Cursor::new(&input);
    assert_eq!(
        read_frame(&mut cursor, MAX_FRAME_LEN),
        Err(KafkaError::InvalidMessageLength(0))
    );
    assert_eq!(cursor.position(), 4);

    let input = [0xffu8, 0xff, 0xff, 0xf0, 1, 2, 3];
    let mut cursor = Cursor::new(&input);
    assert_eq!(
        read_frame(&mut cursor, MAX_FRAME_LEN),
        Err(KafkaError::InvalidMessageLength(-16))
    );
    assert_eq!(cursor.position(), 4);

    let input = [0u8, 0, 0, 5, 1, 2, 3, 4, 5];
    let mut cursor = Cursor::new(&input);
    assert_eq!(read_frame(&mut cursor, 4), Err(KafkaError::InvalidMessageLength(5)));
    assert_eq!(cursor.position(), 4);
}

#[test]
fn read_frame_truncated_payload() {
    let input = [0u8, 0, 0, 5, 1, 2, 3, 4];
    let mut cursor = Cursor::new(&input);
    assert_eq!(read_frame(&mut cursor, MAX_FRAME_LEN), Err(KafkaError::Truncated));
    assert_eq!(cursor.remaining_len(), 0);
}

#[test]
fn frame_message_prefixes_the_length() {
    assert_eq!(frame_message(&[]), vec![0, 0, 0, 0]);
    assert_eq!(frame_message(&[9]), vec![0, 0, 0, 1, 9]);
    let payload = vec![7u8; 65_537];
    let framed = frame_message(&payload);
    assert_eq!(&framed[0..4], &[0, 1, 0, 1]);
    assert_eq!(&framed[4..], &payload[..]);
}

#[test]
fn undecodable_header_with_correlation_id_gets_corrupt_message() {
    let truncated_client_id = [0u8, 18, 0, 4, 0, 0, 1, 2];
    assert_eq!(
        reply_to(&truncated_client_id),
        Some(Response::Error { correlation_id: 258, error_code: ErrorCode::CorruptMessage })
    );
    assert_eq!(handle_frame(&truncated_client_id), Some(vec![0, 0, 0, 6, 0, 0, 1, 2, 0, 2]));

    let bad_length = [0u8, 18, 0, 4, 0, 0, 1, 2, 0xff, 0xf0];
    assert_eq!(handle_frame(&bad_length), Some(vec![0, 0, 0, 6, 0, 0, 1, 2, 0, 2]));

    let bad_utf8 = [0u8, 18, 0, 4, 0, 0, 1, 2, 0, 1, 0xff];
    assert_eq!(handle_frame(&bad_utf8), Some(vec![0, 0, 0, 6, 0, 0, 1, 2, 0, 2]));
}

#[test]
fn header_without_correlation_id_gets_no_response() {
    assert_eq!(reply_to(&[]), None);
    assert_eq!(handle_frame(&[0, 18, 0, 4]), None);
    assert_eq!(handle_frame(&[0, 18, 0, 4, 0, 0, 1]), None);
}

#[test]
fn unknown_key_from_bytes() {
    let payload = [0x00u8, 0x4b, 0x00, 0x00, 0, 0, 0, 5, 0xff, 0xff];
    assert_eq!(handle_frame(&payload), Some(vec![0, 0, 0, 6, 0, 0, 0, 5, 0, 42]));
}
