use bytes::Bytes;
use lore_core::server::auth::{auth_enabled, set_auth_enabled, AuthState};
use lore_core::server::quic_storage::{
    build_storage_protocol_request_span, choose_request, choose_request_v4, finish_parse,
    is_internal_error, message_handle_error_to_label,
    parse_message_for_opcode, parse_message_for_opcode_v4, Command, CopyWire, MessageHandleError,
    MessageParseError, ParsedStorageRequest, Transport, LEGACY_CORRELATE_OPCODE,
};
use lore_core::server::storage_service::LoreStorageService;
use std::sync::Arc;

#[test]
fn authorization_is_off_until_it_is_recorded() {
    let mut state = AuthState::default();
    assert!(!auth_enabled(&state));
    set_auth_enabled(&mut state, true);
    assert!(auth_enabled(&state));
    set_auth_enabled(&mut state, false);
    assert!(!auth_enabled(&state));
}

#[test]
fn storage_service_hands_out_its_stores() {
    let service: LoreStorageService<str, u8> =
        LoreStorageService::new(Arc::from("remote"), Arc::from("local"), Arc::new(3));
    assert_eq!(&**service.immutable_store(), "remote");
    assert_eq!(&**service.local_immutable_store(), "local");
    assert_eq!(**service.mutable_store(), 3);
    assert_eq!(service.namespace(), "urc.grpc.storage_service");
    let shared = service.clone();
    assert!(Arc::ptr_eq(shared.immutable_store(), service.immutable_store()));
    assert!(Arc::ptr_eq(shared.local_immutable_store(), service.local_immutable_store()));
    assert!(Arc::ptr_eq(shared.mutable_store(), service.mutable_store()));
}

fn payload(request: ParsedStorageRequest) -> (&'static str, Bytes) {
    match request {
        ParsedStorageRequest::Connect(bytes) => ("connect", bytes),
        ParsedStorageRequest::Copy(CopyWire::Legacy, bytes) => ("copy", bytes),
        ParsedStorageRequest::Copy(CopyWire::V4, bytes) => ("copy v4", bytes),
        ParsedStorageRequest::Get(bytes) => ("get", bytes),
        ParsedStorageRequest::GetMetadata(bytes) => ("get metadata", bytes),
        ParsedStorageRequest::Put(bytes) => ("put", bytes),
        ParsedStorageRequest::Query(bytes) => ("query", bytes),
        ParsedStorageRequest::Correlate(bytes) => ("correlate", bytes),
        ParsedStorageRequest::Verify(bytes) => ("verify", bytes),
        ParsedStorageRequest::MutableLoad(bytes) => ("mutable load", bytes),
        ParsedStorageRequest::MutableStoreOp(bytes) => ("mutable store", bytes),
        ParsedStorageRequest::MutableCas(bytes) => ("mutable cas", bytes),
    }
}

fn decode_all(_request: &ParsedStorageRequest) -> Result<(), String> {
    Ok(())
}

#[test]
fn opcodes_lead_to_their_requests() {
    let cases = [
        (Command::Authorize, "connect"),
        (Command::Get, "get"),
        (Command::GetMetadata, "get metadata"),
        (Command::Put, "put"),
        (Command::Query, "query"),
        (Command::Verify, "verify"),
        (Command::Copy, "copy"),
        (Command::MutableLoad, "mutable load"),
        (Command::MutableStore, "mutable store"),
        (Command::MutableCas, "mutable cas"),
    ];
    for (command, expected) in cases {
        let bytes = Bytes::from_static(b"payload");
        let request = parse_message_for_opcode(90, Some(command), bytes, decode_all).unwrap();
        assert_eq!(payload(request), (expected, Bytes::from_static(b"payload")));
    }
}

#[test]
fn legacy_correlate_is_still_understood() {
    let bytes = Bytes::from_static(b"x");
    let request = parse_message_for_opcode(LEGACY_CORRELATE_OPCODE, None, bytes, decode_all).unwrap();
    assert_eq!(payload(request), ("correlate", Bytes::from_static(b"x")));
    assert_eq!(LEGACY_CORRELATE_OPCODE, 5);
}

#[test]
fn unknown_opcodes_are_named() {
    let error = parse_message_for_opcode(77, None, Bytes::new(), decode_all).unwrap_err();
    assert_eq!(error, MessageParseError::UnknownOpcode(77));
    let error = parse_message_for_opcode_v4(78, None, Bytes::new(), decode_all).unwrap_err();
    assert_eq!(error, MessageParseError::UnknownOpcode(78));
}

#[test]
fn copies_have_a_wire_format_of_their_own_since_v4() {
    let request =
        parse_message_for_opcode_v4(9, Some(Command::Copy), Bytes::new(), decode_all).unwrap();
    assert_eq!(payload(request).0, "copy v4");
    let request =
        parse_message_for_opcode_v4(9, Some(Command::Get), Bytes::new(), decode_all).unwrap();
    assert_eq!(payload(request).0, "get");
}

/// Stands for decoders that accept requests of at least four bytes, and a copy in the old format.
fn decode_four_bytes(request: &ParsedStorageRequest) -> Result<(), String> {
    match request {
        ParsedStorageRequest::Get(bytes)
        | ParsedStorageRequest::Correlate(bytes)
        | ParsedStorageRequest::Copy(CopyWire::Legacy, bytes) => {
            if bytes.len() >= 4 {
                Ok(())
            } else {
                Err(format!("{} of four bytes", bytes.len()))
            }
        }
        _ => Err("no such request".to_string()),
    }
}

#[test]
fn requests_that_do_not_decode_are_refused_with_the_decoder_s_error() {
    let parse = |opcode, command, bytes| {
        parse_message_for_opcode(opcode, command, bytes, decode_four_bytes)
    };
    let long = || Bytes::from_static(b"abcd");
    let short = || Bytes::from_static(b"abc");
    assert_eq!(payload(parse(3, Some(Command::Get), long()).unwrap()), ("get", long()));
    assert_eq!(
        parse(3, Some(Command::Get), short()).unwrap_err(),
        MessageParseError::Undecodable("3 of four bytes".to_string())
    );
    assert_eq!(
        parse(LEGACY_CORRELATE_OPCODE, None, Bytes::new()).unwrap_err(),
        MessageParseError::Undecodable("0 of four bytes".to_string())
    );
    // The decoder of the format that the protocol has is the one that is asked.
    assert!(parse(9, Some(Command::Copy), long()).is_ok());
    assert_eq!(
        parse_message_for_opcode_v4(9, Some(Command::Copy), long(), decode_four_bytes)
            .unwrap_err(),
        MessageParseError::Undecodable("no such request".to_string())
    );
    // An unknown opcode has no decoder.
    assert_eq!(
        parse(77, None, long()).unwrap_err(),
        MessageParseError::UnknownOpcode(77)
    );
}

#[test]
fn parsing_is_a_choice_and_a_decoding() {
    assert!(choose_request(77, None, Bytes::new()).is_none());
    let request = choose_request(9, Some(Command::Copy), Bytes::new());
    assert_eq!(payload(request.unwrap()).0, "copy");
    let request = choose_request_v4(9, Some(Command::Copy), Bytes::new()).unwrap();
    assert!(matches!(
        finish_parse(request, Ok::<(), u8>(())),
        Ok(ParsedStorageRequest::Copy(CopyWire::V4, _))
    ));
    let request = choose_request_v4(9, Some(Command::Copy), Bytes::new()).unwrap();
    assert_eq!(
        finish_parse(request, Err(7u8)).unwrap_err(),
        MessageParseError::Undecodable(7)
    );
}

fn all_errors() -> Vec<MessageHandleError> {
    vec![
        MessageHandleError::AlreadyConnected,
        MessageHandleError::BranchExists,
        MessageHandleError::BranchMismatch,
        MessageHandleError::HashMismatch,
        MessageHandleError::FragmentNotFound,
        MessageHandleError::InvalidParentBranch,
        MessageHandleError::InternalError,
        MessageHandleError::MutableDataNotFound("key".to_string()),
        MessageHandleError::NoSuchBranch,
        MessageHandleError::NotConnected,
        MessageHandleError::QueryResultSizeMismatch,
        MessageHandleError::StoreFailure,
        MessageHandleError::AuthorizationFailure("token".to_string()),
        MessageHandleError::MissingToken,
        MessageHandleError::BranchProtected,
        MessageHandleError::Metadata,
        MessageHandleError::NotImplemented,
        MessageHandleError::SlowDown,
        MessageHandleError::Oversized,
        MessageHandleError::HashFailed,
        MessageHandleError::InvalidFragment,
        MessageHandleError::HandlerTimeout,
        MessageHandleError::SessionLimitReached,
    ]
}

#[test]
fn labels_are_the_names_of_the_errors_and_differ() {
    let labels: Vec<&str> = all_errors().iter().map(message_handle_error_to_label).collect();
    for (error, label) in all_errors().iter().zip(&labels) {
        let debug = format!("{error:?}");
        assert_eq!(debug.split('(').next().unwrap(), *label);
    }
    for (i, a) in labels.iter().enumerate() {
        for b in &labels[i + 1..] {
            assert_ne!(a, b);
        }
    }
}

#[test]
fn internal_errors_are_the_servers_own() {
    let internal: Vec<&str> = all_errors()
        .iter()
        .filter(|error| is_internal_error(error))
        .map(message_handle_error_to_label)
        .collect();
    assert_eq!(
        internal,
        [
            "InternalError",
            "QueryResultSizeMismatch",
            "StoreFailure",
            "NotImplemented",
            "SlowDown",
            "HandlerTimeout"
        ]
    );
}

#[test]
fn spans_are_named_after_their_command() {
    let cases = [
        (Command::Authorize, "StorageAuthorizeTask", false),
        (Command::Get, "StorageGetTask", true),
        (Command::GetMetadata, "StorageGetMetadataTask", true),
        (Command::Put, "StoragePutTask", true),
        (Command::Query, "StorageQueryTask", false),
        (Command::Verify, "StorageVerifyTask", false),
        (Command::Copy, "StorageCopyTask", true),
        (Command::MutableLoad, "StorageMutableLoadTask", false),
        (Command::MutableStore, "StorageMutableStoreTask", false),
        (Command::MutableCas, "StorageMutableCompareAndSwapTask", false),
    ];
    for (command, name, low) in cases {
        let span = build_storage_protocol_request_span(
            Some((command, "label")),
            "v4",
            "connection",
            "repository",
            "correlation",
            "user",
        );
        assert_eq!(span.name, name);
        assert_eq!(span.sampling_tier_low, low);
        assert_eq!(span.transport, Transport::Quic);
        assert_eq!(span.opcode_label, "label");
        assert_eq!(span.protocol, "v4");
        assert_eq!(span.connection_id, "connection");
        assert_eq!(span.repository_id, "repository");
        assert_eq!(span.correlation_id, "correlation");
        assert_eq!(span.user_id, "user");
    }
    let span = build_storage_protocol_request_span(None, "v0", "", "", "", "");
    assert_eq!(span.name, "StorageUnknownTask");
    assert_eq!(span.opcode_label, "");
    assert!(!span.sampling_tier_low);
}
