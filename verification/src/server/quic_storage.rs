//! Storage requests over QUIC: which opcode means which request, and how errors are told apart.

use bytes::Bytes;
use vstd::prelude::*;

verus! {

/// A buffer of bytes that is shared rather than copied, opaque to proofs.
#[verifier::external_type_specification]
#[verifier::external_body]
pub struct ExBytes(Bytes);

/// The number by which a request says what it asks for.
pub type QuicOpCode = u32;

/// Legacy opcode for the Correlate command, which was removed from the client commands in the
/// lore-storage/0.4 protocol but must still be handled for urc/0.2 clients.
pub const LEGACY_CORRELATE_OPCODE: QuicOpCode = 5;

/// What a client can ask of the storage service.
#[derive(Debug, Clone, Copy, PartialEq, Eq, Structural)]
pub enum Command {
    Authorize,
    Get,
    GetMetadata,
    Put,
    Query,
    Verify,
    Copy,
    MutableLoad,
    MutableStore,
    MutableCas,
}

/// The wire format of a copy request.
#[derive(Debug, Clone, Copy, PartialEq, Eq, Structural)]
pub enum CopyWire {
    /// 64 bytes.
    Legacy,
    /// 80 bytes, with the target context on the tail.
    V4,
}

/// A request together with the bytes that it is decoded from.
#[derive(Debug)]
pub enum ParsedStorageRequest {
    Connect(Bytes),
    Copy(CopyWire, Bytes),
    Get(Bytes),
    /// Wire-identical to `Get`; the response carries fragment metadata only, no payload bytes.
    GetMetadata(Bytes),
    Put(Bytes),
    Query(Bytes),
    Correlate(Bytes),
    Verify(Bytes),
    MutableLoad(Bytes),
    MutableStoreOp(Bytes),
    MutableCas(Bytes),
}

/// Why a request could not be made out. `E` is what the decoding of requests fails with.
#[derive(Debug, PartialEq, Eq)]
pub enum MessageParseError<E> {
    UnknownOpcode(QuicOpCode),
    /// The opcode is known, and its request does not decode from the bytes.
    Undecodable(E),
}

/// The request of a command in the urc/0.2 protocol.
pub open spec fn request_of(command: Command, bytes: Bytes) -> ParsedStorageRequest {
    match command {
        Command::Authorize => ParsedStorageRequest::Connect(bytes),
        Command::Get => ParsedStorageRequest::Get(bytes),
        Command::GetMetadata => ParsedStorageRequest::GetMetadata(bytes),
        Command::Put => ParsedStorageRequest::Put(bytes),
        Command::Query => ParsedStorageRequest::Query(bytes),
        Command::Verify => ParsedStorageRequest::Verify(bytes),
        Command::Copy => ParsedStorageRequest::Copy(CopyWire::Legacy, bytes),
        Command::MutableLoad => ParsedStorageRequest::MutableLoad(bytes),
        Command::MutableStore => ParsedStorageRequest::MutableStoreOp(bytes),
        Command::MutableCas => ParsedStorageRequest::MutableCas(bytes),
    }
}

/// The request that an opcode means in the urc/0.2 protocol, given the command it stands for, if
/// any. The legacy opcode comes first.
pub open spec fn chosen(opcode: QuicOpCode, command: Option<Command>, bytes: Bytes) -> Option<
    ParsedStorageRequest,
> {
    if opcode == LEGACY_CORRELATE_OPCODE {
        Some(ParsedStorageRequest::Correlate(bytes))
    } else {
        match command {
            Some(command) => Some(request_of(command, bytes)),
            None => None,
        }
    }
}

/// The request that an opcode means in the lore-storage/0.4 protocol.
pub open spec fn chosen_v4(opcode: QuicOpCode, command: Option<Command>, bytes: Bytes) -> Option<
    ParsedStorageRequest,
> {
    if command == Some(Command::Copy) {
        Some(ParsedStorageRequest::Copy(CopyWire::V4, bytes))
    } else {
        chosen(opcode, command, bytes)
    }
}

/// What becomes of a message whose opcode means the given request, by what came of decoding it: an
/// error is handed on.
pub open spec fn decoded<E>(request: ParsedStorageRequest, outcome: Result<(), E>) -> Result<
    ParsedStorageRequest,
    MessageParseError<E>,
> {
    match outcome {
        Ok(()) => Ok(request),
        Err(error) => Err(MessageParseError::Undecodable(error)),
    }
}

/// Settle which request an opcode means, given the command it stands for.
pub fn choose_request(opcode: QuicOpCode, command: Option<Command>, bytes: Bytes) -> (r: Option<
    ParsedStorageRequest,
>)
    ensures
        r == chosen(opcode, command, bytes),
{
    if opcode == LEGACY_CORRELATE_OPCODE {
        return Some(ParsedStorageRequest::Correlate(bytes));
    }
    match command {
        Some(Command::Authorize) => Some(ParsedStorageRequest::Connect(bytes)),
        Some(Command::Get) => Some(ParsedStorageRequest::Get(bytes)),
        Some(Command::GetMetadata) => Some(ParsedStorageRequest::GetMetadata(bytes)),
        Some(Command::Put) => Some(ParsedStorageRequest::Put(bytes)),
        Some(Command::Query) => Some(ParsedStorageRequest::Query(bytes)),
        Some(Command::Verify) => Some(ParsedStorageRequest::Verify(bytes)),
        Some(Command::Copy) => Some(ParsedStorageRequest::Copy(CopyWire::Legacy, bytes)),
        Some(Command::MutableLoad) => Some(ParsedStorageRequest::MutableLoad(bytes)),
        Some(Command::MutableStore) => Some(ParsedStorageRequest::MutableStoreOp(bytes)),
        Some(Command::MutableCas) => Some(ParsedStorageRequest::MutableCas(bytes)),
        None => None,
    }
}

/// Settle which request an opcode means in the lore-storage/0.4 protocol: the same as before but
/// for the wire format of a copy.
pub fn choose_request_v4(opcode: QuicOpCode, command: Option<Command>, bytes: Bytes) -> (r: Option<
    ParsedStorageRequest,
>)
    ensures
        r == chosen_v4(opcode, command, bytes),
{
    match command {
        Some(Command::Copy) => Some(ParsedStorageRequest::Copy(CopyWire::V4, bytes)),
        _ => choose_request(opcode, command, bytes),
    }
}

/// Settle what becomes of a message whose opcode means a request, by what came of decoding it.
pub fn finish_parse<E>(request: ParsedStorageRequest, outcome: Result<(), E>) -> (r: Result<
    ParsedStorageRequest,
    MessageParseError<E>,
>)
    ensures
        r == decoded(request, outcome),
{
    match outcome {
        Ok(()) => Ok(request),
        Err(error) => Err(MessageParseError::Undecodable(error)),
    }
}

/// Whether a result is what a message comes to whose opcode means the given request, if any, when
/// that is decoded: an unknown opcode asks no decoder, and the error of one is handed on.
pub open spec fn parses_to<E, D: Fn(&ParsedStorageRequest) -> Result<(), E>>(
    opcode: QuicOpCode,
    request: Option<ParsedStorageRequest>,
    decode: D,
    r: Result<ParsedStorageRequest, MessageParseError<E>>,
) -> bool {
    match request {
        None => r == Err::<ParsedStorageRequest, MessageParseError<E>>(
            MessageParseError::UnknownOpcode(opcode),
        ),
        Some(request) => exists|outcome: Result<(), E>| #[trigger]
            decode.ensures((&request,), outcome) && r == decoded(request, outcome),
    }
}

/// Decode the request that an opcode means, if any.
fn decode_request<E, D: Fn(&ParsedStorageRequest) -> Result<(), E>>(
    opcode: QuicOpCode,
    request: Option<ParsedStorageRequest>,
    decode: D,
) -> (r: Result<ParsedStorageRequest, MessageParseError<E>>)
    requires
        forall|request: &ParsedStorageRequest| #[trigger] decode.requires((request,)),
    ensures
        parses_to(opcode, request, decode, r),
{
    match request {
        Some(request) => {
            let outcome = decode(&request);
            finish_parse(request, outcome)
        },
        None => Err(MessageParseError::UnknownOpcode(opcode)),
    }
}

/// Make out the request of a message in the urc/0.2 protocol, given the command that its opcode
/// stands for and what decodes a request from its bytes.
pub fn parse_message_for_opcode<E, D: Fn(&ParsedStorageRequest) -> Result<(), E>>(
    opcode: QuicOpCode,
    command: Option<Command>,
    bytes: Bytes,
    decode: D,
) -> (r: Result<ParsedStorageRequest, MessageParseError<E>>)
    requires
        forall|request: &ParsedStorageRequest| #[trigger] decode.requires((request,)),
    ensures
        parses_to(opcode, chosen(opcode, command, bytes), decode, r),
{
    decode_request(opcode, choose_request(opcode, command, bytes), decode)
}

/// Make out the request of a message in the lore-storage/0.4 protocol.
pub fn parse_message_for_opcode_v4<E, D: Fn(&ParsedStorageRequest) -> Result<(), E>>(
    opcode: QuicOpCode,
    command: Option<Command>,
    bytes: Bytes,
    decode: D,
) -> (r: Result<ParsedStorageRequest, MessageParseError<E>>)
    requires
        forall|request: &ParsedStorageRequest| #[trigger] decode.requires((request,)),
    ensures
        parses_to(opcode, chosen_v4(opcode, command, bytes), decode, r),
{
    decode_request(opcode, choose_request_v4(opcode, command, bytes), decode)
}

/// An opcode is unknown exactly when it stands for no command and is not the legacy one, a known
/// one but the legacy one means the request of its command, and the two protocols differ in copies
/// alone.
pub proof fn law_opcodes_are_told_apart(
    opcode: QuicOpCode,
    command: Option<Command>,
    bytes: Bytes,
)
    ensures
        chosen(opcode, command, bytes) is None <==> command is None && opcode
            != LEGACY_CORRELATE_OPCODE,
        opcode != LEGACY_CORRELATE_OPCODE && command is Some ==> chosen(opcode, command, bytes)
            == Some(request_of(command->0, bytes)),
        command != Some(Command::Copy) ==> chosen_v4(opcode, command, bytes) == chosen(
            opcode,
            command,
            bytes,
        ),
{
}

/// A message of a known opcode fails exactly with the error that its request fails to decode with,
/// and otherwise it is that request.
pub proof fn law_decoding_errors_are_handed_on<E>(
    request: ParsedStorageRequest,
    outcome: Result<(), E>,
    error: E,
)
    ensures
        outcome == Err::<(), E>(error) <==> decoded(request, outcome) == Err::<
            ParsedStorageRequest,
            MessageParseError<E>,
        >(MessageParseError::Undecodable(error)),
        outcome is Ok <==> decoded(request, outcome) == Ok::<
            ParsedStorageRequest,
            MessageParseError<E>,
        >(request),
{
}

/// Why a request could not be handled.
#[derive(Debug)]
pub enum MessageHandleError {
    AlreadyConnected,
    BranchExists,
    BranchMismatch,
    HashMismatch,
    FragmentNotFound,
    InvalidParentBranch,
    InternalError,
    MutableDataNotFound(String),
    NoSuchBranch,
    NotConnected,
    QueryResultSizeMismatch,
    StoreFailure,
    AuthorizationFailure(String),
    MissingToken,
    BranchProtected,
    Metadata,
    NotImplemented,
    SlowDown,
    Oversized,
    HashFailed,
    InvalidFragment,
    HandlerTimeout,
    SessionLimitReached,
}

/// The label under which an error is counted.
pub open spec fn error_label(error: MessageHandleError) -> Seq<char> {
    match error {
        MessageHandleError::AlreadyConnected => "AlreadyConnected"@,
        MessageHandleError::BranchExists => "BranchExists"@,
        MessageHandleError::BranchMismatch => "BranchMismatch"@,
        MessageHandleError::HashMismatch => "HashMismatch"@,
        MessageHandleError::FragmentNotFound => "FragmentNotFound"@,
        MessageHandleError::InvalidParentBranch => "InvalidParentBranch"@,
        MessageHandleError::InternalError => "InternalError"@,
        MessageHandleError::MutableDataNotFound(_) => "MutableDataNotFound"@,
        MessageHandleError::NoSuchBranch => "NoSuchBranch"@,
        MessageHandleError::NotConnected => "NotConnected"@,
        MessageHandleError::QueryResultSizeMismatch => "QueryResultSizeMismatch"@,
        MessageHandleError::StoreFailure => "StoreFailure"@,
        MessageHandleError::AuthorizationFailure(_) => "AuthorizationFailure"@,
        MessageHandleError::MissingToken => "MissingToken"@,
        MessageHandleError::BranchProtected => "BranchProtected"@,
        MessageHandleError::Metadata => "Metadata"@,
        MessageHandleError::NotImplemented => "NotImplemented"@,
        MessageHandleError::SlowDown => "SlowDown"@,
        MessageHandleError::Oversized => "Oversized"@,
        MessageHandleError::HashFailed => "HashFailed"@,
        MessageHandleError::InvalidFragment => "InvalidFragment"@,
        MessageHandleError::HandlerTimeout => "HandlerTimeout"@,
        MessageHandleError::SessionLimitReached => "SessionLimitReached"@,
    }
}

/// The label under which an error is counted.
pub fn message_handle_error_to_label(value: &MessageHandleError) -> (r: &'static str)
    ensures
        r@ == error_label(*value),
{
    match value {
        MessageHandleError::AlreadyConnected => "AlreadyConnected",
        MessageHandleError::BranchExists => "BranchExists",
        MessageHandleError::BranchMismatch => "BranchMismatch",
        MessageHandleError::HashMismatch => "HashMismatch",
        MessageHandleError::FragmentNotFound => "FragmentNotFound",
        MessageHandleError::InvalidParentBranch => "InvalidParentBranch",
        MessageHandleError::InternalError => "InternalError",
        MessageHandleError::MutableDataNotFound(_) => "MutableDataNotFound",
        MessageHandleError::NoSuchBranch => "NoSuchBranch",
        MessageHandleError::NotConnected => "NotConnected",
        MessageHandleError::QueryResultSizeMismatch => "QueryResultSizeMismatch",
        MessageHandleError::StoreFailure => "StoreFailure",
        MessageHandleError::AuthorizationFailure(_) => "AuthorizationFailure",
        MessageHandleError::MissingToken => "MissingToken",
        MessageHandleError::BranchProtected => "BranchProtected",
        MessageHandleError::Metadata => "Metadata",
        MessageHandleError::NotImplemented => "NotImplemented",
        MessageHandleError::SlowDown => "SlowDown",
        MessageHandleError::Oversized => "Oversized",
        MessageHandleError::HashFailed => "HashFailed",
        MessageHandleError::InvalidFragment => "InvalidFragment",
        MessageHandleError::HandlerTimeout => "HandlerTimeout",
        MessageHandleError::SessionLimitReached => "SessionLimitReached",
    }
}

/// Whether an error is the server's own fault rather than the client's.
pub open spec fn is_internal(error: MessageHandleError) -> bool {
    ||| error is HandlerTimeout
    ||| error is InternalError
    ||| error is NotImplemented
    ||| error is QueryResultSizeMismatch
    ||| error is StoreFailure
    ||| error is SlowDown
}

/// Whether an error is the server's own fault rather than the client's.
pub fn is_internal_error(error: &MessageHandleError) -> (r: bool)
    ensures
        r == is_internal(*error),
{
    match error {
        MessageHandleError::AuthorizationFailure(_)
        | MessageHandleError::AlreadyConnected
        | MessageHandleError::BranchExists
        | MessageHandleError::BranchMismatch
        | MessageHandleError::BranchProtected
        | MessageHandleError::FragmentNotFound
        | MessageHandleError::HashMismatch
        | MessageHandleError::InvalidParentBranch
        | MessageHandleError::MissingToken
        | MessageHandleError::MutableDataNotFound(_)
        | MessageHandleError::NoSuchBranch
        | MessageHandleError::NotConnected
        | MessageHandleError::Oversized
        | MessageHandleError::Metadata
        | MessageHandleError::HashFailed
        | MessageHandleError::InvalidFragment
        | MessageHandleError::SessionLimitReached => false,
        MessageHandleError::HandlerTimeout
        | MessageHandleError::InternalError
        | MessageHandleError::NotImplemented
        | MessageHandleError::QueryResultSizeMismatch
        | MessageHandleError::StoreFailure
        | MessageHandleError::SlowDown => true,
    }
}

/// The number of a kind of error, for telling kinds apart.
pub open spec fn error_kind(error: MessageHandleError) -> int {
    match error {
        MessageHandleError::AlreadyConnected => 0,
        MessageHandleError::BranchExists => 1,
        MessageHandleError::BranchMismatch => 2,
        MessageHandleError::HashMismatch => 3,
        MessageHandleError::FragmentNotFound => 4,
        MessageHandleError::InvalidParentBranch => 5,
        MessageHandleError::InternalError => 6,
        MessageHandleError::MutableDataNotFound(_) => 7,
        MessageHandleError::NoSuchBranch => 8,
        MessageHandleError::NotConnected => 9,
        MessageHandleError::QueryResultSizeMismatch => 10,
        MessageHandleError::StoreFailure => 11,
        MessageHandleError::AuthorizationFailure(_) => 12,
        MessageHandleError::MissingToken => 13,
        MessageHandleError::BranchProtected => 14,
        MessageHandleError::Metadata => 15,
        MessageHandleError::NotImplemented => 16,
        MessageHandleError::SlowDown => 17,
        MessageHandleError::Oversized => 18,
        MessageHandleError::HashFailed => 19,
        MessageHandleError::InvalidFragment => 20,
        MessageHandleError::HandlerTimeout => 21,
        MessageHandleError::SessionLimitReached => 22,
    }
}

/// The length and the seventh character of a label.
spec fn label_marks(error: MessageHandleError) -> (nat, char) {
    match error {
        MessageHandleError::AlreadyConnected => (16, 'y'),
        MessageHandleError::BranchExists => (12, 'E'),
        MessageHandleError::BranchMismatch => (14, 'M'),
        MessageHandleError::HashMismatch => (12, 's'),
        MessageHandleError::FragmentNotFound => (16, 'n'),
        MessageHandleError::InvalidParentBranch => (19, 'd'),
        MessageHandleError::InternalError => (13, 'a'),
        MessageHandleError::MutableDataNotFound(_) => (19, 'e'),
        MessageHandleError::NoSuchBranch => (12, 'B'),
        MessageHandleError::NotConnected => (12, 'n'),
        MessageHandleError::QueryResultSizeMismatch => (23, 'e'),
        MessageHandleError::StoreFailure => (12, 'a'),
        MessageHandleError::AuthorizationFailure(_) => (20, 'i'),
        MessageHandleError::MissingToken => (12, 'g'),
        MessageHandleError::BranchProtected => (15, 'P'),
        MessageHandleError::Metadata => (8, 't'),
        MessageHandleError::NotImplemented => (14, 'l'),
        MessageHandleError::SlowDown => (8, 'w'),
        MessageHandleError::Oversized => (9, 'z'),
        MessageHandleError::HashFailed => (10, 'i'),
        MessageHandleError::InvalidFragment => (15, 'd'),
        MessageHandleError::HandlerTimeout => (14, 'r'),
        MessageHandleError::SessionLimitReached => (19, 'n'),
    }
}

proof fn lemma_label_marks(error: MessageHandleError)
    ensures
        label_marks(error) == (error_label(error).len(), error_label(error)[6]),
{
    reveal_strlit("AlreadyConnected");
    reveal_strlit("BranchExists");
    reveal_strlit("BranchMismatch");
    reveal_strlit("HashMismatch");
    reveal_strlit("FragmentNotFound");
    reveal_strlit("InvalidParentBranch");
    reveal_strlit("InternalError");
    reveal_strlit("MutableDataNotFound");
    reveal_strlit("NoSuchBranch");
    reveal_strlit("NotConnected");
    reveal_strlit("QueryResultSizeMismatch");
    reveal_strlit("StoreFailure");
    reveal_strlit("AuthorizationFailure");
    reveal_strlit("MissingToken");
    reveal_strlit("BranchProtected");
    reveal_strlit("Metadata");
    reveal_strlit("NotImplemented");
    reveal_strlit("SlowDown");
    reveal_strlit("Oversized");
    reveal_strlit("HashFailed");
    reveal_strlit("InvalidFragment");
    reveal_strlit("HandlerTimeout");
    reveal_strlit("SessionLimitReached");
}

/// Errors of different kinds are counted under different labels.
pub proof fn law_labels_tell_errors_apart(a: MessageHandleError, b: MessageHandleError)
    requires
        error_label(a) == error_label(b),
    ensures
        error_kind(a) == error_kind(b),
{
    lemma_label_marks(a);
    lemma_label_marks(b);
}

/// What a request comes in over.
#[derive(Debug, Clone, Copy, PartialEq, Eq, Structural)]
pub enum Transport {
    Quic,
}

/// What a request is traced as.
#[derive(Debug)]
pub struct StorageSpan {
    pub name: &'static str,
    /// Whether the request is so frequent that few of its kind are kept.
    pub sampling_tier_low: bool,
    pub transport: Transport,
    pub protocol: String,
    pub opcode_label: String,
    pub connection_id: String,
    pub repository_id: String,
    pub correlation_id: String,
    pub user_id: String,
}

/// The name of the span of a command; an opcode that stands for none has one too.
pub open spec fn span_name(command: Option<Command>) -> Seq<char> {
    match command {
        Some(Command::Authorize) => "StorageAuthorizeTask"@,
        Some(Command::Get) => "StorageGetTask"@,
        Some(Command::GetMetadata) => "StorageGetMetadataTask"@,
        Some(Command::Put) => "StoragePutTask"@,
        Some(Command::Query) => "StorageQueryTask"@,
        Some(Command::Verify) => "StorageVerifyTask"@,
        Some(Command::Copy) => "StorageCopyTask"@,
        Some(Command::MutableLoad) => "StorageMutableLoadTask"@,
        Some(Command::MutableStore) => "StorageMutableStoreTask"@,
        Some(Command::MutableCas) => "StorageMutableCompareAndSwapTask"@,
        None => "StorageUnknownTask"@,
    }
}

/// Whether the requests of a command are so frequent that few are kept.
pub open spec fn is_frequent(command: Option<Command>) -> bool {
    ||| command == Some(Command::Get)
    ||| command == Some(Command::GetMetadata)
    ||| command == Some(Command::Put)
    ||| command == Some(Command::Copy)
}

/// The name of the span of a command.
fn span_name_of(command: Option<Command>) -> (r: &'static str)
    ensures
        r@ == span_name(command),
{
    match command {
        Some(Command::Authorize) => "StorageAuthorizeTask",
        Some(Command::Get) => "StorageGetTask",
        Some(Command::GetMetadata) => "StorageGetMetadataTask",
        Some(Command::Put) => "StoragePutTask",
        Some(Command::Query) => "StorageQueryTask",
        Some(Command::Verify) => "StorageVerifyTask",
        Some(Command::Copy) => "StorageCopyTask",
        Some(Command::MutableLoad) => "StorageMutableLoadTask",
        Some(Command::MutableStore) => "StorageMutableStoreTask",
        Some(Command::MutableCas) => "StorageMutableCompareAndSwapTask",
        None => "StorageUnknownTask",
    }
}

/// Describe the root span of a storage request. `command` is the command that the opcode stands
/// for, if any, together with its name; the protocol tells the versions of the service apart.
pub fn build_storage_protocol_request_span(
    command: Option<(Command, &str)>,
    protocol: &str,
    connection_id: &str,
    repository_id: &str,
    correlation_id: &str,
    user_id: &str,
) -> (r: StorageSpan)
    ensures
        ({
            let parsed = match command {
                Some((command, _)) => Some(command),
                None => None,
            };
            &&& r.name@ == span_name(parsed)
            &&& r.sampling_tier_low == is_frequent(parsed)
        }),
        r.transport == Transport::Quic,
        r.protocol@ == protocol@,
        r.opcode_label@ == match command {
            Some((_, label)) => label@,
            None => Seq::empty(),
        },
        r.connection_id@ == connection_id@,
        r.repository_id@ == repository_id@,
        r.correlation_id@ == correlation_id@,
        r.user_id@ == user_id@,
{
    let (parsed, opcode_label) = match command {
        Some((command, label)) => (Some(command), label.to_owned()),
        None => {
            let empty = String::new();
            assert(empty@ =~= Seq::empty());
            (None, empty)
        },
    };
    let sampling_tier_low = match parsed {
        Some(Command::Get) | Some(Command::GetMetadata) | Some(Command::Put) | Some(
            Command::Copy,
        ) => true,
        _ => false,
    };
    StorageSpan {
        name: span_name_of(parsed),
        sampling_tier_low,
        transport: Transport::Quic,
        protocol: protocol.to_owned(),
        opcode_label,
        connection_id: connection_id.to_owned(),
        repository_id: repository_id.to_owned(),
        correlation_id: correlation_id.to_owned(),
        user_id: user_id.to_owned(),
    }
}

/// Every command has a request of its own, which carries the bytes of the message: a request for
/// metadata is not one for content, though both look alike on the wire. The legacy opcode is a
/// correlation whatever else it may stand for, and a copy has its newer format in the newer protocol
/// alone.
pub proof fn law_every_command_has_its_request(opcode: QuicOpCode, command: Option<Command>, bytes: Bytes)
    ensures
        opcode != LEGACY_CORRELATE_OPCODE ==> chosen(opcode, Some(Command::Authorize), bytes) == Some(
            ParsedStorageRequest::Connect(bytes),
        ),
        opcode != LEGACY_CORRELATE_OPCODE ==> chosen(opcode, Some(Command::Get), bytes) == Some(
            ParsedStorageRequest::Get(bytes),
        ),
        opcode != LEGACY_CORRELATE_OPCODE ==> chosen(opcode, Some(Command::GetMetadata), bytes) == Some(
            ParsedStorageRequest::GetMetadata(bytes),
        ),
        opcode != LEGACY_CORRELATE_OPCODE ==> chosen(opcode, Some(Command::Put), bytes) == Some(
            ParsedStorageRequest::Put(bytes),
        ),
        opcode != LEGACY_CORRELATE_OPCODE ==> chosen(opcode, Some(Command::Query), bytes) == Some(
            ParsedStorageRequest::Query(bytes),
        ),
        opcode != LEGACY_CORRELATE_OPCODE ==> chosen(opcode, Some(Command::Verify), bytes) == Some(
            ParsedStorageRequest::Verify(bytes),
        ),
        opcode != LEGACY_CORRELATE_OPCODE ==> chosen(opcode, Some(Command::Copy), bytes) == Some(
            ParsedStorageRequest::Copy(CopyWire::Legacy, bytes),
        ),
        opcode != LEGACY_CORRELATE_OPCODE ==> chosen(opcode, Some(Command::MutableLoad), bytes) == Some(
            ParsedStorageRequest::MutableLoad(bytes),
        ),
        opcode != LEGACY_CORRELATE_OPCODE ==> chosen(opcode, Some(Command::MutableStore), bytes) == Some(
            ParsedStorageRequest::MutableStoreOp(bytes),
        ),
        opcode != LEGACY_CORRELATE_OPCODE ==> chosen(opcode, Some(Command::MutableCas), bytes) == Some(
            ParsedStorageRequest::MutableCas(bytes),
        ),
        chosen(5, command, bytes) == Some(ParsedStorageRequest::Correlate(bytes)),
        opcode != 5 ==> chosen(opcode, None, bytes) is None,
        chosen_v4(opcode, Some(Command::Copy), bytes) == Some(
            ParsedStorageRequest::Copy(CopyWire::V4, bytes),
        ),
        command is None || command->0 != Command::Copy ==> chosen_v4(opcode, command, bytes) == chosen(
            opcode,
            command,
            bytes,
        ),
{
}

/// Every error is counted under its own name, whatever its detail.
pub proof fn law_errors_are_counted_under_their_names(detail: String)
    ensures
        error_label(MessageHandleError::AlreadyConnected) == "AlreadyConnected"@,
        error_label(MessageHandleError::BranchExists) == "BranchExists"@,
        error_label(MessageHandleError::BranchMismatch) == "BranchMismatch"@,
        error_label(MessageHandleError::HashMismatch) == "HashMismatch"@,
        error_label(MessageHandleError::FragmentNotFound) == "FragmentNotFound"@,
        error_label(MessageHandleError::InvalidParentBranch) == "InvalidParentBranch"@,
        error_label(MessageHandleError::InternalError) == "InternalError"@,
        error_label(MessageHandleError::MutableDataNotFound(detail)) == "MutableDataNotFound"@,
        error_label(MessageHandleError::NoSuchBranch) == "NoSuchBranch"@,
        error_label(MessageHandleError::NotConnected) == "NotConnected"@,
        error_label(MessageHandleError::QueryResultSizeMismatch) == "QueryResultSizeMismatch"@,
        error_label(MessageHandleError::StoreFailure) == "StoreFailure"@,
        error_label(MessageHandleError::AuthorizationFailure(detail)) == "AuthorizationFailure"@,
        error_label(MessageHandleError::MissingToken) == "MissingToken"@,
        error_label(MessageHandleError::BranchProtected) == "BranchProtected"@,
        error_label(MessageHandleError::Metadata) == "Metadata"@,
        error_label(MessageHandleError::NotImplemented) == "NotImplemented"@,
        error_label(MessageHandleError::SlowDown) == "SlowDown"@,
        error_label(MessageHandleError::Oversized) == "Oversized"@,
        error_label(MessageHandleError::HashFailed) == "HashFailed"@,
        error_label(MessageHandleError::InvalidFragment) == "InvalidFragment"@,
        error_label(MessageHandleError::HandlerTimeout) == "HandlerTimeout"@,
        error_label(MessageHandleError::SessionLimitReached) == "SessionLimitReached"@,
{
}

/// An error is the server's own fault exactly when its stores, its time, its size accounting or its
/// implementation failed; what a client did wrong is not.
pub proof fn law_faults_of_the_server(detail: String)
    ensures
        !is_internal(MessageHandleError::AlreadyConnected),
        !is_internal(MessageHandleError::BranchExists),
        !is_internal(MessageHandleError::BranchMismatch),
        !is_internal(MessageHandleError::HashMismatch),
        !is_internal(MessageHandleError::FragmentNotFound),
        !is_internal(MessageHandleError::InvalidParentBranch),
        is_internal(MessageHandleError::InternalError),
        !is_internal(MessageHandleError::MutableDataNotFound(detail)),
        !is_internal(MessageHandleError::NoSuchBranch),
        !is_internal(MessageHandleError::NotConnected),
        is_internal(MessageHandleError::QueryResultSizeMismatch),
        is_internal(MessageHandleError::StoreFailure),
        !is_internal(MessageHandleError::AuthorizationFailure(detail)),
        !is_internal(MessageHandleError::MissingToken),
        !is_internal(MessageHandleError::BranchProtected),
        !is_internal(MessageHandleError::Metadata),
        is_internal(MessageHandleError::NotImplemented),
        is_internal(MessageHandleError::SlowDown),
        !is_internal(MessageHandleError::Oversized),
        !is_internal(MessageHandleError::HashFailed),
        !is_internal(MessageHandleError::InvalidFragment),
        is_internal(MessageHandleError::HandlerTimeout),
        !is_internal(MessageHandleError::SessionLimitReached),
{
}

/// The span of a request is named for its command, and an opcode without one is traced as unknown;
/// few of the requests that carry content or copy it are kept, and all others are.
pub proof fn law_spans_are_named_for_their_commands()
    ensures
        span_name(Some(Command::Authorize)) == "StorageAuthorizeTask"@,
        span_name(Some(Command::Get)) == "StorageGetTask"@,
        span_name(Some(Command::GetMetadata)) == "StorageGetMetadataTask"@,
        span_name(Some(Command::Put)) == "StoragePutTask"@,
        span_name(Some(Command::Query)) == "StorageQueryTask"@,
        span_name(Some(Command::Verify)) == "StorageVerifyTask"@,
        span_name(Some(Command::Copy)) == "StorageCopyTask"@,
        span_name(Some(Command::MutableLoad)) == "StorageMutableLoadTask"@,
        span_name(Some(Command::MutableStore)) == "StorageMutableStoreTask"@,
        span_name(Some(Command::MutableCas)) == "StorageMutableCompareAndSwapTask"@,
        span_name(None) == "StorageUnknownTask"@,
        !is_frequent(Some(Command::Authorize)),
        is_frequent(Some(Command::Get)),
        is_frequent(Some(Command::GetMetadata)),
        is_frequent(Some(Command::Put)),
        !is_frequent(Some(Command::Query)),
        !is_frequent(Some(Command::Verify)),
        is_frequent(Some(Command::Copy)),
        !is_frequent(Some(Command::MutableLoad)),
        !is_frequent(Some(Command::MutableStore)),
        !is_frequent(Some(Command::MutableCas)),
        !is_frequent(None),
{
}

} // verus!
