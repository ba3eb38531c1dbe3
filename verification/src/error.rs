use vstd::prelude::*;

verus! {

/// Errors reported by the protocol helpers.
#[derive(Debug, Clone, PartialEq, Eq)]
pub enum SdkError {
    InvalidAgentId(String),
    InvalidAgentIdPrefix,
    InvalidPublicKeyLength(usize),
    CanonicalJson(String),
    Json(String),
    Base64,
    Ed25519,
    Random(String),
    InvalidSignatureLength(usize),
    InvalidEventHash { expected: String, actual: String },
    InvalidEventProtocol { expected: String, actual: String },
    InvalidEventType { expected: String, actual: String },
    InvalidActor(String),
    TimestampOutOfWindow,
    InvalidNonce(String),
    NonceNotGreater { max_nonce: u64 },
    MissingRoomId,
    RoomIdMismatch { expected: String, actual: String },
    PermissionDenied,
    InvalidPayload(String),
    InvalidJwt(String),
    InvalidJwtClaim(&'static str),
    PackUnavailable(String),
    TypeNotDefined(String),
    TypeDisabled(String),
    PayloadSchemaViolation(String),
    Http(String),
}

pub type Result<T> = core::result::Result<T, SdkError>;

/// An error as its texts: each variant of [`SdkError`] with its strings as
/// character sequences.
pub enum ErrorView {
    InvalidAgentId(Seq<char>),
    InvalidAgentIdPrefix,
    InvalidPublicKeyLength(usize),
    CanonicalJson(Seq<char>),
    Json(Seq<char>),
    Base64,
    Ed25519,
    Random(Seq<char>),
    InvalidSignatureLength(usize),
    InvalidEventHash { expected: Seq<char>, actual: Seq<char> },
    InvalidEventProtocol { expected: Seq<char>, actual: Seq<char> },
    InvalidEventType { expected: Seq<char>, actual: Seq<char> },
    InvalidActor(Seq<char>),
    TimestampOutOfWindow,
    InvalidNonce(Seq<char>),
    NonceNotGreater { max_nonce: u64 },
    MissingRoomId,
    RoomIdMismatch { expected: Seq<char>, actual: Seq<char> },
    PermissionDenied,
    InvalidPayload(Seq<char>),
    InvalidJwt(Seq<char>),
    InvalidJwtClaim(Seq<char>),
    PackUnavailable(Seq<char>),
    TypeNotDefined(Seq<char>),
    TypeDisabled(Seq<char>),
    PayloadSchemaViolation(Seq<char>),
    Http(Seq<char>),
}

impl View for SdkError {
    type V = ErrorView;

    open spec fn view(&self) -> ErrorView {
        match self {
            SdkError::InvalidAgentId(s) => ErrorView::InvalidAgentId(s@),
            SdkError::InvalidAgentIdPrefix => ErrorView::InvalidAgentIdPrefix,
            SdkError::InvalidPublicKeyLength(n) => ErrorView::InvalidPublicKeyLength(*n),
            SdkError::CanonicalJson(s) => ErrorView::CanonicalJson(s@),
            SdkError::Json(s) => ErrorView::Json(s@),
            SdkError::Base64 => ErrorView::Base64,
            SdkError::Ed25519 => ErrorView::Ed25519,
            SdkError::Random(s) => ErrorView::Random(s@),
            SdkError::InvalidSignatureLength(n) => ErrorView::InvalidSignatureLength(*n),
            SdkError::InvalidEventHash { expected, actual } => ErrorView::InvalidEventHash {
                expected: expected@,
                actual: actual@,
            },
            SdkError::InvalidEventProtocol { expected, actual } => ErrorView::InvalidEventProtocol {
                expected: expected@,
                actual: actual@,
            },
            SdkError::InvalidEventType { expected, actual } => ErrorView::InvalidEventType {
                expected: expected@,
                actual: actual@,
            },
            SdkError::InvalidActor(s) => ErrorView::InvalidActor(s@),
            SdkError::TimestampOutOfWindow => ErrorView::TimestampOutOfWindow,
            SdkError::InvalidNonce(s) => ErrorView::InvalidNonce(s@),
            SdkError::NonceNotGreater { max_nonce } => ErrorView::NonceNotGreater { max_nonce: *max_nonce },
            SdkError::MissingRoomId => ErrorView::MissingRoomId,
            SdkError::RoomIdMismatch { expected, actual } => ErrorView::RoomIdMismatch {
                expected: expected@,
                actual: actual@,
            },
            SdkError::PermissionDenied => ErrorView::PermissionDenied,
            SdkError::InvalidPayload(s) => ErrorView::InvalidPayload(s@),
            SdkError::InvalidJwt(s) => ErrorView::InvalidJwt(s@),
            SdkError::InvalidJwtClaim(s) => ErrorView::InvalidJwtClaim(s@),
            SdkError::PackUnavailable(s) => ErrorView::PackUnavailable(s@),
            SdkError::TypeNotDefined(s) => ErrorView::TypeNotDefined(s@),
            SdkError::TypeDisabled(s) => ErrorView::TypeDisabled(s@),
            SdkError::PayloadSchemaViolation(s) => ErrorView::PayloadSchemaViolation(s@),
            SdkError::Http(s) => ErrorView::Http(s@),
        }
    }
}

/// An `InvalidPayload` error with the given message.
pub open spec fn invalid_payload(message: Seq<char>) -> ErrorView {
    ErrorView::InvalidPayload(message)
}

/// A result is the first failure of a check list: `Ok` when there is none,
/// otherwise exactly that error.
pub open spec fn fails_with<T>(res: Result<T>, failure: Option<ErrorView>) -> bool {
    match failure {
        None => res is Ok,
        Some(f) => res matches Err(e) && e@ == f,
    }
}

} // verus!
