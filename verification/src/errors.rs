//! The errors that a request can be answered with.
use vstd::prelude::*;

verus! {

/// The kinds of refusal that a client can be told of.
#[derive(Debug, Clone, Copy, PartialEq, Eq, Structural)]
pub enum ErrorCode {
    NotRegistered,
    AlreadyRegistered,
    InvalidRole,
    SessionExpired,
    SessionFull,
    InvalidSession,
    Unauthorized,
    PeerDisconnected,
    PeerNotFound,
    MalformedMessage,
    InternalError,
    RateLimitExceeded,
}

impl ErrorCode {
    /// The name of the code on the wire.
    pub open spec fn name(self) -> Seq<char> {
        match self {
            ErrorCode::NotRegistered => "NOT_REGISTERED"@,
            ErrorCode::AlreadyRegistered => "ALREADY_REGISTERED"@,
            ErrorCode::InvalidRole => "INVALID_ROLE"@,
            ErrorCode::SessionExpired => "SESSION_EXPIRED"@,
            ErrorCode::SessionFull => "SESSION_FULL"@,
            ErrorCode::InvalidSession => "INVALID_SESSION"@,
            ErrorCode::Unauthorized => "UNAUTHORIZED"@,
            ErrorCode::PeerDisconnected => "PEER_DISCONNECTED"@,
            ErrorCode::PeerNotFound => "PEER_NOT_FOUND"@,
            ErrorCode::MalformedMessage => "MALFORMED_MESSAGE"@,
            ErrorCode::InternalError => "INTERNAL_ERROR"@,
            ErrorCode::RateLimitExceeded => "RATE_LIMIT_EXCEEDED"@,
        }
    }

    /// Returns the name of the code on the wire.
    pub fn as_str(&self) -> (r: &'static str)
        ensures
            r@ == self.name(),
    {
        match self {
            ErrorCode::NotRegistered => "NOT_REGISTERED",
            ErrorCode::AlreadyRegistered => "ALREADY_REGISTERED",
            ErrorCode::InvalidRole => "INVALID_ROLE",
            ErrorCode::SessionExpired => "SESSION_EXPIRED",
            ErrorCode::SessionFull => "SESSION_FULL",
            ErrorCode::InvalidSession => "INVALID_SESSION",
            ErrorCode::Unauthorized => "UNAUTHORIZED",
            ErrorCode::PeerDisconnected => "PEER_DISCONNECTED",
            ErrorCode::PeerNotFound => "PEER_NOT_FOUND",
            ErrorCode::MalformedMessage => "MALFORMED_MESSAGE",
            ErrorCode::InternalError => "INTERNAL_ERROR",
            ErrorCode::RateLimitExceeded => "RATE_LIMIT_EXCEEDED",
        }
    }
}

/// A refusal: its code and what the client is told.
#[derive(Debug, Clone)]
pub struct AppError {
    pub error_type: String,
    pub code: ErrorCode,
    pub message: String,
}

/// What an [`AppError`] holds.
pub struct AppErrorView {
    pub error_type: Seq<char>,
    pub code: ErrorCode,
    pub message: Seq<char>,
}

impl View for AppError {
    type V = AppErrorView;

    open spec fn view(&self) -> AppErrorView {
        AppErrorView { error_type: self.error_type@, code: self.code, message: self.message@ }
    }
}

/// The refusal with this code and message.
pub open spec fn refusal(code: ErrorCode, message: Seq<char>) -> AppErrorView {
    AppErrorView { error_type: "error"@, code, message }
}

/// `String::from` on a string slice: the string holds the slice's characters.
pub assume_specification<'a>[ <String as From<&'a str>>::from ](s: &str) -> (r: String)
    ensures
        r@ == s@,
;

impl AppError {
    /// Builds the refusal with this code and message.
    pub fn new<M: Into<String>>(code: ErrorCode, message: M) -> (r: Self)
        ensures
            r@ == refusal(code, r.message@),
            call_ensures(<M as Into<String>>::into, (message,), r.message),
    {
        AppError { error_type: "error".to_string(), code, message: message.into() }
    }
}

} // verus!
