//! Error-severity taxonomy surfaced by tagging and archival failures.
//!
//! Each severity projects to one HTTP status code and one numeric RPC
//! status code; validation, format and internal errors surface under the
//! internal-server-error severity unless a caller assigns a more specific
//! one.

use vstd::prelude::*;
use vstd::string::*;

verus! {

/// Severity of a failure.
#[derive(Clone, Copy, Debug, PartialEq, Eq, Structural)]
pub enum BentoMLStatus {
    Okay,
    BadRequest,
    Unauthorized,
    Forbidden,
    NotFound,
    TooManyRequests,
    InternalServerError,
    ServiceUnavailable,
}

/// The HTTP status code of each severity.
pub open spec fn http_code_spec(s: BentoMLStatus) -> u32 {
    match s {
        BentoMLStatus::Okay => 200,
        BentoMLStatus::BadRequest => 400,
        BentoMLStatus::Unauthorized => 401,
        BentoMLStatus::Forbidden => 403,
        BentoMLStatus::NotFound => 404,
        BentoMLStatus::TooManyRequests => 429,
        BentoMLStatus::InternalServerError => 500,
        BentoMLStatus::ServiceUnavailable => 503,
    }
}

/// The numeric RPC status code of each severity.
pub open spec fn grpc_status_spec(s: BentoMLStatus) -> u32 {
    match s {
        BentoMLStatus::Okay => 0,
        BentoMLStatus::BadRequest => 3,
        BentoMLStatus::Unauthorized => 16,
        BentoMLStatus::Forbidden => 7,
        BentoMLStatus::NotFound => 5,
        BentoMLStatus::TooManyRequests => 8,
        BentoMLStatus::InternalServerError => 13,
        BentoMLStatus::ServiceUnavailable => 14,
    }
}

impl BentoMLStatus {
    /// HTTP status code of this severity.
    pub fn http_code(&self) -> (r: u32)
        ensures
            r == http_code_spec(*self),
    {
        match self {
            BentoMLStatus::Okay => 200,
            BentoMLStatus::BadRequest => 400,
            BentoMLStatus::Unauthorized => 401,
            BentoMLStatus::Forbidden => 403,
            BentoMLStatus::NotFound => 404,
            BentoMLStatus::TooManyRequests => 429,
            BentoMLStatus::InternalServerError => 500,
            BentoMLStatus::ServiceUnavailable => 503,
        }
    }

    /// Numeric RPC status code of this severity.
    pub fn grpc_status(&self) -> (r: u32)
        ensures
            r == grpc_status_spec(*self),
    {
        match self {
            BentoMLStatus::Okay => 0,
            BentoMLStatus::BadRequest => 3,
            BentoMLStatus::Unauthorized => 16,
            BentoMLStatus::Forbidden => 7,
            BentoMLStatus::NotFound => 5,
            BentoMLStatus::TooManyRequests => 8,
            BentoMLStatus::InternalServerError => 13,
            BentoMLStatus::ServiceUnavailable => 14,
        }
    }
}

/// A failure as surfaced to the host: a human-readable message under the
/// default internal-server-error severity.
#[derive(Debug)]
pub struct BentoMLException {
    message: String,
}

impl View for BentoMLException {
    type V = Seq<char>;

    closed spec fn view(&self) -> Seq<char> {
        self.message@
    }
}

impl BentoMLException {
    /// Wraps a message.
    pub fn new(message: String) -> (r: Self)
        ensures
            r@ == message@,
    {
        BentoMLException { message }
    }

    /// The wrapped message.
    pub fn get_message(&self) -> (r: &str)
        ensures
            r@ == self@,
    {
        self.message.as_str()
    }

    /// The default severity of these failures.
    pub fn error_code() -> (r: BentoMLStatus)
        ensures
            r == BentoMLStatus::InternalServerError,
    {
        BentoMLStatus::InternalServerError
    }
}

} // verus!
