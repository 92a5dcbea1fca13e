//! The closed error taxonomy and its canonical mapping to RPC-style status
//! codes. Every fallible operation of this crate returns one of these kinds.
//! The payload of a kind that carries one is the diagnostic text of the
//! underlying failure.

use vstd::prelude::*;
use vstd::string::StringExecFns;

verus! {

/// Internal errors.
///
/// Kinds that wrap an underlying failure carry its diagnostic text.
#[derive(Debug, Clone, PartialEq, Eq)]
pub enum Error {
    /// Serialize failure: the outgoing value could not be encoded.
    SerializeError(String),
    /// Broker transport failure.
    AmqpError(String),
    /// Key-value-store failure.
    RedisError(String),
    /// Deserialize failure: the payload is malformed.
    DeserializeError(String),
    /// Database failure.
    DatabaseError(String),
    /// Error in business logic that cannot be solved by retrying.
    BusinessPanic(String),
    /// I/O error in business logic that can be solved by just retrying.
    Io(String),
    /// Trying to do some operation that requires higher permission.
    PermissionsDenied,
    /// Invalid input.
    InvalidInput,
    /// Trying to access a resource that does not exist.
    NotFound,
}

/// RPC-style status codes, the closed image of the taxonomy mapping.
#[derive(Debug, Clone, Copy, PartialEq, Eq, Structural)]
pub enum StatusCode {
    Internal,
    InvalidArgument,
    PermissionDenied,
    NotFound,
}

/// An RPC-style status: a code together with the message text that is safe
/// to return to a caller.
#[derive(Debug, Clone)]
pub struct Status {
    pub code: StatusCode,
    pub message: String,
}

impl Error {
    /// The diagnostic text of this error, as its display form would show it.
    pub open spec fn spec_message(&self) -> Seq<char> {
        match self {
            Error::SerializeError(m) => m@,
            Error::AmqpError(m) => m@,
            Error::RedisError(m) => m@,
            Error::DeserializeError(m) => m@,
            Error::DatabaseError(m) => m@,
            Error::BusinessPanic(m) => m@,
            Error::Io(m) => m@,
            Error::PermissionsDenied => "Permission is not enough"@,
            Error::InvalidInput => "Invalid input"@,
            Error::NotFound => "Trying to access a resource that does not exist"@,
        }
    }

    /// The status code this error maps to. Transport, store, database and
    /// I/O failures and business panics are internal; encode and decode
    /// failures are invalid arguments; the remaining kinds map one to one.
    pub open spec fn spec_status_code(&self) -> StatusCode {
        match self {
            Error::AmqpError(_) => StatusCode::Internal,
            Error::RedisError(_) => StatusCode::Internal,
            Error::DatabaseError(_) => StatusCode::Internal,
            Error::Io(_) => StatusCode::Internal,
            Error::BusinessPanic(_) => StatusCode::Internal,
            Error::SerializeError(_) => StatusCode::InvalidArgument,
            Error::DeserializeError(_) => StatusCode::InvalidArgument,
            Error::PermissionsDenied => StatusCode::PermissionDenied,
            Error::InvalidInput => StatusCode::InvalidArgument,
            Error::NotFound => StatusCode::NotFound,
        }
    }

    /// The message of the status this error maps to. The cause of an
    /// internal failure is never echoed to the caller; only encode and
    /// decode detail text is considered safe to return.
    pub open spec fn spec_status_message(&self) -> Seq<char> {
        match self {
            Error::AmqpError(_) => "Internal server error"@,
            Error::RedisError(_) => "Internal server error"@,
            Error::DatabaseError(_) => "Internal server error"@,
            Error::Io(_) => "Internal server error"@,
            Error::BusinessPanic(_) => "Internal server error"@,
            Error::SerializeError(m) => m@,
            Error::DeserializeError(m) => m@,
            Error::PermissionsDenied => "Permission denied"@,
            Error::InvalidInput => "Invalid input"@,
            Error::NotFound => "Not found"@,
        }
    }

    /// The diagnostic text of this error.
    pub fn message(&self) -> (r: String)
        ensures
            r@ == self.spec_message(),
    {
        match self {
            Error::SerializeError(m) => m.clone(),
            Error::AmqpError(m) => m.clone(),
            Error::RedisError(m) => m.clone(),
            Error::DeserializeError(m) => m.clone(),
            Error::DatabaseError(m) => m.clone(),
            Error::BusinessPanic(m) => m.clone(),
            Error::Io(m) => m.clone(),
            Error::PermissionsDenied => String::from_str("Permission is not enough"),
            Error::InvalidInput => String::from_str("Invalid input"),
            Error::NotFound => String::from_str("Trying to access a resource that does not exist"),
        }
    }

    /// The canonical status mapping, the single source of truth for any
    /// RPC-facing boundary and for the consumer acknowledgment policy.
    pub fn to_status(&self) -> (s: Status)
        ensures
            s.code == self.spec_status_code(),
            s.message@ == self.spec_status_message(),
    {
        match self {
            Error::AmqpError(_)
            | Error::RedisError(_)
            | Error::DatabaseError(_)
            | Error::Io(_)
            | Error::BusinessPanic(_) => Status {
                code: StatusCode::Internal,
                message: String::from_str("Internal server error"),
            },
            Error::SerializeError(m) | Error::DeserializeError(m) => Status {
                code: StatusCode::InvalidArgument,
                message: m.clone(),
            },
            Error::PermissionsDenied => Status {
                code: StatusCode::PermissionDenied,
                message: String::from_str("Permission denied"),
            },
            Error::InvalidInput => Status {
                code: StatusCode::InvalidArgument,
                message: String::from_str("Invalid input"),
            },
            Error::NotFound => Status {
                code: StatusCode::NotFound,
                message: String::from_str("Not found"),
            },
        }
    }
}

} // verus!
