//! Error type shared by every backend layer, with the protocol error codes
//! that clients receive.

use vstd::prelude::*;
use crate::text::{concat2, concat3};

verus! {

pub type Result<T> = core::result::Result<T, IdeError>;

#[derive(Debug)]
pub enum IdeError {
    Database(rusqlite::Error),
    Serialization(serde_json::Error),
    Io(std::io::Error),
    NotFound(String),
    Validation(String),
    SandboxViolation { path: String },
    SessionBusy { project: String },
    SessionNotActive,
    AlreadyResolved { resolved_by: String },
    InvalidToken,
    Provider(String),
    Protocol(String),
}

/// The protocol code a client receives for an error.
pub open spec fn spec_error_code(e: IdeError) -> Seq<char> {
    match e {
        IdeError::SessionBusy { .. } => "SESSION_BUSY"@,
        IdeError::SessionNotActive => "SESSION_NOT_ACTIVE"@,
        IdeError::AlreadyResolved { .. } => "ALREADY_RESOLVED"@,
        IdeError::InvalidToken => "INVALID_TOKEN"@,
        IdeError::Provider(_) => "PROVIDER_ERROR"@,
        IdeError::SandboxViolation { .. } => "SANDBOX_VIOLATION"@,
        IdeError::NotFound(_) => "NOT_FOUND"@,
        IdeError::Validation(_) => "INVALID_REQUEST"@,
        _ => "INTERNAL_ERROR"@,
    }
}

impl IdeError {
    /// Protocol error code for messages sent back to clients.
    pub fn code(&self) -> (c: &'static str)
        ensures
            c@ == spec_error_code(*self),
    {
        match self {
            IdeError::SessionBusy { .. } => "SESSION_BUSY",
            IdeError::SessionNotActive => "SESSION_NOT_ACTIVE",
            IdeError::AlreadyResolved { .. } => "ALREADY_RESOLVED",
            IdeError::InvalidToken => "INVALID_TOKEN",
            IdeError::Provider(_) => "PROVIDER_ERROR",
            IdeError::SandboxViolation { .. } => "SANDBOX_VIOLATION",
            IdeError::NotFound(_) => "NOT_FOUND",
            IdeError::Validation(_) => "INVALID_REQUEST",
            _ => "INTERNAL_ERROR",
        }
    }
}


/// The prefix a message starts with for errors that carry an outside error.
pub open spec fn outside_prefix(e: IdeError) -> Seq<char> {
    match e {
        IdeError::Database(_) => "database error: "@,
        IdeError::Serialization(_) => "serialization error: "@,
        _ => "io error: "@,
    }
}

/// The message of an error that carries no outside error.
pub open spec fn spec_error_message(e: IdeError) -> Seq<char> {
    match e {
        IdeError::NotFound(what) => what@ + " not found"@,
        IdeError::Validation(why) => "invalid input: "@ + why@,
        IdeError::SandboxViolation { path } => "path "@ + path@ + " is outside the project folder"@,
        IdeError::SessionBusy { project } => "a session is already running for project "@ + project@,
        IdeError::SessionNotActive => "session is not running"@,
        IdeError::AlreadyResolved { resolved_by } => "this request was already answered by "@ + resolved_by@,
        IdeError::InvalidToken => "auth token is invalid or revoked"@,
        IdeError::Provider(why) => "model provider error: "@ + why@,
        IdeError::Protocol(why) => "protocol error: "@ + why@,
        _ => outside_prefix(e),
    }
}

/// Whether an error comes from an outside crate or the operating system.
pub open spec fn is_outside(e: IdeError) -> bool {
    e is Database || e is Serialization || e is Io
}

/// The text of a database failure, as `rusqlite::Error`'s `Display` writes it.
#[verifier::external_body]
fn sql_error_text(e: &rusqlite::Error) -> (t: String) {
    e.to_string()
}

/// The text of a JSON failure, as `serde_json::Error`'s `Display` writes it.
#[verifier::external_body]
fn json_error_text(e: &serde_json::Error) -> (t: String) {
    e.to_string()
}

/// The text of an I/O failure, as `std::io::Error`'s `Display` writes it.
#[verifier::external_body]
fn io_error_text(e: &std::io::Error) -> (t: String) {
    e.to_string()
}

impl IdeError {
    /// The human-readable message of the error.
    pub fn message(&self) -> (m: String)
        ensures
            !is_outside(*self) ==> m@ == spec_error_message(*self),
            is_outside(*self) ==> m@.len() >= outside_prefix(*self).len()
                && m@.take(outside_prefix(*self).len() as int) == outside_prefix(*self),
    {
        match self {
            IdeError::Database(e) => {
                let t = sql_error_text(e);
                let m = concat2("database error: ", t.as_str());
                proof { assert(m@.take("database error: "@.len() as int) =~= "database error: "@); }
                m
            },
            IdeError::Serialization(e) => {
                let t = json_error_text(e);
                let m = concat2("serialization error: ", t.as_str());
                proof { assert(m@.take("serialization error: "@.len() as int) =~= "serialization error: "@); }
                m
            },
            IdeError::Io(e) => {
                let t = io_error_text(e);
                let m = concat2("io error: ", t.as_str());
                proof { assert(m@.take("io error: "@.len() as int) =~= "io error: "@); }
                m
            },
            IdeError::NotFound(what) => concat2(what.as_str(), " not found"),
            IdeError::Validation(why) => concat2("invalid input: ", why.as_str()),
            IdeError::SandboxViolation { path } => concat3("path ", path.as_str(), " is outside the project folder"),
            IdeError::SessionBusy { project } => concat2("a session is already running for project ", project.as_str()),
            IdeError::SessionNotActive => "session is not running".to_string(),
            IdeError::AlreadyResolved { resolved_by } => concat2("this request was already answered by ", resolved_by.as_str()),
            IdeError::InvalidToken => "auth token is invalid or revoked".to_string(),
            IdeError::Provider(why) => concat2("model provider error: ", why.as_str()),
            IdeError::Protocol(why) => concat2("protocol error: ", why.as_str()),
        }
    }
}

} // verus!
