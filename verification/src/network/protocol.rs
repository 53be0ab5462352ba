//! Client protocol messages.
//!
//! Every frame on the wire is a JSON object with a `type` discriminator and
//! message-specific fields; the messages here are their values.

use vstd::prelude::*;
use crate::error::{IdeError, spec_error_code, spec_error_message, is_outside, outside_prefix};
use crate::agent::approval::{Decision, ApprovalKind};
use crate::storage::transcripts::{EntryType, TranscriptEntry};

verus! {

/// Connection state reported to (and by) mobile clients.
#[derive(Debug, Clone, Copy, PartialEq, Eq, Structural)]
pub enum ConnectionState {
    Connected,
    Reconnecting,
    ComputerUnavailable,
    NotSameNetwork,
}

/// Outcome of a pairing attempt.
#[derive(Debug, Clone, Copy, PartialEq, Eq, Structural)]
pub enum PairingStatus {
    Paired,
    Expired,
    Invalid,
    MaxAttempts,
}

/// Messages sent by a client (desktop IDE or mobile app) to the computer.
#[derive(Debug, Clone, PartialEq)]
pub enum ClientMessage {
    AuthVerify { token: String },
    SessionSubscribe { session_id: i64 },
    SessionList,
    SessionCreate { project_id: i64, provider_id: i64, prompt: String },
    SessionCancel { session_id: i64 },
    SessionResume { session_id: i64, from_index: i64 },
    PromptSend { session_id: i64, text: String, model: Option<String> },
    ApprovalRespond { request_id: i64, decision: Decision },
    DevicePairRequest { pairing_code: String, device_name: String },
    DeviceList,
    DeviceRevoke { device_id: i64 },
    ProjectsList,
    ConnectionState { state: ConnectionState },
    Disconnect,
}

#[derive(Debug, Clone, PartialEq, Eq)]
pub struct SessionSummary {
    pub id: i64,
    pub project_name: String,
    pub status: String,
    pub prompt_text: String,
    pub created_at: String,
}

#[derive(Debug, Clone, PartialEq, Eq)]
pub struct ProjectSummary {
    pub id: i64,
    pub name: String,
    pub path: String,
    pub available: bool,
}

#[derive(Debug, Clone, PartialEq, Eq)]
pub struct DeviceSummary {
    pub id: i64,
    pub device_name: String,
    pub paired_at: String,
    pub last_seen_at: Option<String>,
    pub revoked: bool,
}

/// Wire form of a transcript entry: device names, never device ids. The
/// content is the entry's JSON text.
#[derive(Debug, Clone, PartialEq)]
pub struct TranscriptEntryPayload {
    pub order_index: i64,
    pub entry_type: EntryType,
    pub origin_device_name: Option<String>,
    pub content: String,
    pub created_at: String,
}

/// Wire form of an approval request. The details are JSON text.
#[derive(Debug, Clone, PartialEq)]
pub struct ApprovalRequestPayload {
    pub id: i64,
    pub request_type: ApprovalKind,
    pub details: String,
    pub expires_at: String,
}

/// Messages pushed by the computer to a client.
#[derive(Debug, Clone, PartialEq)]
pub enum ServerMessage {
    AuthVerified { device_name: String, status: String },
    SessionListResponse { sessions: Vec<SessionSummary> },
    SessionCreated { session_id: i64, status: String },
    SessionCancelled { session_id: i64 },
    PromptSent { session_id: i64 },
    TranscriptEntryMessage { session_id: i64, entry: TranscriptEntryPayload },
    TranscriptCatchup { entries: Vec<TranscriptEntryPayload> },
    TranscriptComplete { session_id: i64 },
    ApprovalRequestMessage { session_id: i64, request: ApprovalRequestPayload },
    ApprovalResponded { request_id: i64, resolved_by_device_name: String, decision: Decision },
    DevicePairResponse { status: PairingStatus, message: String, auth_token: Option<String> },
    DeviceListResponse { devices: Vec<DeviceSummary> },
    DeviceRevoked { device_id: i64, device_name: String },
    ProjectsListResponse { projects: Vec<ProjectSummary> },
    ConnectionState { state: ConnectionState },
    Error { code: String, message: String, busy_project: Option<String>, resolved_by: Option<String> },
}

/// The name of the project a busy-session error names, if it is one.
pub open spec fn busy_project_of(e: IdeError) -> Option<Seq<char>> {
    match e {
        IdeError::SessionBusy { project } => Some(project@),
        _ => None,
    }
}

/// The device an already-resolved error names, if it is one.
pub open spec fn resolver_named_by(e: IdeError) -> Option<Seq<char>> {
    match e {
        IdeError::AlreadyResolved { resolved_by } => Some(resolved_by@),
        _ => None,
    }
}

/// The text of an optional string.
pub open spec fn option_text(o: Option<String>) -> Option<Seq<char>> {
    match o {
        Some(s) => Some(s@),
        None => None,
    }
}

/// Whether `m` is the error frame for `e`: its code, its message, and the
/// busy project or the resolver where the error names one.
pub open spec fn error_frame(e: IdeError, m: ServerMessage) -> bool {
    match m {
        ServerMessage::Error { code, message, busy_project, resolved_by } => {
            &&& code@ == spec_error_code(e)
            &&& (!is_outside(e) ==> message@ == spec_error_message(e))
            &&& (is_outside(e) ==> message@.len() >= outside_prefix(e).len()
                && message@.take(outside_prefix(e).len() as int) == outside_prefix(e))
            &&& option_text(busy_project) == busy_project_of(e)
            &&& option_text(resolved_by) == resolver_named_by(e)
        },
        _ => false,
    }
}

impl ServerMessage {
    /// Build an error frame from a backend error.
    pub fn from_error(error: &IdeError) -> (m: ServerMessage)
        ensures
            error_frame(*error, m),
    {
        let busy_project = match error {
            IdeError::SessionBusy { project } => Some(project.clone()),
            _ => None,
        };
        let resolved_by = match error {
            IdeError::AlreadyResolved { resolved_by } => Some(resolved_by.clone()),
            _ => None,
        };
        ServerMessage::Error {
            code: error.code().to_string(),
            message: error.message(),
            busy_project,
            resolved_by,
        }
    }
}

impl TranscriptEntryPayload {
    /// The wire form of `entry`, naming its origin device.
    pub fn new(entry: &TranscriptEntry, origin_device_name: Option<String>) -> (r: TranscriptEntryPayload)
        ensures
            r.order_index == entry.order_index,
            r.entry_type == entry.entry_type,
            r.origin_device_name == origin_device_name,
            r.content@ == entry.content@,
            r.created_at@ == entry.created_at@,
    {
        TranscriptEntryPayload {
            order_index: entry.order_index,
            entry_type: entry.entry_type,
            origin_device_name,
            content: entry.content.clone(),
            created_at: entry.created_at.clone(),
        }
    }
}

} // verus!
