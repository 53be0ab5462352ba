//! Message dispatch and connection handling of the local server.
//!
//! The transport (TLS, WebSocket frames, spawning runs) belongs to the
//! program; the decisions it takes on each frame are made here: which reply
//! a message gets, which run it starts, and when a connection closes.

use vstd::prelude::*;
use crate::error::{IdeError, Result};
use crate::config::AppConfig;
use crate::paths::{join, spec_join};
use crate::storage::Database;
use crate::storage::rows::{StoredRow, Table, row_inserted};
use crate::storage::projects::{read_project, stored_project};
use crate::agent::approval::{ApprovalRequest, Decision, stored_approval, answered, resolve_in, resolver_of};
use crate::agent::provider::{ModelProvider, read_provider, stored_provider};
use crate::agent::session::{AgentSession, SessionRepository, SessionStatus, SessionRow, read_session, find_active, list_sorted_sessions,
    stored_session, stored_session_row, session_active, spec_is_terminal, spec_can_transition, status_text, lists_sessions, sessions_readable,
    session_projects_stored, at_most_one_active, other_active, busy_with, some_active, active_in_project,
    lemma_idle_session_added, session_of_row};
use crate::network::protocol::{ClientMessage, ServerMessage, SessionSummary, error_frame};
use crate::order::sorted;
use crate::text::{concat2, spec_trim};

verus! {

/// Paths to the TLS certificate and private key used for WSS.
#[derive(Debug, Clone)]
pub struct TlsPaths {
    pub certificate: String,
    pub private_key: String,
}

impl TlsPaths {
    /// Default TLS material location inside the application data directory.
    pub fn from_config(config: &AppConfig) -> (r: TlsPaths)
        ensures
            r.certificate@ == spec_join(config.data_dir@, "tls/cert.pem"@),
            r.private_key@ == spec_join(config.data_dir@, "tls/key.pem"@),
    {
        TlsPaths {
            certificate: join(config.data_dir.as_str(), "tls/cert.pem"),
            private_key: join(config.data_dir.as_str(), "tls/key.pem"),
        }
    }
}

/// The `type` tag of a client message.
pub open spec fn spec_message_name(m: ClientMessage) -> Seq<char> {
    match m {
        ClientMessage::AuthVerify { .. } => "auth.verify"@,
        ClientMessage::SessionSubscribe { .. } => "session.subscribe"@,
        ClientMessage::SessionList => "session.list"@,
        ClientMessage::SessionCreate { .. } => "session.create"@,
        ClientMessage::SessionCancel { .. } => "session.cancel"@,
        ClientMessage::SessionResume { .. } => "session.resume"@,
        ClientMessage::PromptSend { .. } => "prompt.send"@,
        ClientMessage::ApprovalRespond { .. } => "approval.respond"@,
        ClientMessage::DevicePairRequest { .. } => "device.pair.request"@,
        ClientMessage::DeviceList => "device.list"@,
        ClientMessage::DeviceRevoke { .. } => "device.revoke"@,
        ClientMessage::ProjectsList => "projects.list"@,
        ClientMessage::ConnectionState { .. } => "connection.state"@,
        ClientMessage::Disconnect => "disconnect"@,
    }
}

/// The `type` tag of a client message.
pub fn message_name(message: &ClientMessage) -> (r: &'static str)
    ensures
        r@ == spec_message_name(*message),
{
    match message {
        ClientMessage::AuthVerify { .. } => "auth.verify",
        ClientMessage::SessionSubscribe { .. } => "session.subscribe",
        ClientMessage::SessionList => "session.list",
        ClientMessage::SessionCreate { .. } => "session.create",
        ClientMessage::SessionCancel { .. } => "session.cancel",
        ClientMessage::SessionResume { .. } => "session.resume",
        ClientMessage::PromptSend { .. } => "prompt.send",
        ClientMessage::ApprovalRespond { .. } => "approval.respond",
        ClientMessage::DevicePairRequest { .. } => "device.pair.request",
        ClientMessage::DeviceList => "device.list",
        ClientMessage::DeviceRevoke { .. } => "device.revoke",
        ClientMessage::ProjectsList => "projects.list",
        ClientMessage::ConnectionState { .. } => "connection.state",
        ClientMessage::Disconnect => "disconnect",
    }
}

/// Whether `m` summarizes session `s`: its id, its project's name, its
/// status, prompt and creation time.
pub open spec fn summary_of(rows: Map<(Table, i64), StoredRow>, s: AgentSession, m: SessionSummary) -> bool {
    &&& m.id == s.id
    &&& stored_project(rows, s.project_id) is Some
    &&& m.project_name@ == stored_project(rows, s.project_id)->0.name@
    &&& m.status@ == status_text(s.status)
    &&& m.prompt_text@ == s.prompt_text@
    &&& m.created_at@ == s.created_at@
}

/// Whether `v` summarizes `listed`, one summary per session in order.
pub open spec fn summarizes(rows: Map<(Table, i64), StoredRow>, listed: Seq<AgentSession>, v: Seq<SessionSummary>) -> bool {
    &&& listed.len() == v.len()
    &&& forall|i: int| 0 <= i < v.len() ==> summary_of(rows, listed[i], #[trigger] v[i])
}

/// Sessions with their project name, newest first.
pub fn session_summaries(db: &Database) -> (r: Result<Vec<SessionSummary>>)
    ensures
        r matches Ok(v) ==> exists|listed: Seq<AgentSession>| lists_sessions(db.rows(), listed)
            && sorted(listed) && #[trigger] summarizes(db.rows(), listed, v@),
        r matches Err(e) ==> e is Database || e is Validation || e is NotFound,
        sessions_readable(db.rows()) && session_projects_stored(db.rows()) ==> r is Ok || r->Err_0 is Database,
{
    let sessions = match list_sorted_sessions(db) {
        Ok(v) => v,
        Err(e) => return Err(e),
    };
    let mut out: Vec<SessionSummary> = Vec::new();
    let mut i: usize = 0;
    while i < sessions.len()
        invariant
            i <= sessions.len(),
            out@.len() == i,
            forall|k: int| 0 <= k < i ==> summary_of(db.rows(), sessions@[k], #[trigger] out@[k]),
            lists_sessions(db.rows(), sessions@),
        decreases sessions.len() - i,
    {
        let s = &sessions[i];
        let project = match read_project(db, s.project_id) {
            Ok(p) => p,
            Err(e) => {
                proof { assert(stored_session(db.rows(), sessions@[i as int].id) == Some(sessions@[i as int])); }
                return Err(e);
            },
        };
        out.push(SessionSummary {
            id: s.id,
            project_name: project.name,
            status: s.status.as_str().to_string(),
            prompt_text: s.prompt_text.clone(),
            created_at: s.created_at.clone(),
        });
        i = i + 1;
    }
    proof {
        assert(lists_sessions(db.rows(), sessions@) && sorted(sessions@));
        assert(summarizes(db.rows(), sessions@, out@));
        assert(exists|listed: Seq<AgentSession>| lists_sessions(db.rows(), listed)
            && sorted(listed) && #[trigger] summarizes(db.rows(), listed, out@));
    }
    let r: Result<Vec<SessionSummary>> = Ok(out);
    assert(r matches Ok(v) && v@ == out@);
    r
}

/// Check that `session_id` may start a prompt and fetch the provider it
/// runs against. Only one session may run at a time across all projects:
/// while another one is running, the prompt is refused with `SessionBusy`
/// naming that session's project.
pub fn prepare_prompt(db: &Database, session_id: i64) -> (r: Result<ModelProvider>)
    ensures
        r matches Ok(p) ==> {
            &&& stored_session(db.rows(), session_id) is Some
            &&& p.id == stored_session(db.rows(), session_id)->0.provider_id
            &&& stored_provider(db.rows(), p.id) == Some(p)
        },
        stored_session(db.rows(), session_id) is None ==> r is Err,
        stored_session_row(db.rows(), session_id) is None ==> r is Err && (r->Err_0 is NotFound || r->Err_0 is Database),
        r matches Err(e) ==> e is Database || e is Validation || e is NotFound || e is SessionBusy,
        busy_names(r, db.rows(), session_id),
        stored_session(db.rows(), session_id) is Some
            && session_projects_stored(db.rows()) && at_most_one_active(db.rows())
            && other_active(db.rows(), session_id)
            ==> r is Err && (r->Err_0 is SessionBusy || r->Err_0 is Database),
        stored_session(db.rows(), session_id) is Some
            && !other_active(db.rows(), session_id)
            && stored_provider(db.rows(), stored_session(db.rows(), session_id)->0.provider_id) is Some
            ==> r is Ok || r->Err_0 is Database,
{
    let session = match read_session(db, session_id) {
        Ok(s) => s,
        Err(e) => return Err(e),
    };
    match find_active(db) {
        Ok(Some(active)) => {
            if active.id != session_id {
                proof { assert(session_active(db.rows(), active.id)); }
                let project = match read_project(db, active.project_id) {
                    Ok(p) => p,
                    Err(e) => {
                        assert(stored_session(db.rows(), active.id) matches Some(s) && s.project_id == active.project_id);
                        return Err(e);
                    },
                };
                assert(stored_project(db.rows(), stored_session(db.rows(), active.id)->0.project_id) == Some(project));
                return Err(IdeError::SessionBusy { project: project.name });
            }
            proof { assert(session_active(db.rows(), session_id)); }
        },
        Ok(None) => {},
        Err(e) => return Err(e),
    }
    read_provider(db, session.provider_id)
}

/// When `r` refuses with `SessionBusy`, the project it names has a session
/// other than `id` running or waiting.
pub open spec fn busy_names<T>(r: Result<T>, rows: Map<(Table, i64), StoredRow>, id: i64) -> bool {
    match r {
        Err(IdeError::SessionBusy { project }) => busy_with(rows, id, project@),
        _ => true,
    }
}

/// When `r` refuses with `SessionBusy`, the project it names has a session
/// running or waiting.
pub open spec fn busy_in_project<T>(r: Result<T>, rows: Map<(Table, i64), StoredRow>) -> bool {
    match r {
        Err(IdeError::SessionBusy { project }) => active_in_project(rows, project@),
        _ => true,
    }
}

/// What the program does after a message was dispatched.
#[derive(Debug)]
pub enum Dispatched {
    /// Send `reply`, if there is one, back to the client.
    Reply { reply: Option<ServerMessage> },
    /// Start the agent run of `session_id` for `prompt` in the background
    /// against `provider`, then send `reply`.
    Start { session_id: i64, prompt: String, model: Option<String>, provider: ModelProvider, reply: ServerMessage },
    /// Cancel the prompt in flight for `session_id`, then finish with
    /// [`finish_cancel`].
    Cancel { session_id: i64 },
    /// `request` was answered; wake whoever waits on it, then send `reply`.
    Answered { request: ApprovalRequest, reply: ServerMessage },
}

/// The error for a message that has no handler.
pub open spec fn unhandled(m: ClientMessage) -> Seq<char> {
    "no handler registered for "@ + spec_message_name(m)
}

/// Whether the server handles a message.
pub open spec fn handled(m: ClientMessage) -> bool {
    ||| m is SessionList
    ||| m is SessionCreate
    ||| m is PromptSend
    ||| m is SessionCancel
    ||| m is ApprovalRespond
    ||| m is ConnectionState
    ||| m is Disconnect
}

/// Whether session `id` is stored and over.
pub open spec fn terminal_session(rows: Map<(Table, i64), StoredRow>, id: i64) -> bool {
    stored_session(rows, id) is Some && spec_is_terminal(stored_session(rows, id)->0.status)
}

/// Whether session `id` is stored and not over.
pub open spec fn live_session(rows: Map<(Table, i64), StoredRow>, id: i64) -> bool {
    stored_session(rows, id) is Some && !spec_is_terminal(stored_session(rows, id)->0.status)
}

/// Whether the outcome of a session listing is the list of every session.
pub open spec fn lists_every_session(rows: Map<(Table, i64), StoredRow>, r: Result<Dispatched>) -> bool {
    match r {
        Ok(Dispatched::Reply { reply: Some(ServerMessage::SessionListResponse { sessions }) }) =>
            exists|listed: Seq<AgentSession>| lists_sessions(rows, listed) && sorted(listed)
                && #[trigger] summarizes(rows, listed, sessions@),
        Ok(_) => false,
        Err(e) => e is Database || e is Validation || e is NotFound,
    }
}

/// Whether `d` starts the run of `session_id` for `prompt` with `model`.
pub open spec fn starts_run(d: Dispatched, session_id: i64, prompt: String, model: Option<String>) -> bool {
    match d {
        Dispatched::Start { session_id: id, prompt: p, model: m, .. } => id == session_id && p == prompt && m == model,
        _ => false,
    }
}

/// The reply `d` sends, when it is a run start.
pub open spec fn start_reply(d: Dispatched) -> Option<ServerMessage> {
    match d {
        Dispatched::Start { reply, .. } => Some(reply),
        _ => None,
    }
}

/// The session a run start is for.
pub open spec fn started_session(d: Dispatched) -> i64 {
    match d {
        Dispatched::Start { session_id, .. } => session_id,
        _ => 0,
    }
}

/// Whether the run that `d` starts goes against the provider of its
/// session as `rows` store them.
pub open spec fn runs_against(d: Dispatched, rows: Map<(Table, i64), StoredRow>) -> bool {
    match d {
        Dispatched::Start { session_id, provider, .. } => {
            &&& stored_session(rows, session_id) is Some
            &&& provider.id == stored_session(rows, session_id)->0.provider_id
            &&& stored_provider(rows, provider.id) == Some(provider)
        },
        _ => false,
    }
}

/// Whether session `id` is new in `after`: idle, for `project_id` and
/// `provider_id`, with `prompt`.
pub open spec fn created_session(
    before: Map<(Table, i64), StoredRow>,
    after: Map<(Table, i64), StoredRow>,
    id: i64,
    project_id: i64,
    provider_id: i64,
    prompt: Seq<char>,
) -> bool {
    &&& stored_session_row(before, id) is None
    &&& stored_session(after, id) is Some
    &&& stored_session(after, id)->0.status == SessionStatus::Idle
    &&& stored_session(after, id)->0.project_id == project_id
    &&& stored_session(after, id)->0.provider_id == provider_id
    &&& stored_session(after, id)->0.prompt_text@ == prompt
    &&& stored_session(after, id)->0.completed_at is None
}

/// Whether a session may be created: a prompt that is not blank, an
/// available project and a stored provider.
pub open spec fn creation_valid(rows: Map<(Table, i64), StoredRow>, project_id: i64, provider_id: i64, prompt: Seq<char>) -> bool {
    &&& spec_trim(prompt).len() > 0
    &&& stored_project(rows, project_id) is Some
    &&& stored_project(rows, project_id)->0.available
    &&& stored_provider(rows, provider_id) is Some
}

/// Whether the request that `d` reports answered is stored as answered in
/// `rows`.
pub open spec fn answer_stored(d: Dispatched, rows: Map<(Table, i64), StoredRow>) -> bool {
    match d {
        Dispatched::Answered { request, .. } => stored_approval(rows, request.id) == Some(request),
        _ => false,
    }
}

/// Whether `after` is `before` with one more session, idle.
pub open spec fn idle_session_added(before: Map<(Table, i64), StoredRow>, after: Map<(Table, i64), StoredRow>) -> bool {
    exists|id: i64, row: SessionRow| #[trigger] row_inserted(before, after, (Table::Sessions, id), StoredRow::Session(row))
        && session_of_row(row) is Some && session_of_row(row)->0.status == SessionStatus::Idle
}

/// Whether `m` announces the creation of `session_id`, now running.
pub open spec fn created_reply(m: ServerMessage, session_id: i64) -> bool {
    match m {
        ServerMessage::SessionCreated { session_id: id, status } => id == session_id && status@ == "running"@,
        _ => false,
    }
}

/// Whether `d` reports that request `q` was answered with `decision` from
/// the desktop.
pub open spec fn answered_reply(d: Dispatched, q: ApprovalRequest, decision: Decision) -> bool {
    match d {
        Dispatched::Answered { request, reply } => {
            &&& answered(q, request, decision, None)
            &&& match reply {
                ServerMessage::ApprovalResponded { request_id: rid, resolved_by_device_name, decision: dd } =>
                    rid == q.id && resolved_by_device_name@ == "desktop"@ && dd == decision,
                _ => false,
            }
        },
        _ => false,
    }
}

/// Route a parsed message to its handler.
pub fn dispatch(db: &mut Database, message: ClientMessage) -> (r: Result<Dispatched>)
    ensures
        !handled(message) ==> r is Err && r->Err_0 is Protocol && r->Err_0->Protocol_0@ == unhandled(message),
        !(message is SessionCreate || message is ApprovalRespond) ==> *final(db) == *old(db),
        message is ConnectionState || message is Disconnect ==> r == Ok::<Dispatched, IdeError>(Dispatched::Reply { reply: None }),
        message is SessionList ==> lists_every_session(old(db).rows(), r),
        message matches ClientMessage::PromptSend { session_id, text, model } ==> {
            &&& stored_session_row(old(db).rows(), session_id) is None ==> r is Err
                && (r->Err_0 is NotFound || r->Err_0 is Database)
            &&& terminal_session(old(db).rows(), session_id) ==> r is Err
                && (r->Err_0 is SessionNotActive || r->Err_0 is Database)
            &&& r is Err && r->Err_0 is SessionNotActive ==> terminal_session(old(db).rows(), session_id)
            &&& busy_names(r, old(db).rows(), session_id)
            &&& live_session(old(db).rows(), session_id)
                && session_projects_stored(old(db).rows()) && at_most_one_active(old(db).rows())
                && other_active(old(db).rows(), session_id)
                ==> r is Err && (r->Err_0 is SessionBusy || r->Err_0 is Database)
            &&& live_session(old(db).rows(), session_id)
                && !other_active(old(db).rows(), session_id)
                && stored_provider(old(db).rows(), stored_session(old(db).rows(), session_id)->0.provider_id) is Some
                ==> r is Ok || r->Err_0 is Database
            &&& r is Ok ==> live_session(old(db).rows(), session_id) && starts_run(r->Ok_0, session_id, text, model)
                && start_reply(r->Ok_0) == Some(ServerMessage::PromptSent { session_id })
                && runs_against(r->Ok_0, old(db).rows())
        },
        message matches ClientMessage::SessionCancel { session_id } ==> {
            &&& stored_session_row(old(db).rows(), session_id) is None ==> r is Err
                && (r->Err_0 is NotFound || r->Err_0 is Database)
            &&& terminal_session(old(db).rows(), session_id) ==> r is Err
                && (r->Err_0 is SessionNotActive || r->Err_0 is Database)
            &&& r is Err && r->Err_0 is SessionNotActive ==> terminal_session(old(db).rows(), session_id)
            &&& live_session(old(db).rows(), session_id) ==> r is Ok || r->Err_0 is Database
            &&& r is Ok ==> live_session(old(db).rows(), session_id) && r->Ok_0 == (Dispatched::Cancel { session_id })
        },
        message matches ClientMessage::SessionCreate { project_id, provider_id, prompt } ==> {
            &&& r is Ok ==> {
                &&& starts_run(r->Ok_0, started_session(r->Ok_0), prompt, None)
                &&& start_reply(r->Ok_0) is Some
                &&& created_reply(start_reply(r->Ok_0)->0, started_session(r->Ok_0))
                &&& created_session(old(db).rows(), final(db).rows(), started_session(r->Ok_0), project_id, provider_id, prompt@)
                &&& runs_against(r->Ok_0, final(db).rows())
            }
            &&& busy_in_project(r, old(db).rows())
            &&& creation_valid(old(db).rows(), project_id, provider_id, prompt@)
                && session_projects_stored(old(db).rows()) && at_most_one_active(old(db).rows())
                && some_active(old(db).rows())
                ==> r is Err && (r->Err_0 is SessionBusy || r->Err_0 is Database)
            &&& creation_valid(old(db).rows(), project_id, provider_id, prompt@)
                && !some_active(old(db).rows())
                ==> r is Ok || r->Err_0 is Database
            &&& r is Err ==> final(db).rows() == old(db).rows() || idle_session_added(old(db).rows(), final(db).rows())
        },
        message matches ClientMessage::ApprovalRespond { request_id, decision } ==> {
            &&& r is Ok ==> {
                &&& stored_approval(old(db).rows(), request_id) is Some
                &&& !stored_approval(old(db).rows(), request_id)->0.resolved
                &&& answered_reply(r->Ok_0, stored_approval(old(db).rows(), request_id)->0, decision)
                &&& answer_stored(r->Ok_0, final(db).rows())
            }
            &&& r is Err ==> final(db).rows() == old(db).rows()
            &&& stored_approval(old(db).rows(), request_id) is Some
                && stored_approval(old(db).rows(), request_id)->0.resolved
                && resolver_of(old(db).rows(), stored_approval(old(db).rows(), request_id)->0) is Some
                ==> r is Err && (r->Err_0 is AlreadyResolved || r->Err_0 is Database)
            &&& r is Err && r->Err_0 is AlreadyResolved ==> stored_approval(old(db).rows(), request_id) is Some
                && stored_approval(old(db).rows(), request_id)->0.resolved
                && resolver_of(old(db).rows(), stored_approval(old(db).rows(), request_id)->0) == Some(r->Err_0->resolved_by@)
            &&& stored_approval(old(db).rows(), request_id) is Some
                && !stored_approval(old(db).rows(), request_id)->0.resolved
                ==> r is Ok || r->Err_0 is Database
        },
{
    match message {
        ClientMessage::SessionList => {
            let sessions = session_summaries(&*db)?;
            let ghost listed = sessions@;
            let r: Result<Dispatched> = Ok(Dispatched::Reply { reply: Some(ServerMessage::SessionListResponse { sessions }) });
            assert(r matches Ok(Dispatched::Reply { reply: Some(ServerMessage::SessionListResponse { sessions: v }) }) && v@ == listed);
            r
        },
        ClientMessage::SessionCreate { project_id, provider_id, prompt } => {
            let ghost before = db.rows();
            let created = {
                let mut repo = SessionRepository::new(db);
                repo.create(project_id, provider_id, prompt.as_str(), None)
            };
            let session = match created {
                Ok(s) => s,
                Err(e) => return Err(e),
            };
            proof {
                let row = choose|row: SessionRow| row_inserted(before, db.rows(), (Table::Sessions, session.id), StoredRow::Session(row));
                assert(db.rows()[(Table::Sessions, session.id)] == StoredRow::Session(row));
                assert(stored_session_row(db.rows(), session.id) == Some(row));
                lemma_idle_session_added(before, db.rows(), session.id, row);
                assert(stored_project(before, row.project_id) == stored_project(before, project_id));
            }
            let provider = match prepare_prompt(db, session.id) {
                Ok(p) => p,
                Err(e) => {
                    proof {
                        let row = choose|row: SessionRow| row_inserted(before, db.rows(), (Table::Sessions, session.id), StoredRow::Session(row));
                        assert(db.rows()[(Table::Sessions, session.id)] == StoredRow::Session(row));
                        assert(stored_session_row(db.rows(), session.id) == Some(row));
                        assert(idle_session_added(before, db.rows()));
                    }
                    return Err(e);
                },
            };
            Ok(Dispatched::Start {
                session_id: session.id,
                prompt,
                model: None,
                provider,
                reply: ServerMessage::SessionCreated {
                    session_id: session.id,
                    status: SessionStatus::Running.as_str().to_string(),
                },
            })
        },
        ClientMessage::PromptSend { session_id, text, model } => {
            let session = match read_session(db, session_id) {
                Ok(s) => s,
                Err(e) => return Err(e),
            };
            if session.status.is_terminal() {
                return Err(IdeError::SessionNotActive);
            }
            let provider = match prepare_prompt(db, session_id) {
                Ok(p) => p,
                Err(e) => return Err(e),
            };
            Ok(Dispatched::Start {
                session_id,
                prompt: text,
                model,
                provider,
                reply: ServerMessage::PromptSent { session_id },
            })
        },
        ClientMessage::SessionCancel { session_id } => {
            let session = match read_session(db, session_id) {
                Ok(s) => s,
                Err(e) => return Err(e),
            };
            if session.status.is_terminal() {
                return Err(IdeError::SessionNotActive);
            }
            Ok(Dispatched::Cancel { session_id })
        },
        ClientMessage::ApprovalRespond { request_id, decision } => {
            let request = match resolve_in(db, request_id, decision, None, false) {
                Ok(a) => a,
                Err(e) => return Err(e),
            };
            proof { reveal_strlit("desktop"); }
            let reply = ServerMessage::ApprovalResponded {
                request_id: request.id,
                resolved_by_device_name: "desktop".to_string(),
                decision,
            };
            Ok(Dispatched::Answered { request, reply })
        },
        ClientMessage::ConnectionState { .. } => Ok(Dispatched::Reply { reply: None }),
        ClientMessage::Disconnect => Ok(Dispatched::Reply { reply: None }),
        other => {
            let name = message_name(&other);
            Err(IdeError::Protocol(concat2("no handler registered for ", name)))
        },
    }
}

/// Finish a cancellation: `was_running` tells whether a prompt was in flight
/// and was told to stop, in which case the run marks the session
/// interrupted itself; a session with no prompt in flight is stopped here.
pub fn finish_cancel(db: &mut Database, session_id: i64, was_running: bool) -> (r: Result<ServerMessage>)
    ensures
        was_running ==> *final(db) == *old(db) && r == Ok::<ServerMessage, IdeError>(ServerMessage::SessionCancelled { session_id }),
        r matches Ok(m) ==> m == (ServerMessage::SessionCancelled { session_id }),
        !was_running && r is Ok ==> stored_session(final(db).rows(), session_id) is Some
            && stored_session(final(db).rows(), session_id)->0.status == SessionStatus::Interrupted,
        !was_running && stored_session(old(db).rows(), session_id) is Some
            && (stored_session(old(db).rows(), session_id)->0.status == SessionStatus::Interrupted
            || spec_can_transition(stored_session(old(db).rows(), session_id)->0.status, SessionStatus::Interrupted))
            ==> r is Ok || r->Err_0 is Database,
        r matches Err(e) ==> !was_running && final(db).rows() == old(db).rows()
            && (e is Database || e is Validation || e is NotFound),
        r matches Err(e) && e is NotFound ==> stored_session_row(old(db).rows(), session_id) is None,
        r matches Err(e) && e is Validation ==> stored_session(old(db).rows(), session_id) is None
            || spec_is_terminal(stored_session(old(db).rows(), session_id)->0.status),
{
    if !was_running {
        let mut repo = SessionRepository::new(db);
        match repo.update_status(session_id, SessionStatus::Interrupted) {
            Ok(_) => {},
            Err(e) => return Err(e),
        }
    }
    Ok(ServerMessage::SessionCancelled { session_id })
}

/// What a connection saw since its last turn.
#[derive(Debug)]
pub enum ConnectionEvent {
    /// A frame streamed by the agent, to forward.
    Streamed { message: ServerMessage },
    /// The client fell behind the stream; it recovers with a catch-up.
    Lagged,
    /// The stream ended.
    StreamClosed,
    /// The client asked to disconnect.
    Disconnect,
    /// A message was dispatched with this outcome.
    Handled { outcome: Result<Option<ServerMessage>> },
    /// A text frame could not be parsed.
    Malformed { error: IdeError },
    /// The client closed the socket or it failed.
    ClientClosed,
    /// A frame outside the protocol (binary, ping, pong), ignored.
    Ignored,
}

/// The frame to send back, if any, and whether the connection closes.
pub open spec fn spec_connection_turn(event: ConnectionEvent, reply: Option<ServerMessage>, close: bool) -> bool {
    match event {
        ConnectionEvent::Streamed { message } => reply == Some(message) && !close,
        ConnectionEvent::Lagged => reply is None && !close,
        ConnectionEvent::StreamClosed => reply is None && close,
        ConnectionEvent::Disconnect => reply is None && close,
        ConnectionEvent::Handled { outcome } => !close && match outcome {
            Ok(m) => reply == m,
            Err(e) => reply is Some && error_frame(e, reply->0),
        },
        ConnectionEvent::Malformed { error } => !close && reply is Some && error_frame(error, reply->0),
        ConnectionEvent::ClientClosed => reply is None && close,
        ConnectionEvent::Ignored => reply is None && !close,
    }
}

/// One turn of a connection: what to send back and whether to close.
/// Failures are answered with an error frame and the connection stays open.
pub fn connection_turn(event: ConnectionEvent) -> (r: (Option<ServerMessage>, bool))
    ensures
        spec_connection_turn(event, r.0, r.1),
{
    match event {
        ConnectionEvent::Streamed { message } => (Some(message), false),
        ConnectionEvent::Lagged => (None, false),
        ConnectionEvent::StreamClosed => (None, true),
        ConnectionEvent::Disconnect => (None, true),
        ConnectionEvent::Handled { outcome } => match outcome {
            Ok(reply) => (reply, false),
            Err(e) => (Some(ServerMessage::from_error(&e)), false),
        },
        ConnectionEvent::Malformed { error } => (Some(ServerMessage::from_error(&error)), false),
        ConnectionEvent::ClientClosed => (None, true),
        ConnectionEvent::Ignored => (None, false),
    }
}

} // verus!
