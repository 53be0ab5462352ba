//! Agent session lifecycle and the global single-session lock.

use vstd::prelude::*;
use crate::error::{IdeError, Result};
use crate::storage::rows::{StoredRow, Table, row_inserted, lists_table, without_session};
use crate::storage::{Database, now, sql};
use crate::storage::projects::{read_project, stored_project};
use crate::agent::provider::{read_provider, stored_provider, stored_provider_row};
use crate::text::{spec_trim, trim, i64_to_text, spec_decimal, concat2, concat3};
use crate::order::{Ordered, sort, sorted, text_le, text_in_order, lemma_reorder_keeps_keys};

verus! {

/// A session row as its columns hold it.
#[derive(Debug, Clone, PartialEq, Eq)]
pub struct SessionRow {
    pub id: i64,
    pub project_id: i64,
    pub provider_id: i64,
    pub status: String,
    pub prompt_text: String,
    pub origin_device_id: Option<i64>,
    pub created_at: String,
    pub updated_at: String,
    pub completed_at: Option<String>,
}

/// The session row stored under `id`, if any.
pub open spec fn stored_session_row(rows: Map<(Table, i64), StoredRow>, id: i64) -> Option<SessionRow> {
    if rows.contains_key((Table::Sessions, id)) {
        match rows[(Table::Sessions, id)] {
            StoredRow::Session(s) => Some(s),
            _ => None,
        }
    } else {
        None
    }
}

#[derive(Debug, Clone, Copy, PartialEq, Eq, Structural)]
pub enum SessionStatus {
    Idle,
    Running,
    WaitingApproval,
    Interrupted,
    Complete,
}

/// Stored text of a session status.
pub open spec fn status_text(s: SessionStatus) -> Seq<char> {
    match s {
        SessionStatus::Idle => "idle"@,
        SessionStatus::Running => "running"@,
        SessionStatus::WaitingApproval => "waiting_approval"@,
        SessionStatus::Interrupted => "interrupted"@,
        SessionStatus::Complete => "complete"@,
    }
}

/// The status whose stored text is `t`, if any.
pub open spec fn status_from_text(t: Seq<char>) -> Option<SessionStatus> {
    if t == "idle"@ {
        Some(SessionStatus::Idle)
    } else if t == "running"@ {
        Some(SessionStatus::Running)
    } else if t == "waiting_approval"@ {
        Some(SessionStatus::WaitingApproval)
    } else if t == "interrupted"@ {
        Some(SessionStatus::Interrupted)
    } else if t == "complete"@ {
        Some(SessionStatus::Complete)
    } else {
        None
    }
}

pub open spec fn spec_is_terminal(s: SessionStatus) -> bool {
    s is Interrupted || s is Complete
}

pub open spec fn spec_is_active(s: SessionStatus) -> bool {
    s is Running || s is WaitingApproval
}

/// Allowed transitions: idle -> running -> waiting_approval -> running, with
/// interrupted/complete reachable from any non-terminal state.
pub open spec fn spec_can_transition(from: SessionStatus, to: SessionStatus) -> bool {
    if spec_is_terminal(from) {
        false
    } else if spec_is_terminal(to) {
        true
    } else {
        (from is Idle && to is Running) || (from is Running && to is WaitingApproval) || (
        from is WaitingApproval && to is Running)
    }
}

/// The lifecycle of a session: between statuses that are not final, a
/// session only starts (idle to running), waits for an approval (running to
/// waiting) and resumes (waiting to running). Nothing moves back to idle,
/// and a final status is never left.
pub proof fn lemma_lifecycle_moves(from: SessionStatus, to: SessionStatus)
    ensures
        !(from is Interrupted || from is Complete) && !(to is Interrupted || to is Complete) ==> (spec_can_transition(from, to) <==> (
            (from == SessionStatus::Idle && to == SessionStatus::Running)
            || (from == SessionStatus::Running && to == SessionStatus::WaitingApproval)
            || (from == SessionStatus::WaitingApproval && to == SessionStatus::Running))),
        to == SessionStatus::Idle ==> !spec_can_transition(from, to),
        (from is Interrupted || from is Complete) ==> !spec_can_transition(from, to),
        !(from is Interrupted || from is Complete) && (to is Interrupted || to is Complete) ==> spec_can_transition(from, to),
{
}

impl SessionStatus {
    pub fn as_str(self) -> (s: &'static str)
        ensures
            s@ == status_text(self),
    {
        proof {
            reveal_strlit("idle");
            reveal_strlit("running");
            reveal_strlit("waiting_approval");
            reveal_strlit("interrupted");
            reveal_strlit("complete");
        }
        match self {
            SessionStatus::Idle => "idle",
            SessionStatus::Running => "running",
            SessionStatus::WaitingApproval => "waiting_approval",
            SessionStatus::Interrupted => "interrupted",
            SessionStatus::Complete => "complete",
        }
    }

    pub fn parse(value: &str) -> (r: Result<SessionStatus>)
        ensures
            match status_from_text(value@) {
                Some(s) => r == Ok::<SessionStatus, IdeError>(s),
                None => r is Err && r->Err_0 is Validation,
            },
    {
        proof {
            reveal_strlit("idle");
            reveal_strlit("running");
            reveal_strlit("waiting_approval");
            reveal_strlit("interrupted");
            reveal_strlit("complete");
        }
        if crate::text::str_eq(value, "idle") {
            Ok(SessionStatus::Idle)
        } else if crate::text::str_eq(value, "running") {
            Ok(SessionStatus::Running)
        } else if crate::text::str_eq(value, "waiting_approval") {
            Ok(SessionStatus::WaitingApproval)
        } else if crate::text::str_eq(value, "interrupted") {
            Ok(SessionStatus::Interrupted)
        } else if crate::text::str_eq(value, "complete") {
            Ok(SessionStatus::Complete)
        } else {
            Err(IdeError::Validation(crate::text::concat2("unknown session status ", value)))
        }
    }

    /// Terminal states never transition again.
    pub fn is_terminal(self) -> (b: bool)
        ensures
            b == spec_is_terminal(self),
    {
        matches!(self, SessionStatus::Interrupted | SessionStatus::Complete)
    }

    /// Whether the session occupies the single global agent slot.
    pub fn is_active(self) -> (b: bool)
        ensures
            b == spec_is_active(self),
    {
        matches!(self, SessionStatus::Running | SessionStatus::WaitingApproval)
    }

    /// Allowed transitions: idle -> running -> waiting_approval -> running,
    /// with interrupted/complete reachable from any non-terminal state.
    pub fn can_transition_to(self, next: SessionStatus) -> (b: bool)
        ensures
            b == spec_can_transition(self, next),
    {
        if self.is_terminal() {
            false
        } else if next.is_terminal() {
            true
        } else {
            match (self, next) {
                (SessionStatus::Idle, SessionStatus::Running) => true,
                (SessionStatus::Running, SessionStatus::WaitingApproval) => true,
                (SessionStatus::WaitingApproval, SessionStatus::Running) => true,
                _ => false,
            }
        }
    }
}

/// An agent session bound to one project and one model provider.
#[derive(Debug, Clone, PartialEq, Eq)]
pub struct AgentSession {
    pub id: i64,
    pub project_id: i64,
    pub provider_id: i64,
    pub status: SessionStatus,
    pub prompt_text: String,
    pub origin_device_id: Option<i64>,
    pub created_at: String,
    pub updated_at: String,
    pub completed_at: Option<String>,
}

/// The session a stored row describes, when its status is known.
pub open spec fn session_of_row(r: SessionRow) -> Option<AgentSession> {
    match status_from_text(r.status@) {
        Some(status) => Some(AgentSession {
            id: r.id,
            project_id: r.project_id,
            provider_id: r.provider_id,
            status,
            prompt_text: r.prompt_text,
            origin_device_id: r.origin_device_id,
            created_at: r.created_at,
            updated_at: r.updated_at,
            completed_at: r.completed_at,
        }),
        None => None,
    }
}

/// The session stored under `id`, if any and readable.
pub open spec fn stored_session(rows: Map<(Table, i64), StoredRow>, id: i64) -> Option<AgentSession> {
    match stored_session_row(rows, id) {
        Some(r) => session_of_row(r),
        None => None,
    }
}

/// Whether the session stored under `id` occupies the global agent slot.
pub open spec fn session_active(rows: Map<(Table, i64), StoredRow>, id: i64) -> bool {
    stored_session(rows, id) matches Some(s) && spec_is_active(s.status)
}

/// Whether every stored session can be read: its status is a known text.
pub open spec fn sessions_readable(rows: Map<(Table, i64), StoredRow>) -> bool {
    forall|id: i64| #[trigger] stored_session_row(rows, id) is Some ==> stored_session(rows, id) is Some
}

/// At most one session is running or waiting for approval.
pub open spec fn at_most_one_active(rows: Map<(Table, i64), StoredRow>) -> bool {
    forall|a: i64, b: i64| #[trigger] session_active(rows, a) && #[trigger] session_active(rows, b) ==> a == b
}

/// Every stored session belongs to a stored project.
pub open spec fn session_projects_stored(rows: Map<(Table, i64), StoredRow>) -> bool {
    forall|id: i64| #[trigger] stored_session(rows, id) matches Some(s) ==> stored_project(rows, s.project_id) is Some
}

/// Some session other than `id` is running or waiting, and it belongs to a
/// project called `name`.
pub open spec fn busy_with(rows: Map<(Table, i64), StoredRow>, id: i64, name: Seq<char>) -> bool {
    exists|other: i64| other != id && #[trigger] session_active(rows, other)
        && stored_project(rows, stored_session(rows, other)->0.project_id) is Some
        && stored_project(rows, stored_session(rows, other)->0.project_id)->0.name@ == name
}

/// Some session other than `id` is running or waiting.
pub open spec fn other_active(rows: Map<(Table, i64), StoredRow>, id: i64) -> bool {
    exists|other: i64| other != id && #[trigger] session_active(rows, other)
}

/// Some session is running or waiting.
pub open spec fn some_active(rows: Map<(Table, i64), StoredRow>) -> bool {
    exists|other: i64| #[trigger] session_active(rows, other)
}

/// Some running or waiting session belongs to a project called `name`.
pub open spec fn active_in_project(rows: Map<(Table, i64), StoredRow>, name: Seq<char>) -> bool {
    exists|other: i64| #[trigger] session_active(rows, other)
        && stored_project(rows, stored_session(rows, other)->0.project_id) is Some
        && stored_project(rows, stored_session(rows, other)->0.project_id)->0.name@ == name
}

/// Adding a fresh idle session leaves every other session, project and
/// provider as it was, and sets no new session running.
pub proof fn lemma_idle_session_added(
    before: Map<(Table, i64), StoredRow>,
    after: Map<(Table, i64), StoredRow>,
    id: i64,
    row: SessionRow,
)
    requires
        row_inserted(before, after, (Table::Sessions, id), StoredRow::Session(row)),
        session_of_row(row) is Some,
        session_of_row(row)->0.status == SessionStatus::Idle,
    ensures
        stored_session(after, id) == session_of_row(row),
        stored_session_row(before, id) is None,
        forall|x: i64| x != id ==> #[trigger] stored_session(after, x) == stored_session(before, x),
        forall|x: i64| #[trigger] stored_project(after, x) == stored_project(before, x),
        forall|x: i64| #[trigger] stored_provider(after, x) == stored_provider(before, x),
        forall|x: i64| #[trigger] session_active(after, x) == (x != id && session_active(before, x)),
        sessions_readable(before) ==> sessions_readable(after),
        at_most_one_active(before) ==> at_most_one_active(after),
        session_projects_stored(before) && stored_project(before, row.project_id) is Some
            ==> session_projects_stored(after),
        other_active(after, id) == some_active(before),
        forall|name: Seq<char>| #[trigger] busy_with(after, id, name) ==> active_in_project(before, name),
{
    assert forall|x: i64| x != id implies #[trigger] stored_session(after, x) == stored_session(before, x) by {
        assert(stored_session_row(after, x) == stored_session_row(before, x));
    }
    assert forall|x: i64| #[trigger] stored_project(after, x) == stored_project(before, x) by {
        assert(after.contains_key((Table::Projects, x)) == before.contains_key((Table::Projects, x)));
    }
    assert forall|x: i64| #[trigger] stored_provider(after, x) == stored_provider(before, x) by {
        assert(after.contains_key((Table::Providers, x)) == before.contains_key((Table::Providers, x)));
        assert(stored_provider_row(after, x) == stored_provider_row(before, x));
    }
    assert(!session_active(before, id));
    assert forall|x: i64| #[trigger] session_active(after, x) == (x != id && session_active(before, x)) by {
        if x != id {
            assert(stored_session(after, x) == stored_session(before, x));
        }
    }
    if sessions_readable(before) {
        assert forall|x: i64| #[trigger] stored_session_row(after, x) is Some implies stored_session(after, x) is Some by {
            if x != id {
                assert(stored_session_row(after, x) == stored_session_row(before, x));
            }
        }
    }
    if at_most_one_active(before) {
        assert forall|a: i64, b: i64| #[trigger] session_active(after, a) && #[trigger] session_active(after, b) implies a == b by {
            assert(session_active(before, a) && session_active(before, b));
        }
    }
    if session_projects_stored(before) && stored_project(before, row.project_id) is Some {
        assert forall|x: i64| #[trigger] stored_session(after, x) is Some implies stored_project(after, stored_session(after, x)->0.project_id) is Some by {
            if x != id {
                assert(stored_session(after, x) == stored_session(before, x));
                assert(stored_project(after, stored_session(before, x)->0.project_id) == stored_project(before, stored_session(before, x)->0.project_id));
            } else {
                assert(stored_project(after, row.project_id) == stored_project(before, row.project_id));
            }
        }
    }
    if other_active(after, id) {
        let o = choose|o: i64| o != id && #[trigger] session_active(after, o);
        assert(session_active(before, o));
    }
    if some_active(before) {
        let o = choose|o: i64| #[trigger] session_active(before, o);
        assert(session_active(after, o));
    }
    assert forall|name: Seq<char>| #[trigger] busy_with(after, id, name) implies active_in_project(before, name) by {
        let o = choose|o: i64| o != id && #[trigger] session_active(after, o)
            && stored_project(after, stored_session(after, o)->0.project_id) is Some
            && stored_project(after, stored_session(after, o)->0.project_id)->0.name@ == name;
        assert(stored_session(after, o) == stored_session(before, o));
        assert(stored_project(after, stored_session(after, o)->0.project_id) == stored_project(before, stored_session(before, o)->0.project_id));
        assert(session_active(before, o));
    }
}

/// The not-found error for session `id`.
pub open spec fn session_not_found(id: i64) -> Seq<char> {
    "session "@ + spec_decimal(id as int)
}

/// `listed` holds every stored session exactly once.
pub open spec fn lists_sessions(rows: Map<(Table, i64), StoredRow>, listed: Seq<AgentSession>) -> bool {
    &&& forall|i: int| 0 <= i < listed.len() ==> stored_session(rows, #[trigger] listed[i].id) == Some(listed[i])
    &&& forall|id: i64| #[trigger] stored_session_row(rows, id) is Some ==> exists|i: int| 0 <= i < listed.len() && listed[i].id == id
    &&& forall|i: int, j: int| 0 <= i < j < listed.len() ==> #[trigger] listed[i].id != #[trigger] listed[j].id
}

/// Sessions are listed newest first.
impl Ordered for AgentSession {
    open spec fn precedes(&self, other: &Self) -> bool {
        text_le(other.created_at@, self.created_at@)
    }

    proof fn lemma_total(a: &Self, b: &Self) {
        crate::order::lemma_text_le_total(a.created_at@, b.created_at@);
    }

    proof fn lemma_transitive(a: &Self, b: &Self, c: &Self) {
        crate::order::lemma_text_le_transitive(c.created_at@, b.created_at@, a.created_at@);
    }

    fn in_order(&self, other: &Self) -> (r: bool) {
        text_in_order(other.created_at.as_str(), self.created_at.as_str())
    }
}

impl AgentSession {
    /// The session a stored row describes; a row with an unknown status is
    /// refused.
    pub fn from_row(row: SessionRow) -> (r: Result<AgentSession>)
        ensures
            session_of_row(row) matches Some(s) ==> r == Ok::<AgentSession, IdeError>(s),
            session_of_row(row) is None ==> r is Err && r->Err_0 is Validation,
    {
        let status = match SessionStatus::parse(row.status.as_str()) {
            Ok(s) => s,
            Err(e) => return Err(e),
        };
        Ok(AgentSession {
            id: row.id,
            project_id: row.project_id,
            provider_id: row.provider_id,
            status,
            prompt_text: row.prompt_text,
            origin_device_id: row.origin_device_id,
            created_at: row.created_at,
            updated_at: row.updated_at,
            completed_at: row.completed_at,
        })
    }

    /// The row that stores this session.
    pub fn to_row(&self) -> (r: SessionRow)
        ensures
            session_of_row(r) == Some(*self),
            r.id == self.id,
    {
        let row = SessionRow {
            id: self.id,
            project_id: self.project_id,
            provider_id: self.provider_id,
            status: self.status.as_str().to_string(),
            prompt_text: self.prompt_text.clone(),
            origin_device_id: self.origin_device_id,
            created_at: self.created_at.clone(),
            updated_at: self.updated_at.clone(),
            completed_at: clone_text_option(&self.completed_at),
        };
        proof { lemma_status_text_round_trip(self.status); }
        row
    }
}

/// A copy of an optional text.
pub fn clone_text_option(t: &Option<String>) -> (r: Option<String>)
    ensures
        r == *t,
{
    match t {
        Some(s) => Some(s.clone()),
        None => None,
    }
}

/// Reads the session stored under `id`.
pub fn read_session(db: &Database, id: i64) -> (r: Result<AgentSession>)
    ensures
        r matches Ok(s) ==> stored_session(db.rows(), id) == Some(s) && s.id == id,
        r matches Err(e) ==> (e is NotFound && stored_session_row(db.rows(), id) is None
            && e->NotFound_0@ == session_not_found(id)) || e is Database || e is Validation,
        stored_session(db.rows(), id) is None ==> r is Err,
        stored_session(db.rows(), id) is Some ==> r is Ok || r->Err_0 is Database,
        r matches Err(e) && e is Validation ==> stored_session_row(db.rows(), id) is Some,
{
    match sql::select_session(db, id) {
        Ok(Some(row)) => AgentSession::from_row(row),
        Ok(None) => {
            let t = i64_to_text(id);
            proof { reveal_strlit("session "); }
            Err(IdeError::NotFound(concat2("session ", t.as_str())))
        },
        Err(e) => Err(IdeError::Database(e)),
    }
}

/// Reads every stored session, in no particular order.
fn read_sessions(db: &Database) -> (r: Result<Vec<AgentSession>>)
    ensures
        r matches Ok(v) ==> lists_sessions(db.rows(), v@),
        r matches Err(e) ==> e is Database || e is Validation,
        sessions_readable(db.rows()) ==> r is Ok || r->Err_0 is Database,
{
    let rows = match sql::select_all_sessions(db) {
        Ok(v) => v,
        Err(e) => return Err(IdeError::Database(e)),
    };
    let ghost listed = rows@.map_values(|r: SessionRow| (r.id, StoredRow::Session(r)));
    let mut sessions: Vec<AgentSession> = Vec::new();
    let mut i: usize = 0;
    while i < rows.len()
        invariant
            i <= rows.len(),
            sessions@.len() == i,
            lists_table(db.rows(), Table::Sessions, listed),
            listed == rows@.map_values(|r: SessionRow| (r.id, StoredRow::Session(r))),
            forall|k: int| 0 <= k < i ==> session_of_row(#[trigger] rows@[k]) == Some(sessions@[k]),
        decreases rows.len() - i,
    {
        let row = SessionRow {
            id: rows[i].id,
            project_id: rows[i].project_id,
            provider_id: rows[i].provider_id,
            status: rows[i].status.clone(),
            prompt_text: rows[i].prompt_text.clone(),
            origin_device_id: rows[i].origin_device_id,
            created_at: rows[i].created_at.clone(),
            updated_at: rows[i].updated_at.clone(),
            completed_at: clone_text_option(&rows[i].completed_at),
        };
        assert(row == rows@[i as int]);
        let s = match AgentSession::from_row(row) {
            Ok(s) => s,
            Err(e) => {
                proof {
                    assert(listed[i as int] == (rows@[i as int].id, StoredRow::Session(rows@[i as int])));
                    assert(db.rows().contains_key((Table::Sessions, listed[i as int].0)));
                    assert(stored_session_row(db.rows(), rows@[i as int].id) == Some(rows@[i as int]));
                }
                return Err(e);
            },
        };
        sessions.push(s);
        i = i + 1;
    }
    proof {
        assert forall|k: int| 0 <= k < sessions@.len() implies stored_session(db.rows(), #[trigger] sessions@[k].id) == Some(sessions@[k]) by {
            assert(listed[k] == (rows@[k].id, StoredRow::Session(rows@[k])));
            assert(db.rows().contains_key((Table::Sessions, listed[k].0)));
        }
        assert forall|id: i64| #[trigger] stored_session_row(db.rows(), id) is Some implies exists|k: int| 0 <= k < sessions@.len() && sessions@[k].id == id by {
            assert(db.rows().contains_key((Table::Sessions, id)));
            let k = choose|k: int| 0 <= k < listed.len() && #[trigger] listed[k].0 == id;
            assert(listed[k] == (rows@[k].id, StoredRow::Session(rows@[k])));
            assert(session_of_row(rows@[k]) == Some(sessions@[k]));
        }
        assert forall|a: int, b: int| 0 <= a < b < sessions@.len() implies #[trigger] sessions@[a].id != #[trigger] sessions@[b].id by {
            assert(session_of_row(rows@[a]) == Some(sessions@[a]));
            assert(session_of_row(rows@[b]) == Some(sessions@[b]));
            assert(listed[a].0 == rows@[a].id && listed[b].0 == rows@[b].id);
        }
    }
    Ok(sessions)
}

/// Every stored session, newest first.
pub(crate) fn list_sorted_sessions(db: &Database) -> (r: Result<Vec<AgentSession>>)
    ensures
        r matches Ok(v) ==> lists_sessions(db.rows(), v@) && sorted(v@),
        r matches Err(e) ==> e is Database || e is Validation,
        sessions_readable(db.rows()) ==> r is Ok || r->Err_0 is Database,
{
    let sessions = match read_sessions(db) {
        Ok(v) => v,
        Err(e) => return Err(e),
    };
    let ghost before = sessions@;
    let out = sort(sessions);
    proof {
        lemma_reorder_keeps_keys(before, out@, |s: AgentSession| s.id);
        assert forall|k: int| 0 <= k < out@.len() implies stored_session(db.rows(), #[trigger] out@[k].id) == Some(out@[k]) by {
            assert(before.contains(out@[k]));
            let m = choose|m: int| 0 <= m < before.len() && before[m] == out@[k];
            assert(stored_session(db.rows(), before[m].id) == Some(before[m]));
        }
        assert forall|id: i64| #[trigger] stored_session_row(db.rows(), id) is Some implies exists|k: int| 0 <= k < out@.len() && out@[k].id == id by {
            let m = choose|m: int| 0 <= m < before.len() && before[m].id == id;
            assert(out@.contains(before[m]));
        }
        assert forall|a: int, b: int| 0 <= a < b < out@.len() implies #[trigger] out@[a].id != #[trigger] out@[b].id by {
            assert((|s: AgentSession| s.id)(out@[a]) != (|s: AgentSession| s.id)(out@[b]));
        }
    }
    Ok(out)
}

/// A copy of a session row.
fn copy_session_row(r: &SessionRow) -> (c: SessionRow)
    ensures
        c == *r,
{
    SessionRow {
        id: r.id,
        project_id: r.project_id,
        provider_id: r.provider_id,
        status: r.status.clone(),
        prompt_text: r.prompt_text.clone(),
        origin_device_id: r.origin_device_id,
        created_at: r.created_at.clone(),
        updated_at: r.updated_at.clone(),
        completed_at: clone_text_option(&r.completed_at),
    }
}

/// The active session that changed state longest ago, if any session is
/// active. Only running and waiting sessions are read; a stored session of
/// any other status is passed over, readable or not.
pub(crate) fn find_active(db: &Database) -> (r: Result<Option<AgentSession>>)
    ensures
        r matches Ok(Some(s)) ==> stored_session(db.rows(), s.id) == Some(s) && spec_is_active(s.status)
            && forall|id: i64| #[trigger] session_active(db.rows(), id) ==> text_le(s.updated_at@,
                stored_session(db.rows(), id)->0.updated_at@),
        r matches Ok(None) ==> forall|id: i64| !#[trigger] session_active(db.rows(), id),
        r matches Err(e) ==> e is Database,
{
    let rows = match sql::select_all_sessions(db) {
        Ok(v) => v,
        Err(e) => return Err(IdeError::Database(e)),
    };
    let ghost listed = rows@.map_values(|r: SessionRow| (r.id, StoredRow::Session(r)));
    let mut best: Option<AgentSession> = None;
    let mut i: usize = 0;
    while i < rows.len()
        invariant
            i <= rows.len(),
            lists_table(db.rows(), Table::Sessions, listed),
            listed == rows@.map_values(|r: SessionRow| (r.id, StoredRow::Session(r))),
            best is Some ==> spec_is_active(best->0.status)
                && exists|k: int| 0 <= k < i && session_of_row(#[trigger] rows@[k]) == best,
            best is Some ==> forall|k: int| 0 <= k < i && session_of_row(#[trigger] rows@[k]) is Some
                && spec_is_active(session_of_row(rows@[k])->0.status)
                ==> text_le(best->0.updated_at@, rows@[k].updated_at@),
            best is None ==> forall|k: int| 0 <= k < i && session_of_row(#[trigger] rows@[k]) is Some
                ==> !spec_is_active(session_of_row(rows@[k])->0.status),
        decreases rows.len() - i,
    {
        let row = copy_session_row(&rows[i]);
        let ghost ri = rows@[i as int];
        if let Ok(s) = AgentSession::from_row(row) {
            if s.status.is_active() {
                match best {
                    None => {
                        proof { crate::order::lemma_text_le_total(s.updated_at@, s.updated_at@); }
                        best = Some(s);
                    },
                    Some(b) => {
                        proof { crate::order::lemma_text_le_total(b.updated_at@, s.updated_at@); }
                        if !text_in_order(b.updated_at.as_str(), s.updated_at.as_str()) {
                            proof {
                                assert forall|k: int| 0 <= k <= i && session_of_row(#[trigger] rows@[k]) is Some
                                    && spec_is_active(session_of_row(rows@[k])->0.status)
                                    implies text_le(s.updated_at@, rows@[k].updated_at@) by {
                                    if k < i {
                                        crate::order::lemma_text_le_transitive(s.updated_at@, b.updated_at@, rows@[k].updated_at@);
                                    } else {
                                        crate::order::lemma_text_le_total(s.updated_at@, s.updated_at@);
                                    }
                                }
                            }
                            best = Some(s);
                        } else {
                            best = Some(b);
                        }
                    },
                }
            }
        }
        i = i + 1;
    }
    proof {
        assert forall|id: i64| #[trigger] session_active(db.rows(), id) implies exists|k: int| 0 <= k < rows@.len()
            && rows@[k].id == id && session_of_row(rows@[k]) == stored_session(db.rows(), id) by {
            assert(db.rows().contains_key((Table::Sessions, id)));
            let k = choose|k: int| 0 <= k < listed.len() && #[trigger] listed[k].0 == id;
            assert(listed[k] == (rows@[k].id, StoredRow::Session(rows@[k])));
        }
    }
    match best {
        Some(b) => {
            proof {
                let k = choose|k: int| 0 <= k < rows@.len() && session_of_row(#[trigger] rows@[k]) == Some(b);
                assert(listed[k] == (rows@[k].id, StoredRow::Session(rows@[k])));
                assert(db.rows().contains_key((Table::Sessions, listed[k].0)));
                assert(stored_session_row(db.rows(), b.id) == Some(rows@[k]));
                assert forall|id: i64| #[trigger] session_active(db.rows(), id) implies text_le(b.updated_at@,
                    stored_session(db.rows(), id)->0.updated_at@) by {
                    let m = choose|m: int| 0 <= m < rows@.len()
                        && rows@[m].id == id && session_of_row(rows@[m]) == stored_session(db.rows(), id);
                    assert(session_of_row(rows@[m]) is Some);
                }
            }
            Ok(Some(b))
        },
        None => {
            proof {
                assert forall|id: i64| !#[trigger] session_active(db.rows(), id) by {
                    if session_active(db.rows(), id) {
                        let m = choose|m: int| 0 <= m < rows@.len()
                            && rows@[m].id == id && session_of_row(rows@[m]) == stored_session(db.rows(), id);
                        assert(session_of_row(rows@[m]) is Some);
                    }
                }
            }
            Ok(None)
        },
    }
}

impl AgentSession {
    /// A field-by-field copy.
    pub fn clone_session(&self) -> (r: AgentSession)
        ensures
            r == *self,
    {
        AgentSession {
            id: self.id,
            project_id: self.project_id,
            provider_id: self.provider_id,
            status: self.status,
            prompt_text: self.prompt_text.clone(),
            origin_device_id: self.origin_device_id,
            created_at: self.created_at.clone(),
            updated_at: self.updated_at.clone(),
            completed_at: clone_text_option(&self.completed_at),
        }
    }
}

pub struct SessionRepository<'a> {
    pub db: &'a mut Database,
}

impl<'a> SessionRepository<'a> {
    pub fn new(db: &'a mut Database) -> (r: Self)
        ensures
            *r.db == *old(db),
            *final(db) == *final(r.db),
    {
        SessionRepository { db }
    }

    /// Create a session in the `idle` state for an available project and an
    /// existing provider.
    pub fn create(&mut self, project_id: i64, provider_id: i64, prompt_text: &str, origin_device_id: Option<i64>) -> (r: Result<AgentSession>)
        ensures
            *final(final(self).db) == *final(old(self).db),
            spec_trim(prompt_text@).len() == 0 ==> r is Err && r->Err_0 is Validation,
            stored_project(old(self).db.rows(), project_id) is None ==> r is Err,
            stored_project(old(self).db.rows(), project_id) matches Some(p) && !p.available ==> r is Err,
            spec_trim(prompt_text@).len() > 0 && stored_project(old(self).db.rows(), project_id) is Some
                && !stored_project(old(self).db.rows(), project_id)->0.available
                ==> r is Err && (r->Err_0 is Validation || r->Err_0 is Database),
            r matches Err(e) && e is NotFound ==> spec_trim(prompt_text@).len() > 0 && (stored_project(old(self).db.rows(), project_id) is None
                || stored_provider_row(old(self).db.rows(), provider_id) is None),
            stored_provider(old(self).db.rows(), provider_id) is None ==> r is Err,
            r matches Ok(s) ==> {
                &&& spec_trim(prompt_text@).len() > 0
                &&& stored_project(old(self).db.rows(), project_id) matches Some(p) && p.available
                &&& stored_provider(old(self).db.rows(), provider_id) is Some
                &&& s.project_id == project_id && s.provider_id == provider_id
                &&& s.status == SessionStatus::Idle
                &&& s.prompt_text@ == prompt_text@
                &&& s.origin_device_id == origin_device_id
                &&& s.created_at@ == s.updated_at@
                &&& s.completed_at is None
                &&& stored_session(final(self).db.rows(), s.id) == Some(s)
                &&& exists|row: SessionRow| row_inserted(old(self).db.rows(), final(self).db.rows(), (Table::Sessions, s.id), StoredRow::Session(row))
            },
            r matches Err(e) ==> final(self).db.rows() == old(self).db.rows(),
            r matches Err(e) ==> e is Validation || e is NotFound || e is Database,
            r matches Err(e) && e is Validation ==> spec_trim(prompt_text@).len() == 0
                || (stored_project(old(self).db.rows(), project_id) is Some && !stored_project(old(self).db.rows(), project_id)->0.available)
                || (stored_provider_row(old(self).db.rows(), provider_id) is Some && stored_provider(old(self).db.rows(), provider_id) is None),
            spec_trim(prompt_text@).len() > 0 && stored_project(old(self).db.rows(), project_id) is Some
                && stored_project(old(self).db.rows(), project_id)->0.available
                && stored_provider(old(self).db.rows(), provider_id) is Some ==> r is Ok || r->Err_0 is Database,
    {
        let blank = trim(prompt_text);
        if blank.unicode_len() == 0 {
            return Err(IdeError::Validation("prompt must not be empty".to_string()));
        }
        let project = match read_project(self.db, project_id) {
            Ok(p) => p,
            Err(e) => return Err(e),
        };
        if !project.available {
            return Err(IdeError::Validation(concat3("project ", project.name.as_str(), " is unavailable on disk")));
        }
        match read_provider(self.db, provider_id) {
            Ok(_) => {},
            Err(e) => return Err(e),
        }
        let timestamp = now();
        let session = AgentSession {
            id: 0,
            project_id,
            provider_id,
            status: SessionStatus::Idle,
            prompt_text: prompt_text.to_string(),
            origin_device_id,
            created_at: timestamp.clone(),
            updated_at: timestamp,
            completed_at: None,
        };
        let row = session.to_row();
        match sql::insert_session(self.db, &row) {
            Ok(id) => {
                let stored = AgentSession { id, ..session };
                proof {
                    let srow = SessionRow { id, ..row };
                    assert(session_of_row(srow) == Some(stored));
                    assert(row_inserted(old(self).db.rows(), self.db.rows(), (Table::Sessions, id), StoredRow::Session(srow)));
                }
                Ok(stored)
            },
            Err(e) => Err(IdeError::Database(e)),
        }
    }

    pub fn get(&self, id: i64) -> (r: Result<AgentSession>)
        ensures
            r matches Ok(s) ==> stored_session(old(self.db).rows(), id) == Some(s) && s.id == id,
            r matches Err(e) ==> (e is NotFound && stored_session_row(old(self.db).rows(), id) is None
                && e->NotFound_0@ == session_not_found(id)) || e is Database || e is Validation,
            stored_session(old(self.db).rows(), id) is None ==> r is Err,
            stored_session(old(self.db).rows(), id) is Some ==> r is Ok || r->Err_0 is Database,
    {
        read_session(self.db, id)
    }

    /// Every session, newest first.
    pub fn list(&self) -> (r: Result<Vec<AgentSession>>)
        ensures
            r matches Ok(v) ==> lists_sessions(old(self.db).rows(), v@) && sorted(v@),
            r matches Err(e) ==> e is Database || e is Validation,
            sessions_readable(old(self.db).rows()) ==> r is Ok || r->Err_0 is Database,
    {
        list_sorted_sessions(self.db)
    }

    /// The session currently occupying the global agent slot, if any: of the
    /// running or waiting sessions, the one that changed state longest ago.
    pub fn active(&self) -> (r: Result<Option<AgentSession>>)
        ensures
            r matches Ok(Some(s)) ==> stored_session(old(self.db).rows(), s.id) == Some(s) && spec_is_active(s.status)
                && forall|id: i64| #[trigger] session_active(old(self.db).rows(), id) ==> text_le(s.updated_at@,
                    stored_session(old(self.db).rows(), id)->0.updated_at@),
            r matches Ok(None) ==> forall|id: i64| !#[trigger] session_active(old(self.db).rows(), id),
            r matches Err(e) ==> e is Database,
    {
        find_active(self.db)
    }

    /// Move a session to `next`, rejecting illegal transitions and refusing
    /// a second concurrently active session.
    pub fn update_status(&mut self, id: i64, next: SessionStatus) -> (r: Result<AgentSession>)
        ensures
            *final(final(self).db) == *final(old(self).db),
            stored_session(old(self).db.rows(), id) is None ==> r is Err,
            stored_session(old(self).db.rows(), id) matches Some(q) && q.status != next
                && !spec_can_transition(q.status, next) ==> r is Err && (r->Err_0 is Validation || r->Err_0 is Database),
            stored_session(old(self).db.rows(), id) matches Some(q) && q.status != next
                && spec_can_transition(q.status, next) && spec_is_active(next)
                && at_most_one_active(old(self).db.rows())
                && other_active(old(self).db.rows(), id)
                ==> r is Err,
            stored_session(old(self).db.rows(), id) matches Some(q) && q.status != next
                && spec_can_transition(q.status, next) && spec_is_active(next)
                && at_most_one_active(old(self).db.rows()) && other_active(old(self).db.rows(), id)
                && session_projects_stored(old(self).db.rows())
                ==> r is Err && (r->Err_0 is SessionBusy || r->Err_0 is Database),
            stored_session(old(self).db.rows(), id) matches Some(q) && (q.status == next
                || (spec_can_transition(q.status, next) && !(spec_is_active(next) && other_active(old(self).db.rows(), id))))
                ==> r is Ok || r->Err_0 is Database,
            r matches Ok(s) ==> {
                let q = stored_session(old(self).db.rows(), id)->0;
                &&& stored_session(old(self).db.rows(), id) is Some
                &&& s.id == id && s.status == next
                &&& if q.status == next {
                    s == q && final(self).db.rows() == old(self).db.rows()
                } else {
                    &&& spec_can_transition(q.status, next)
                    &&& s.project_id == q.project_id && s.provider_id == q.provider_id
                    &&& s.prompt_text == q.prompt_text && s.origin_device_id == q.origin_device_id
                    &&& s.created_at == q.created_at
                    &&& (spec_is_terminal(next) ==> s.completed_at is Some)
                    &&& (!spec_is_terminal(next) ==> s.completed_at == q.completed_at)
                    &&& stored_session(final(self).db.rows(), id) == Some(s)
                    &&& (exists|row: SessionRow| final(self).db.rows() == old(self).db.rows().insert((Table::Sessions, id), StoredRow::Session(row)))
                }
            },
            r is Ok && at_most_one_active(old(self).db.rows()) ==> at_most_one_active(final(self).db.rows()),
            r matches Err(e) ==> final(self).db.rows() == old(self).db.rows(),
            r matches Err(IdeError::SessionBusy { project }) ==> spec_is_active(next)
                && busy_with(old(self).db.rows(), id, project@),
            r matches Err(e) ==> e is NotFound || e is Validation || e is Database || e is SessionBusy,
            r matches Err(e) && e is NotFound ==> stored_session_row(old(self).db.rows(), id) is None || spec_is_active(next),
            r matches Err(e) && e is Validation ==> stored_session(old(self).db.rows(), id) is None
                || (stored_session(old(self).db.rows(), id) matches Some(q) && q.status != next
                && !spec_can_transition(q.status, next)),
    {
        let session = match read_session(self.db, id) {
            Ok(s) => s,
            Err(e) => return Err(e),
        };
        if session.status == next {
            return Ok(session);
        }
        if !session.status.can_transition_to(next) {
            let msg = concat3("cannot move session ", i64_to_text(id).as_str(), " from ");
            let msg = concat3(msg.as_str(), session.status.as_str(), " to ");
            return Err(IdeError::Validation(concat2(msg.as_str(), next.as_str())));
        }
        if next.is_active() {
            match find_active(self.db) {
                Ok(Some(active)) => {
                    if active.id != id {
                        assert(session_active(self.db.rows(), active.id));
                        return match read_project(self.db, active.project_id) {
                            Ok(project) => {
                                assert(stored_project(self.db.rows(), stored_session(self.db.rows(), active.id)->0.project_id) == Some(project));
                                Err(IdeError::SessionBusy { project: project.name })
                            },
                            Err(e) => {
                                assert(stored_session(self.db.rows(), active.id) matches Some(s) && s.project_id == active.project_id);
                                Err(e)
                            },
                        };
                    }
                    assert(session_active(self.db.rows(), id));
                },
                Ok(None) => {},
                Err(e) => return Err(e),
            }
        }
        assert(spec_is_active(next) && at_most_one_active(self.db.rows()) ==> forall|o: i64| o != id ==> !#[trigger] session_active(self.db.rows(), o));
        let completed_at = if next.is_terminal() {
            Some(now())
        } else {
            session.completed_at
        };
        let updated = AgentSession { status: next, updated_at: now(), completed_at, ..session };
        let row = updated.to_row();
        let ghost before = self.db.rows();
        match sql::update_session(self.db, &row) {
            Ok(_) => {
                proof {
                    assert(stored_session(self.db.rows(), id) == Some(updated));
                    if at_most_one_active(before) {
                        assert forall|a: i64, b: i64| #[trigger] session_active(self.db.rows(), a) && #[trigger] session_active(self.db.rows(), b) implies a == b by {
                            if a != id {
                                assert(stored_session(self.db.rows(), a) == stored_session(before, a));
                            }
                            if b != id {
                                assert(stored_session(self.db.rows(), b) == stored_session(before, b));
                            }
                            if a != id && b != id {
                                assert(session_active(before, a) && session_active(before, b));
                            } else if a == id && b != id {
                                assert(spec_is_active(next));
                                assert(session_active(before, b));
                                assert(!session_active(before, b));
                            } else if b == id && a != id {
                                assert(spec_is_active(next));
                                assert(session_active(before, a));
                                assert(!session_active(before, a));
                            }
                        }
                    }
                }
                Ok(updated)
            },
            Err(e) => Err(IdeError::Database(e)),
        }
    }

    /// Delete a session; its transcript entries, approval requests and
    /// connections go with it.
    pub fn delete(&mut self, id: i64) -> (r: Result<()>)
        ensures
            *final(final(self).db) == *final(old(self).db),
            stored_session_row(old(self).db.rows(), id) is None ==> r is Err,
            r is Ok ==> stored_session_row(old(self).db.rows(), id) is Some
                && final(self).db.rows() == without_session(old(self).db.rows(), id),
            r matches Err(e) ==> final(self).db.rows() == old(self).db.rows() && (e is Database
                || (e is NotFound && stored_session_row(old(self).db.rows(), id) is None
                && e->NotFound_0@ == session_not_found(id))),
    {
        proof { use_type_invariant(&*self.db); }
        match sql::delete_session(self.db, id) {
            Ok(0) => {
                let t = i64_to_text(id);
                proof { reveal_strlit("session "); }
                Err(IdeError::NotFound(concat2("session ", t.as_str())))
            },
            Ok(_) => Ok(()),
            Err(e) => Err(IdeError::Database(e)),
        }
    }
}

/// Process-wide slot that admits at most one running session across all
/// projects. A session takes it with [`SessionLock::acquire`] and gives it
/// back with [`SessionLock::release`].
#[derive(Debug)]
pub struct SessionLock {
    holder: Option<i64>,
}

impl View for SessionLock {
    type V = Option<i64>;

    /// The session that holds the slot, if any.
    closed spec fn view(&self) -> Option<i64> {
        self.holder
    }
}

/// Proof that a session holds the global slot.
#[derive(Debug)]
pub struct SessionGuard {
    session_id: i64,
}

impl View for SessionGuard {
    type V = i64;

    closed spec fn view(&self) -> i64 {
        self.session_id
    }
}

impl SessionLock {
    /// A free slot.
    pub fn new() -> (r: SessionLock)
        ensures
            r@ is None,
    {
        SessionLock { holder: None }
    }

    /// Take the global slot for `session_id`.
    ///
    /// Returns `SessionBusy` with the name `busy_project_name` gives when any
    /// session, this one included, already holds it.
    pub fn acquire<F: Fn() -> String>(&mut self, session_id: i64, busy_project_name: F) -> (r: Result<SessionGuard>)
        requires
            busy_project_name.requires(()),
        ensures
            old(self)@ is None ==> r is Ok && r->Ok_0@ == session_id && final(self)@ == Some(session_id),
            old(self)@ is Some ==> final(self)@ == old(self)@ && r is Err && r->Err_0 is SessionBusy
                && busy_project_name.ensures((), r->Err_0->project),
    {
        match self.holder {
            Some(_) => {
                let project = busy_project_name();
                Err(IdeError::SessionBusy { project })
            },
            None => {
                self.holder = Some(session_id);
                Ok(SessionGuard { session_id })
            },
        }
    }

    /// Id of the session currently holding the slot.
    pub fn current(&self) -> (r: Option<i64>)
        ensures
            r == self@,
    {
        self.holder
    }

    /// Give the slot back. A guard of a session that no longer holds the
    /// slot leaves it as it is.
    pub fn release(&mut self, guard: SessionGuard)
        ensures
            old(self)@ == Some(guard@) ==> final(self)@ is None,
            old(self)@ != Some(guard@) ==> final(self)@ == old(self)@,
    {
        match self.holder {
            Some(id) => {
                if id == guard.session_id {
                    self.holder = None;
                }
            },
            None => {},
        }
    }
}

impl SessionGuard {
    pub fn session_id(&self) -> (r: i64)
        ensures
            r == self@,
    {
        self.session_id
    }
}

/// A finished session never moves again, and a session that is not
/// finished can always be interrupted or completed.
pub proof fn lemma_finished_sessions_stay_finished(from: SessionStatus, to: SessionStatus)
    ensures
        spec_is_terminal(from) ==> !spec_can_transition(from, to),
        !spec_is_terminal(from) ==> spec_can_transition(from, SessionStatus::Interrupted)
            && spec_can_transition(from, SessionStatus::Complete),
{
}

/// Reading back the stored text of a status gives the status.
pub proof fn lemma_status_text_round_trip(s: SessionStatus)
    ensures
        status_from_text(status_text(s)) == Some(s),
{
    reveal_strlit("idle");
    reveal_strlit("running");
    reveal_strlit("waiting_approval");
    reveal_strlit("interrupted");
    reveal_strlit("complete");
    assert("idle"@.len() == 4 && "running"@.len() == 7 && "waiting_approval"@.len() == 16
        && "interrupted"@.len() == 11 && "complete"@.len() == 8);
}

} // verus!
