//! Approval requests with resolve-once semantics.

use vstd::prelude::*;
use crate::error::{IdeError, Result};
use crate::storage::rows::{StoredRow, Table, row_inserted, lists_table};
use crate::storage::{Database, now, sql};
use crate::storage::pairing::{stored_device, read_device};
use crate::agent::session::clone_text_option;
use crate::text::{str_eq, i64_to_text, spec_decimal, concat2};
use crate::order::{Ordered, sort, sorted, text_le, text_in_order, lemma_reorder_keeps_keys};

verus! {

/// An approval request row as its columns hold it.
#[derive(Debug, Clone, PartialEq, Eq)]
pub struct ApprovalRow {
    pub id: i64,
    pub session_id: i64,
    pub request_type: String,
    pub details: String,
    pub expires_at: String,
    pub resolved: bool,
    pub resolved_by_device_id: Option<i64>,
    pub resolution: Option<String>,
    /// Set when the request was denied because its window passed.
    pub timed_out: bool,
    pub created_at: String,
}

/// The approval row stored under `id`, if any.
pub open spec fn stored_approval_row(rows: Map<(Table, i64), StoredRow>, id: i64) -> Option<ApprovalRow> {
    if rows.contains_key((Table::Approvals, id)) {
        match rows[(Table::Approvals, id)] {
            StoredRow::Approval(a) => Some(a),
            _ => None,
        }
    } else {
        None
    }
}

#[derive(Debug, Clone, Copy, PartialEq, Eq, Structural)]
pub enum ApprovalKind {
    FileChange,
    Command,
}

pub open spec fn approval_kind_text(k: ApprovalKind) -> Seq<char> {
    match k {
        ApprovalKind::FileChange => "file_change"@,
        ApprovalKind::Command => "command"@,
    }
}

pub open spec fn approval_kind_from_text(t: Seq<char>) -> Option<ApprovalKind> {
    if t == "file_change"@ {
        Some(ApprovalKind::FileChange)
    } else if t == "command"@ {
        Some(ApprovalKind::Command)
    } else {
        None
    }
}

impl ApprovalKind {
    pub fn as_str(self) -> (s: &'static str)
        ensures
            s@ == approval_kind_text(self),
    {
        match self {
            ApprovalKind::FileChange => "file_change",
            ApprovalKind::Command => "command",
        }
    }

    pub fn parse(value: &str) -> (r: Result<ApprovalKind>)
        ensures
            match approval_kind_from_text(value@) {
                Some(k) => r == Ok::<ApprovalKind, IdeError>(k),
                None => r is Err && r->Err_0 is Validation,
            },
    {
        if str_eq(value, "file_change") {
            Ok(ApprovalKind::FileChange)
        } else if str_eq(value, "command") {
            Ok(ApprovalKind::Command)
        } else {
            Err(IdeError::Validation(concat2("unknown request type ", value)))
        }
    }
}

#[derive(Debug, Clone, Copy, PartialEq, Eq, Structural)]
pub enum Decision {
    Approved,
    Denied,
}

pub open spec fn decision_text(d: Decision) -> Seq<char> {
    match d {
        Decision::Approved => "approved"@,
        Decision::Denied => "denied"@,
    }
}

pub open spec fn decision_from_text(t: Seq<char>) -> Option<Decision> {
    if t == "approved"@ {
        Some(Decision::Approved)
    } else if t == "denied"@ {
        Some(Decision::Denied)
    } else {
        None
    }
}

impl Decision {
    pub fn as_str(self) -> (s: &'static str)
        ensures
            s@ == decision_text(self),
    {
        match self {
            Decision::Approved => "approved",
            Decision::Denied => "denied",
        }
    }

    pub fn parse(value: &str) -> (r: Result<Decision>)
        ensures
            match decision_from_text(value@) {
                Some(d) => r == Ok::<Decision, IdeError>(d),
                None => r is Err && r->Err_0 is Validation,
            },
    {
        if str_eq(value, "approved") {
            Ok(Decision::Approved)
        } else if str_eq(value, "denied") {
            Ok(Decision::Denied)
        } else {
            Err(IdeError::Validation(concat2("unknown decision ", value)))
        }
    }
}

/// Reading back stored kind and decision texts gives the kind and decision.
pub proof fn lemma_approval_texts_round_trip(k: ApprovalKind, d: Decision)
    ensures
        approval_kind_from_text(approval_kind_text(k)) == Some(k),
        decision_from_text(decision_text(d)) == Some(d),
{
    reveal_strlit("file_change");
    reveal_strlit("command");
    reveal_strlit("approved");
    reveal_strlit("denied");
    assert("file_change"@.len() == 11 && "command"@.len() == 7);
    assert("approved"@.len() == 8 && "denied"@.len() == 6);
}

/// A risky action awaiting approval. `details` is the JSON text of the
/// request's payload.
#[derive(Debug, Clone, PartialEq, Eq)]
pub struct ApprovalRequest {
    pub id: i64,
    pub session_id: i64,
    pub request_type: ApprovalKind,
    pub details: String,
    pub expires_at: String,
    pub resolved: bool,
    pub resolved_by_device_id: Option<i64>,
    pub resolution: Option<Decision>,
    pub created_at: String,
}

/// Whether `text` is one JSON value, as `serde_json::from_str` reads it
/// into a `serde_json::Value`.
pub uninterp spec fn is_json(text: Seq<char>) -> bool;

/// Reads `text` with `serde_json::from_str::<serde_json::Value>` and tells
/// whether it is one JSON value.
#[verifier::external_body]
fn json_valid(text: &str) -> (b: bool)
    ensures
        b == is_json(text@),
{
    serde_json::from_str::<serde_json::Value>(text).is_ok()
}

/// The request a stored row describes, when its kind and resolution are
/// known and its details are JSON.
pub open spec fn approval_of_row(r: ApprovalRow) -> Option<ApprovalRequest> {
    let resolution: Option<Option<Decision>> = match r.resolution {
        None => Some(None),
        Some(t) => match decision_from_text(t@) {
            Some(d) => Some(Some(d)),
            None => None,
        },
    };
    match (approval_kind_from_text(r.request_type@), resolution) {
        (Some(kind), Some(resolution)) => if !is_json(r.details@) { None } else { Some(ApprovalRequest {
            id: r.id,
            session_id: r.session_id,
            request_type: kind,
            details: r.details,
            expires_at: r.expires_at,
            resolved: r.resolved,
            resolved_by_device_id: r.resolved_by_device_id,
            resolution,
            created_at: r.created_at,
        }) },
        _ => None,
    }
}

/// The request stored under `id`, if any and readable.
pub open spec fn stored_approval(rows: Map<(Table, i64), StoredRow>, id: i64) -> Option<ApprovalRequest> {
    match stored_approval_row(rows, id) {
        Some(r) => approval_of_row(r),
        None => None,
    }
}

/// The not-found error for request `id`.
pub open spec fn approval_not_found(id: i64) -> Seq<char> {
    "approval request "@ + spec_decimal(id as int)
}

/// Whether the request stored under `id` was denied because its window
/// passed.
pub open spec fn denied_on_timeout(rows: Map<(Table, i64), StoredRow>, id: i64) -> bool {
    stored_approval_row(rows, id) is Some && stored_approval_row(rows, id)->0.timed_out
}

/// Who answered a request: the device's name, "timeout" when it was denied
/// because its window passed, "desktop" for a decision made on the
/// computer, "nobody" while it is open.
pub open spec fn resolver_of(rows: Map<(Table, i64), StoredRow>, a: ApprovalRequest) -> Option<Seq<char>> {
    match a.resolved_by_device_id {
        Some(d) => match stored_device(rows, d) {
            Some(device) => Some(device.device_name@),
            None => None,
        },
        None => if !a.resolved {
            Some("nobody"@)
        } else if denied_on_timeout(rows, a.id) {
            Some("timeout"@)
        } else {
            Some("desktop"@)
        },
    }
}

/// `a` is a new open request of `session_id` of kind `request_type` with
/// `details`, stored in `after`, which is `before` with its row added.
pub open spec fn opened(
    before: Map<(Table, i64), StoredRow>,
    after: Map<(Table, i64), StoredRow>,
    a: ApprovalRequest,
    session_id: i64,
    request_type: ApprovalKind,
    details: Seq<char>,
) -> bool {
    &&& a.session_id == session_id && a.request_type == request_type && a.details@ == details
    &&& !a.resolved && a.resolved_by_device_id is None && a.resolution is None
    &&& stored_approval(after, a.id) == Some(a)
    &&& exists|row: ApprovalRow| #[trigger] row_inserted(before, after, (Table::Approvals, a.id), StoredRow::Approval(row))
}

/// `a` is `q` answered with `decision` by `device_id`.
pub open spec fn answered(q: ApprovalRequest, a: ApprovalRequest, decision: Decision, device_id: Option<i64>) -> bool {
    &&& a.id == q.id && a.session_id == q.session_id && a.request_type == q.request_type
    &&& a.details == q.details && a.expires_at == q.expires_at && a.created_at == q.created_at
    &&& a.resolved && a.resolution == Some(decision) && a.resolved_by_device_id == device_id
}

/// An instant: whole seconds since the Unix epoch and nanoseconds within
/// the second.
pub open spec fn instant_not_before(a: (i64, u32), b: (i64, u32)) -> bool {
    a.0 > b.0 || (a.0 == b.0 && a.1 >= b.1)
}

/// The UTC instant an RFC 3339 timestamp names, as
/// `chrono::DateTime::parse_from_rfc3339` reads it; `None` when the text is
/// not RFC 3339.
pub uninterp spec fn rfc3339_instant(text: Seq<char>) -> Option<(i64, u32)>;

/// Reads an RFC 3339 timestamp with `chrono::DateTime::parse_from_rfc3339`
/// and returns its instant from `DateTime::timestamp` and
/// `DateTime::timestamp_subsec_nanos`.
#[verifier::external_body]
fn parse_instant(text: &str) -> (r: Option<(i64, u32)>)
    ensures
        r == rfc3339_instant(text@),
{
    chrono::DateTime::parse_from_rfc3339(text).ok().map(|t| (t.timestamp(), t.timestamp_subsec_nanos()))
}

/// Total nanoseconds of a duration, as `Duration::as_nanos` gives them.
pub uninterp spec fn duration_nanos(d: core::time::Duration) -> u128;

/// Calls `Duration::as_nanos`.
#[verifier::external_body]
fn nanos_of(d: &core::time::Duration) -> (n: u128)
    ensures
        n == duration_nanos(*d),
{
    d.as_nanos()
}

/// The current instant of `chrono::Utc::now`, as whole seconds since the
/// Unix epoch (`DateTime::timestamp`) and nanoseconds within the second
/// (`DateTime::timestamp_subsec_nanos`). Nothing is promised of it: it
/// depends on the clock.
#[verifier::external_body]
fn current_instant() -> (r: (i64, u32)) {
    let t = chrono::Utc::now();
    (t.timestamp(), t.timestamp_subsec_nanos())
}

/// The RFC 3339 text that `DateTime::to_rfc3339` writes for the UTC instant
/// `secs` seconds and `nanos` nanoseconds after the Unix epoch; `None` when
/// `DateTime::from_timestamp` cannot represent that instant.
pub uninterp spec fn rfc3339_text(secs: i64, nanos: u32) -> Option<Seq<char>>;

/// Builds the instant with `chrono::DateTime::from_timestamp` and writes it
/// with `DateTime::to_rfc3339`.
#[verifier::external_body]
fn format_instant(secs: i64, nanos: u32) -> (r: Option<String>)
    ensures
        match r {
            Some(t) => rfc3339_text(secs, nanos) == Some(t@),
            None => rfc3339_text(secs, nanos) is None,
        },
{
    chrono::DateTime::from_timestamp(secs, nanos).map(|t| t.to_rfc3339())
}

/// The instant `nanos` nanoseconds after `now` (seconds, nanoseconds within
/// the second), carrying whole seconds; `None` when its seconds do not fit
/// an `i64`.
pub open spec fn spec_instant_after(now: (i64, u32), nanos: u128) -> Option<(i64, u32)> {
    let sub = now.1 + nanos % 1_000_000_000;
    let secs = now.0 + nanos / 1_000_000_000 + sub / 1_000_000_000;
    if i64::MIN <= secs <= i64::MAX {
        Some((secs as i64, (sub % 1_000_000_000) as u32))
    } else {
        None
    }
}

/// The instant `nanos` nanoseconds after `now`.
pub fn instant_after(now: (i64, u32), nanos: u128) -> (r: Option<(i64, u32)>)
    ensures
        r == spec_instant_after(now, nanos),
{
    let whole: u128 = nanos / 1_000_000_000;
    let part: u64 = (nanos % 1_000_000_000) as u64;
    let sub: u64 = now.1 as u64 + part;
    if whole > 18_446_744_073_709_551_616u128 {
        return None;
    }
    let secs: i128 = now.0 as i128 + whole as i128 + (sub / 1_000_000_000) as i128;
    if secs < -9_223_372_036_854_775_808i128 || secs > 9_223_372_036_854_775_807i128 {
        return None;
    }
    Some((secs as i64, (sub % 1_000_000_000) as u32))
}

/// The RFC 3339 text of the instant `nanos` nanoseconds after `now`, if it
/// can be written.
pub open spec fn expiry_text(now: (i64, u32), nanos: u128) -> Option<Seq<char>> {
    match spec_instant_after(now, nanos) {
        Some(at) => rfc3339_text(at.0, at.1),
        None => None,
    }
}

impl ApprovalRequest {
    /// The request a stored row describes; a row with an unknown kind or
    /// decision is refused.
    pub fn from_row(row: ApprovalRow) -> (r: Result<ApprovalRequest>)
        ensures
            approval_of_row(row) matches Some(a) ==> r == Ok::<ApprovalRequest, IdeError>(a),
            approval_of_row(row) is None ==> r is Err && r->Err_0 is Validation,
    {
        let kind = match ApprovalKind::parse(row.request_type.as_str()) {
            Ok(k) => k,
            Err(e) => return Err(e),
        };
        let resolution = match &row.resolution {
            None => None,
            Some(t) => match Decision::parse(t.as_str()) {
                Ok(d) => Some(d),
                Err(e) => return Err(e),
            },
        };
        if !json_valid(row.details.as_str()) {
            return Err(IdeError::Validation(concat2("approval details are not JSON: ", row.details.as_str())));
        }
        Ok(ApprovalRequest {
            id: row.id,
            session_id: row.session_id,
            request_type: kind,
            details: row.details,
            expires_at: row.expires_at,
            resolved: row.resolved,
            resolved_by_device_id: row.resolved_by_device_id,
            resolution,
            created_at: row.created_at,
        })
    }

    /// The row that stores this request.
    pub fn to_row(&self) -> (r: ApprovalRow)
        ensures
            is_json(self.details@) ==> approval_of_row(r) == Some(*self),
            r.id == self.id,
            r.details@ == self.details@,
            !r.timed_out,
    {
        proof {
            lemma_approval_texts_round_trip(self.request_type, Decision::Approved);
            lemma_approval_texts_round_trip(self.request_type, Decision::Denied);
        }
        ApprovalRow {
            id: self.id,
            session_id: self.session_id,
            request_type: self.request_type.as_str().to_string(),
            details: self.details.clone(),
            expires_at: self.expires_at.clone(),
            resolved: self.resolved,
            resolved_by_device_id: self.resolved_by_device_id,
            resolution: match self.resolution {
                Some(d) => Some(d.as_str().to_string()),
                None => None,
            },
            timed_out: false,
            created_at: self.created_at.clone(),
        }
    }

    /// Whether the approval window has passed at the instant `at` (RFC 3339
    /// text). A request whose expiry cannot be read never expires.
    pub fn is_expired(&self, at: &str) -> (b: bool)
        ensures
            b == (rfc3339_instant(self.expires_at@) matches Some(e) && rfc3339_instant(at@) matches Some(a)
                && instant_not_before(a, e)),
    {
        match (parse_instant(self.expires_at.as_str()), parse_instant(at)) {
            (Some(e), Some(a)) => a.0 > e.0 || (a.0 == e.0 && a.1 >= e.1),
            _ => false,
        }
    }
}

/// Reads the row of the request stored under `id`.
fn read_approval_row(db: &Database, id: i64) -> (r: Result<ApprovalRow>)
    ensures
        r matches Ok(row) ==> stored_approval_row(db.rows(), id) == Some(row) && row.id == id,
        r matches Err(e) ==> (e is NotFound && stored_approval_row(db.rows(), id) is None
            && e->NotFound_0@ == approval_not_found(id)) || e is Database,
        stored_approval_row(db.rows(), id) is Some ==> r is Ok || r->Err_0 is Database,
{
    match sql::select_approval(db, id) {
        Ok(Some(row)) => Ok(row),
        Ok(None) => {
            let t = i64_to_text(id);
            proof { reveal_strlit("approval request "); }
            Err(IdeError::NotFound(concat2("approval request ", t.as_str())))
        },
        Err(e) => Err(IdeError::Database(e)),
    }
}

/// Reads the request stored under `id`.
pub fn read_approval(db: &Database, id: i64) -> (r: Result<ApprovalRequest>)
    ensures
        r matches Ok(a) ==> stored_approval(db.rows(), id) == Some(a) && a.id == id,
        r matches Err(e) ==> (e is NotFound && stored_approval_row(db.rows(), id) is None
            && e->NotFound_0@ == approval_not_found(id)) || e is Database || e is Validation,
        stored_approval(db.rows(), id) is None ==> r is Err,
        stored_approval(db.rows(), id) is Some ==> r is Ok || r->Err_0 is Database,
{
    match read_approval_row(db, id) {
        Ok(row) => ApprovalRequest::from_row(row),
        Err(e) => Err(e),
    }
}

/// Display name of whoever resolved a request; `on_timeout` tells whether
/// its stored row marks it denied because its window passed.
fn resolver_name(db: &Database, request: &ApprovalRequest, on_timeout: bool) -> (r: Result<String>)
    requires
        on_timeout == denied_on_timeout(db.rows(), request.id),
    ensures
        r matches Ok(n) ==> resolver_of(db.rows(), *request) == Some(n@),
        resolver_of(db.rows(), *request) is None ==> r is Err,
        resolver_of(db.rows(), *request) is Some ==> r is Ok || r->Err_0 is Database,
        r matches Err(e) ==> e is NotFound || e is Database,
{
    match request.resolved_by_device_id {
        Some(device_id) => match read_device(db, device_id) {
            Ok(device) => Ok(device.device_name),
            Err(e) => Err(e),
        },
        None => {
            if !request.resolved {
                Ok("nobody".to_string())
            } else if on_timeout {
                Ok("timeout".to_string())
            } else {
                Ok("desktop".to_string())
            }
        },
    }
}

/// `listed` holds exactly the open requests of `session_id`, each once.
pub open spec fn lists_pending(rows: Map<(Table, i64), StoredRow>, session_id: i64, listed: Seq<ApprovalRequest>) -> bool {
    &&& forall|i: int| 0 <= i < listed.len() ==> stored_approval(rows, #[trigger] listed[i].id) == Some(listed[i])
        && listed[i].session_id == session_id && !listed[i].resolved
    &&& forall|id: i64| #[trigger] stored_approval_row(rows, id) is Some && stored_approval_row(rows, id)->0.session_id == session_id
        && !stored_approval_row(rows, id)->0.resolved ==> exists|i: int| 0 <= i < listed.len() && listed[i].id == id
    &&& forall|i: int, j: int| 0 <= i < j < listed.len() ==> #[trigger] listed[i].id != #[trigger] listed[j].id
}

/// `listed` holds exactly the unresolved request rows of `session_id`, each
/// once.
pub open spec fn lists_open_rows(rows: Map<(Table, i64), StoredRow>, session_id: i64, listed: Seq<ApprovalRow>) -> bool {
    &&& forall|i: int| 0 <= i < listed.len() ==> stored_approval_row(rows, #[trigger] listed[i].id) == Some(listed[i])
        && listed[i].session_id == session_id && !listed[i].resolved
    &&& forall|id: i64| #[trigger] stored_approval_row(rows, id) is Some && stored_approval_row(rows, id)->0.session_id == session_id
        && !stored_approval_row(rows, id)->0.resolved ==> exists|i: int| 0 <= i < listed.len() && listed[i].id == id
    &&& forall|i: int, j: int| 0 <= i < j < listed.len() ==> #[trigger] listed[i].id != #[trigger] listed[j].id
}

/// Whether every open request of `session_id` can be read.
pub open spec fn pending_readable(rows: Map<(Table, i64), StoredRow>, session_id: i64) -> bool {
    forall|id: i64| #[trigger] stored_approval_row(rows, id) is Some && stored_approval_row(rows, id)->0.session_id == session_id
        && !stored_approval_row(rows, id)->0.resolved ==> stored_approval(rows, id) is Some
}

/// Whether every stored request can be read: its kind and decision are
/// known texts.
pub open spec fn approvals_readable(rows: Map<(Table, i64), StoredRow>) -> bool {
    forall|id: i64| #[trigger] stored_approval_row(rows, id) is Some ==> stored_approval(rows, id) is Some
}

/// Whether the approval stored under `id` was open and due at `cutoff`.
pub open spec fn overdue(rows: Map<(Table, i64), StoredRow>, id: i64, cutoff: Seq<char>) -> bool {
    stored_approval_row(rows, id) is Some && !stored_approval_row(rows, id)->0.resolved
        && text_le(stored_approval_row(rows, id)->0.expires_at@, cutoff)
}

/// `denied` holds exactly the requests that were open and due at `cutoff`
/// in `before`, each now denied by nobody, and nothing else changed.
pub open spec fn expired_as_of(
    before: Map<(Table, i64), StoredRow>,
    after: Map<(Table, i64), StoredRow>,
    denied: Seq<ApprovalRequest>,
    cutoff: Seq<char>,
) -> bool {
    &&& forall|k: int| 0 <= k < denied.len() ==> #[trigger] overdue(before, denied[k].id, cutoff)
        && stored_approval(before, denied[k].id) is Some
        && answered(stored_approval(before, denied[k].id)->0, denied[k], Decision::Denied, None)
        && stored_approval(after, denied[k].id) == Some(denied[k])
        && denied_on_timeout(after, denied[k].id)
    &&& forall|id: i64| #[trigger] overdue(before, id, cutoff) ==> exists|k: int| 0 <= k < denied.len() && denied[k].id == id
    &&& after.dom() == before.dom()
    &&& forall|key: (Table, i64)| #[trigger] before.contains_key(key) && !denied_key(denied, key) ==> after[key] == before[key]
}

/// Whether `key` is the key of one of the requests in `denied`.
pub open spec fn denied_key(denied: Seq<ApprovalRequest>, key: (Table, i64)) -> bool {
    key.0 == Table::Approvals && exists|k: int| 0 <= k < denied.len() && (#[trigger] denied[k]).id == key.1
}

/// Open requests are listed oldest first.
impl Ordered for ApprovalRequest {
    open spec fn precedes(&self, other: &Self) -> bool {
        text_le(self.created_at@, other.created_at@)
    }

    proof fn lemma_total(a: &Self, b: &Self) {
        crate::order::lemma_text_le_total(a.created_at@, b.created_at@);
    }

    proof fn lemma_transitive(a: &Self, b: &Self, c: &Self) {
        crate::order::lemma_text_le_transitive(a.created_at@, b.created_at@, c.created_at@);
    }

    fn in_order(&self, other: &Self) -> (r: bool) {
        text_in_order(self.created_at.as_str(), other.created_at.as_str())
    }
}

/// Overdue requests are denied earliest expiry first.
impl Ordered for ApprovalRow {
    open spec fn precedes(&self, other: &Self) -> bool {
        text_le(self.expires_at@, other.expires_at@)
    }

    proof fn lemma_total(a: &Self, b: &Self) {
        crate::order::lemma_text_le_total(a.expires_at@, b.expires_at@);
    }

    proof fn lemma_transitive(a: &Self, b: &Self, c: &Self) {
        crate::order::lemma_text_le_transitive(a.expires_at@, b.expires_at@, c.expires_at@);
    }

    fn in_order(&self, other: &Self) -> (r: bool) {
        text_in_order(self.expires_at.as_str(), other.expires_at.as_str())
    }
}

fn copy_approval_row(r: &ApprovalRow) -> (c: ApprovalRow)
    ensures
        c == *r,
{
    ApprovalRow {
        id: r.id,
        session_id: r.session_id,
        request_type: r.request_type.clone(),
        details: r.details.clone(),
        expires_at: r.expires_at.clone(),
        resolved: r.resolved,
        resolved_by_device_id: r.resolved_by_device_id,
        resolution: clone_text_option(&r.resolution),
        timed_out: r.timed_out,
        created_at: r.created_at.clone(),
    }
}

pub struct ApprovalRepository<'a> {
    pub db: &'a mut Database,
}

impl<'a> ApprovalRepository<'a> {
    pub fn new(db: &'a mut Database) -> (r: Self)
        ensures
            *r.db == *old(db),
            *final(db) == *final(r.db),
    {
        ApprovalRepository { db }
    }

    /// Create an open approval request that expires `timeout` from now: the
    /// expiry is the RFC 3339 text of the current instant plus `timeout`.
    /// The current instant comes from the clock, so whether that instant can
    /// be written is not promised.
    pub fn create(&mut self, session_id: i64, request_type: ApprovalKind, details: &str, timeout: core::time::Duration) -> (r: Result<ApprovalRequest>)
        ensures
            *final(final(self).db) == *final(old(self).db),
            duration_nanos(timeout) == 0 ==> r is Err && r->Err_0 is Validation,
            !is_json(details@) ==> r is Err && r->Err_0 is Validation,
            r matches Ok(a) ==> {
                &&& duration_nanos(timeout) > 0
                &&& is_json(details@)
                &&& opened(old(self).db.rows(), final(self).db.rows(), a, session_id, request_type, details@)
                &&& exists|now: (i64, u32)| #[trigger] expiry_text(now, duration_nanos(timeout)) == Some(a.expires_at@)
            },
            r matches Err(e) ==> final(self).db.rows() == old(self).db.rows() && (e is Validation || e is Database),
            r matches Err(e) && e is Validation ==> duration_nanos(timeout) == 0 || !is_json(details@)
                || exists|now: (i64, u32)| #[trigger] expiry_text(now, duration_nanos(timeout)) is None,
    {
        let nanos = nanos_of(&timeout);
        if nanos == 0 {
            return Err(IdeError::Validation("approval timeout must be positive".to_string()));
        }
        let now_at = current_instant();
        let expires_at = match instant_after(now_at, nanos) {
            Some(at) => match format_instant(at.0, at.1) {
                Some(t) => t,
                None => return Err(IdeError::Validation("approval timeout out of range".to_string())),
            },
            None => return Err(IdeError::Validation("approval timeout out of range".to_string())),
        };
        assert(expiry_text(now_at, nanos) == Some(expires_at@));
        self.create_expiring_at(session_id, request_type, details, expires_at.as_str())
    }

    /// Create an open approval request that expires at `expires_at` (RFC
    /// 3339 text). Its details must be JSON.
    pub fn create_expiring_at(&mut self, session_id: i64, request_type: ApprovalKind, details: &str, expires_at: &str) -> (r: Result<ApprovalRequest>)
        ensures
            *final(final(self).db) == *final(old(self).db),
            !is_json(details@) ==> r is Err && r->Err_0 is Validation,
            r matches Ok(a) ==> is_json(details@) && a.expires_at@ == expires_at@
                && opened(old(self).db.rows(), final(self).db.rows(), a, session_id, request_type, details@),
            r matches Err(e) ==> final(self).db.rows() == old(self).db.rows() && (e is Validation || e is Database),
            r matches Err(e) && e is Validation ==> !is_json(details@),
            is_json(details@) ==> r is Ok || r->Err_0 is Database,
    {
        if !json_valid(details) {
            return Err(IdeError::Validation("approval details must be JSON".to_string()));
        }
        let request = ApprovalRequest {
            id: 0,
            session_id,
            request_type,
            details: details.to_string(),
            expires_at: expires_at.to_string(),
            resolved: false,
            resolved_by_device_id: None,
            resolution: None,
            created_at: now(),
        };
        let row = request.to_row();
        match sql::insert_approval(self.db, &row) {
            Ok(id) => {
                let stored = ApprovalRequest { id, ..request };
                proof {
                    let srow = ApprovalRow { id, ..row };
                    assert(approval_of_row(srow) == Some(stored));
                    assert(row_inserted(old(self).db.rows(), self.db.rows(), (Table::Approvals, id), StoredRow::Approval(srow)));
                }
                Ok(stored)
            },
            Err(e) => Err(IdeError::Database(e)),
        }
    }

    pub fn get(&self, id: i64) -> (r: Result<ApprovalRequest>)
        ensures
            r matches Ok(a) ==> stored_approval(old(self.db).rows(), id) == Some(a) && a.id == id,
            r matches Err(e) ==> (e is NotFound && stored_approval_row(old(self.db).rows(), id) is None
                && e->NotFound_0@ == approval_not_found(id)) || e is Database || e is Validation,
            stored_approval(old(self.db).rows(), id) is None ==> r is Err,
            stored_approval(old(self.db).rows(), id) is Some ==> r is Ok || r->Err_0 is Database,
    {
        read_approval(self.db, id)
    }

    /// Open requests of a session, oldest first.
    pub fn pending(&self, session_id: i64) -> (r: Result<Vec<ApprovalRequest>>)
        ensures
            r matches Ok(v) ==> lists_pending(old(self.db).rows(), session_id, v@) && sorted(v@),
            r matches Err(e) ==> e is Database || e is Validation,
            pending_readable(old(self.db).rows(), session_id) ==> r is Ok || r->Err_0 is Database,
    {
        let rows = match sql::select_open_approvals(self.db, session_id) {
            Ok(v) => v,
            Err(e) => return Err(IdeError::Database(e)),
        };
        let mut open: Vec<ApprovalRequest> = Vec::new();
        let mut i: usize = 0;
        while i < rows.len()
            invariant
                i <= rows.len(),
                open@.len() == i,
                lists_open_rows(self.db.rows(), session_id, rows@),
                forall|k: int| 0 <= k < i ==> approval_of_row(#[trigger] rows@[k]) == Some(open@[k]),
            decreases rows.len() - i,
        {
            let a = match ApprovalRequest::from_row(copy_approval_row(&rows[i])) {
                Ok(a) => a,
                Err(e) => {
                    proof { assert(stored_approval_row(self.db.rows(), rows@[i as int].id) == Some(rows@[i as int])); }
                    return Err(e);
                },
            };
            open.push(a);
            i = i + 1;
        }
        proof {
            assert forall|k: int| 0 <= k < open@.len() implies stored_approval(self.db.rows(), #[trigger] open@[k].id) == Some(open@[k]) by {
                assert(approval_of_row(rows@[k]) == Some(open@[k]));
                assert(stored_approval_row(self.db.rows(), rows@[k].id) == Some(rows@[k]));
            }
            assert forall|id: i64| #[trigger] stored_approval_row(self.db.rows(), id) is Some && stored_approval_row(self.db.rows(), id)->0.session_id == session_id
                && !stored_approval_row(self.db.rows(), id)->0.resolved implies exists|k: int| 0 <= k < open@.len() && open@[k].id == id by {
                let k = choose|k: int| 0 <= k < rows@.len() && rows@[k].id == id;
                assert(approval_of_row(rows@[k]) == Some(open@[k]));
            }
            assert forall|a: int, b: int| 0 <= a < b < open@.len() implies #[trigger] open@[a].id != #[trigger] open@[b].id by {
                assert(approval_of_row(rows@[a]) == Some(open@[a]));
                assert(approval_of_row(rows@[b]) == Some(open@[b]));
            }
            assert forall|k: int| 0 <= k < open@.len() implies (#[trigger] open@[k]).session_id == session_id && !open@[k].resolved by {
                assert(approval_of_row(rows@[k]) == Some(open@[k]));
            }
        }
        let ghost before = open@;
        let out = sort(open);
        proof {
            lemma_reorder_keeps_keys(before, out@, |a: ApprovalRequest| a.id);
            assert forall|k: int| 0 <= k < out@.len() implies stored_approval(self.db.rows(), #[trigger] out@[k].id) == Some(out@[k])
                && out@[k].session_id == session_id && !out@[k].resolved by {
                assert(before.contains(out@[k]));
                let m = choose|m: int| 0 <= m < before.len() && before[m] == out@[k];
                assert(stored_approval(self.db.rows(), before[m].id) == Some(before[m]));
            }
            assert forall|id: i64| #[trigger] stored_approval_row(self.db.rows(), id) is Some && stored_approval_row(self.db.rows(), id)->0.session_id == session_id
                && !stored_approval_row(self.db.rows(), id)->0.resolved implies exists|k: int| 0 <= k < out@.len() && out@[k].id == id by {
                let m = choose|m: int| 0 <= m < before.len() && before[m].id == id;
                assert(out@.contains(before[m]));
            }
            assert forall|a: int, b: int| 0 <= a < b < out@.len() implies #[trigger] out@[a].id != #[trigger] out@[b].id by {
                assert((|x: ApprovalRequest| x.id)(out@[a]) != (|x: ApprovalRequest| x.id)(out@[b]));
            }
        }
        Ok(out)
    }

    /// Record a decision. The first response wins; later ones are refused
    /// with `AlreadyResolved`, naming who answered first.
    pub fn resolve(&mut self, id: i64, decision: Decision, device_id: Option<i64>) -> (r: Result<ApprovalRequest>)
        ensures
            *final(final(self).db) == *final(old(self).db),
            stored_approval(old(self).db.rows(), id) is None ==> r is Err,
            stored_approval(old(self).db.rows(), id) matches Some(q) && q.resolved ==> r is Err,
            r matches Ok(a) ==> {
                let q = stored_approval(old(self).db.rows(), id)->0;
                &&& stored_approval(old(self).db.rows(), id) is Some
                &&& !q.resolved
                &&& answered(q, a, decision, device_id)
                &&& stored_approval(final(self).db.rows(), id) == Some(a)
                &&& exists|row: ApprovalRow| final(self).db.rows() == old(self).db.rows().insert((Table::Approvals, id), StoredRow::Approval(row))
            },
            r matches Err(e) ==> final(self).db.rows() == old(self).db.rows(),
            r is Err && r->Err_0 is AlreadyResolved ==> stored_approval(old(self).db.rows(), id) is Some
                && stored_approval(old(self).db.rows(), id)->0.resolved
                && resolver_of(old(self).db.rows(), stored_approval(old(self).db.rows(), id)->0) == Some(r->Err_0->resolved_by@),
            stored_approval(old(self).db.rows(), id) matches Some(q) && q.resolved
                && resolver_of(old(self).db.rows(), q) is Some ==> r is Err && (r->Err_0 is AlreadyResolved || r->Err_0 is Database),
            stored_approval(old(self).db.rows(), id) matches Some(q) && !q.resolved ==> r is Ok || r->Err_0 is Database,
            stored_approval_row(old(self).db.rows(), id) matches Some(row) && !row.resolved
                ==> r is Ok || r->Err_0 is Database || r->Err_0 is Validation,
            r matches Err(e) ==> e is Database || e is Validation || e is NotFound || e is AlreadyResolved,
            r matches Err(e) && e is NotFound ==> stored_approval_row(old(self).db.rows(), id) is None
                || (stored_approval(old(self).db.rows(), id) is Some && stored_approval(old(self).db.rows(), id)->0.resolved
                && resolver_of(old(self).db.rows(), stored_approval(old(self).db.rows(), id)->0) is None),
            r matches Err(e) && e is Validation ==> stored_approval_row(old(self).db.rows(), id) is Some
                && stored_approval(old(self).db.rows(), id) is None,
    {
        resolve_in(self.db, id, decision, device_id, false)
    }

    /// Deny every open request whose window had passed at `cutoff` (RFC
    /// 3339 text), and return them. Only a database failure, or a stored
    /// request that cannot be read, stops it.
    pub fn expire_overdue_at(&mut self, cutoff: &str) -> (r: Result<Vec<ApprovalRequest>>)
        ensures
            *final(final(self).db) == *final(old(self).db),
            r matches Ok(v) ==> expired_as_of(old(self).db.rows(), final(self).db.rows(), v@, cutoff@),
            r matches Err(e) ==> e is Database || e is Validation,
            approvals_readable(old(self).db.rows()) ==> r is Ok || r->Err_0 is Database,
    {
        expire_in(self.db, cutoff)
    }

    /// Deny every open request whose window has passed by now, and return
    /// them: [`ApprovalRepository::expire_overdue_at`] at the current time.
    pub fn expire_overdue(&mut self) -> (r: Result<Vec<ApprovalRequest>>)
        ensures
            *final(final(self).db) == *final(old(self).db),
            r matches Ok(v) ==> exists|cutoff: Seq<char>| #[trigger] expired_as_of(old(self).db.rows(), final(self).db.rows(), v@, cutoff),
            r matches Err(e) ==> e is Database || e is Validation,
            approvals_readable(old(self).db.rows()) ==> r is Ok || r->Err_0 is Database,
    {
        let cutoff = now();
        let r = self.expire_overdue_at(cutoff.as_str());
        proof {
            if r is Ok {
                assert(expired_as_of(old(self).db.rows(), self.db.rows(), r->Ok_0@, cutoff@));
            }
        }
        r
    }
}

/// A request denied because its window passed says so: asked who answered
/// it, the library names "timeout".
pub proof fn lemma_expired_requests_report_timeout(
    before: Map<(Table, i64), StoredRow>,
    after: Map<(Table, i64), StoredRow>,
    denied: Seq<ApprovalRequest>,
    cutoff: Seq<char>,
    k: int,
)
    requires
        expired_as_of(before, after, denied, cutoff),
        0 <= k < denied.len(),
    ensures
        denied[k].resolved,
        denied[k].resolution == Some(Decision::Denied),
        resolver_of(after, denied[k]) == Some("timeout"@),
{
    assert(overdue(before, denied[k].id, cutoff));
}

/// The first answer to a request wins: once an answer is stored, the request
/// is resolved with that answer's decision and answerer, which is exactly
/// when [`ApprovalRepository::resolve`] refuses every later answer with
/// `AlreadyResolved` and leaves the rows as they are.
pub proof fn lemma_first_answer_wins(
    after: Map<(Table, i64), StoredRow>,
    id: i64,
    q: ApprovalRequest,
    a: ApprovalRequest,
    decision: Decision,
    device_id: Option<i64>,
)
    requires
        !q.resolved,
        answered(q, a, decision, device_id),
        stored_approval(after, id) == Some(a),
    ensures
        stored_approval(after, id) is Some,
        stored_approval(after, id)->0.resolved,
        stored_approval(after, id)->0.resolution == Some(decision),
        stored_approval(after, id)->0.resolved_by_device_id == device_id,
        device_id is None ==> resolver_of(after, stored_approval(after, id)->0) is Some,
{
}

/// Expiring twice at one cutoff denies nothing the second time: every
/// request that was due is resolved by the first expiry.
pub proof fn lemma_second_expiry_denies_nothing(
    before: Map<(Table, i64), StoredRow>,
    middle: Map<(Table, i64), StoredRow>,
    after: Map<(Table, i64), StoredRow>,
    first: Seq<ApprovalRequest>,
    second: Seq<ApprovalRequest>,
    cutoff: Seq<char>,
)
    requires
        expired_as_of(before, middle, first, cutoff),
        expired_as_of(middle, after, second, cutoff),
    ensures
        second.len() == 0,
{
    if second.len() > 0 {
        let id = second[0].id;
        let key = (Table::Approvals, id);
        assert(overdue(middle, id, cutoff));
        if denied_key(first, key) {
            let j = choose|j: int| 0 <= j < first.len() && (#[trigger] first[j]).id == key.1;
            assert(overdue(before, first[j].id, cutoff) && stored_approval(middle, first[j].id) == Some(first[j]));
            assert(answered(stored_approval(before, first[j].id)->0, first[j], Decision::Denied, None));
        } else {
            assert(middle.contains_key(key));
            assert(before.contains_key(key));
            assert(middle[key] == before[key]);
            assert(overdue(before, id, cutoff));
            let j = choose|j: int| 0 <= j < first.len() && first[j].id == id;
            assert(denied_key(first, key));
        }
    }
}

/// Record a decision, `on_timeout` telling whether it is the denial of a
/// request whose window passed. The first response wins; later ones are
/// refused with `AlreadyResolved`, naming who answered first.
pub(crate) fn resolve_in(db: &mut Database, id: i64, decision: Decision, device_id: Option<i64>, on_timeout: bool) -> (r: Result<ApprovalRequest>)
    ensures
        stored_approval(old(db).rows(), id) is None ==> r is Err,
        stored_approval(old(db).rows(), id) matches Some(q) && q.resolved ==> r is Err,
        r matches Ok(a) ==> {
            let q = stored_approval(old(db).rows(), id)->0;
            &&& stored_approval(old(db).rows(), id) is Some
            &&& !q.resolved
            &&& answered(q, a, decision, device_id)
            &&& a.id == id
            &&& stored_approval(final(db).rows(), id) == Some(a)
            &&& exists|row: ApprovalRow| final(db).rows() == old(db).rows().insert((Table::Approvals, id), StoredRow::Approval(row))
                && row.timed_out == on_timeout
        },
        r matches Err(e) ==> final(db).rows() == old(db).rows(),
        r is Err && r->Err_0 is AlreadyResolved ==> stored_approval(old(db).rows(), id) is Some
            && stored_approval(old(db).rows(), id)->0.resolved
            && resolver_of(old(db).rows(), stored_approval(old(db).rows(), id)->0) == Some(r->Err_0->resolved_by@),
        stored_approval(old(db).rows(), id) matches Some(q) && q.resolved
            && resolver_of(old(db).rows(), q) is Some ==> r is Err && (r->Err_0 is AlreadyResolved || r->Err_0 is Database),
        stored_approval(old(db).rows(), id) matches Some(q) && !q.resolved ==> r is Ok || r->Err_0 is Database,
        stored_approval_row(old(db).rows(), id) matches Some(row) && !row.resolved
            ==> r is Ok || r->Err_0 is Database || r->Err_0 is Validation,
        r matches Err(e) ==> e is Database || e is Validation || e is NotFound || e is AlreadyResolved,
        r matches Err(e) && e is NotFound ==> stored_approval_row(old(db).rows(), id) is None
            || (stored_approval(old(db).rows(), id) is Some && stored_approval(old(db).rows(), id)->0.resolved
            && resolver_of(old(db).rows(), stored_approval(old(db).rows(), id)->0) is None),
        r matches Err(e) && e is Validation ==> stored_approval_row(old(db).rows(), id) is Some
            && stored_approval(old(db).rows(), id) is None,
{
    let stored = match read_approval_row(db, id) {
        Ok(row) => row,
        Err(e) => return Err(e),
    };
    let expired = stored.timed_out;
    let request = match ApprovalRequest::from_row(stored) {
        Ok(a) => a,
        Err(e) => return Err(e),
    };
    if request.resolved {
        return match resolver_name(db, &request, expired) {
            Ok(name) => Err(IdeError::AlreadyResolved { resolved_by: name }),
            Err(e) => Err(e),
        };
    }
    let answered_request = ApprovalRequest {
        resolved: true,
        resolution: Some(decision),
        resolved_by_device_id: device_id,
        ..request
    };
    let mut row = answered_request.to_row();
    row.timed_out = on_timeout;
    match sql::update_approval(db, &row) {
        Ok(_) => Ok(answered_request),
        Err(e) => Err(IdeError::Database(e)),
    }
}


/// Deny every open request whose window had passed at `cutoff`, and
/// return them.
fn expire_in(db: &mut Database, cutoff: &str) -> (r: Result<Vec<ApprovalRequest>>)
    ensures
        r matches Ok(v) ==> expired_as_of(old(db).rows(), final(db).rows(), v@, cutoff@),
        r is Ok ==> final(db).rows().dom() == old(db).rows().dom(),
        r matches Err(e) ==> e is Database || e is Validation,
        approvals_readable(old(db).rows()) ==> r is Ok || r->Err_0 is Database,
{
    let rows = match sql::select_all_approvals(db) {
        Ok(v) => v,
        Err(e) => return Err(IdeError::Database(e)),
    };
    let ghost start = db.rows();
    let ghost listed = rows@.map_values(|r: ApprovalRow| (r.id, StoredRow::Approval(r)));
    let mut due: Vec<ApprovalRow> = Vec::new();
    let mut i: usize = 0;
    while i < rows.len()
        invariant
            i <= rows.len(),
            db.rows() == start,
            start == old(db).rows(),
            lists_table(start, Table::Approvals, listed),
            listed == rows@.map_values(|r: ApprovalRow| (r.id, StoredRow::Approval(r))),
            forall|k: int| 0 <= k < due@.len() ==> #[trigger] overdue(start, due@[k].id, cutoff@)
                && stored_approval_row(start, due@[k].id) == Some(due@[k]),
            forall|k: int| 0 <= k < i && !(#[trigger] rows@[k]).resolved && text_le(rows@[k].expires_at@, cutoff@)
                ==> due@.contains(rows@[k]),
            forall|a: int, b: int| 0 <= a < b < due@.len() ==> #[trigger] due@[a].id != #[trigger] due@[b].id,
            forall|a: int, b: int| 0 <= a < due@.len() && i <= b < rows@.len() ==> #[trigger] due@[a].id != #[trigger] rows@[b].id,
        decreases rows.len() - i,
    {
        proof {
            assert(listed[i as int] == (rows@[i as int].id, StoredRow::Approval(rows@[i as int])));
            assert(start.contains_key((Table::Approvals, listed[i as int].0)));
        }
        let ghost due_before = due@;
        if !rows[i].resolved && text_in_order(rows[i].expires_at.as_str(), cutoff) {
            due.push(copy_approval_row(&rows[i]));
            proof {
                assert(due@[due@.len() - 1] == rows@[i as int]);
                assert(stored_approval_row(start, rows@[i as int].id) == Some(rows@[i as int]));
                assert(overdue(start, due@[due@.len() - 1].id, cutoff@));
                assert forall|k: int| 0 <= k < due@.len() implies #[trigger] overdue(start, due@[k].id, cutoff@)
                    && stored_approval_row(start, due@[k].id) == Some(due@[k]) by {
                    if k < due_before.len() {
                        assert(due@[k] == due_before[k]);
                        assert(overdue(start, due_before[k].id, cutoff@));
                    }
                }
                assert forall|k: int| 0 <= k < i && !(#[trigger] rows@[k]).resolved && text_le(rows@[k].expires_at@, cutoff@)
                    implies due@.contains(rows@[k]) by {
                    let m = choose|m: int| 0 <= m < due_before.len() && due_before[m] == rows@[k];
                    assert(due@[m] == rows@[k]);
                }
            }
        }
        proof {
            assert forall|a: int, b: int| 0 <= a < due@.len() && i + 1 <= b < rows@.len() implies #[trigger] due@[a].id != #[trigger] rows@[b].id by {
                if a == due@.len() - 1 && due@[a] == rows@[i as int] {
                    assert(listed[i as int].0 != listed[b].0);
                }
            }
        }
        i = i + 1;
    }
    proof {
        assert forall|id: i64| #[trigger] overdue(start, id, cutoff@) implies exists|k: int| 0 <= k < due@.len() && due@[k].id == id by {
            assert(start.contains_key((Table::Approvals, id)));
            let p = choose|p: int| 0 <= p < listed.len() && #[trigger] listed[p].0 == id;
            assert(listed[p] == (rows@[p].id, StoredRow::Approval(rows@[p])));
            assert(due@.contains(rows@[p]));
        }
    }
    let ghost unsorted = due@;
    let due = sort(due);
    proof {
        lemma_reorder_keeps_keys(unsorted, due@, |a: ApprovalRow| a.id);
        assert forall|k: int| 0 <= k < due@.len() implies #[trigger] overdue(start, due@[k].id, cutoff@)
            && stored_approval_row(start, due@[k].id) == Some(due@[k]) by {
            assert(unsorted.contains(due@[k]));
            let m = choose|m: int| 0 <= m < unsorted.len() && unsorted[m] == due@[k];
            assert(overdue(start, unsorted[m].id, cutoff@));
        }
        assert forall|id: i64| #[trigger] overdue(start, id, cutoff@) implies exists|k: int| 0 <= k < due@.len() && due@[k].id == id by {
            let m = choose|m: int| 0 <= m < unsorted.len() && unsorted[m].id == id;
            assert(due@.contains(unsorted[m]));
        }
        assert forall|a: int, b: int| 0 <= a < b < due@.len() implies #[trigger] due@[a].id != #[trigger] due@[b].id by {
            assert((|x: ApprovalRow| x.id)(due@[a]) != (|x: ApprovalRow| x.id)(due@[b]));
        }
    }
    let mut denied: Vec<ApprovalRequest> = Vec::new();
    let mut j: usize = 0;
    while j < due.len()
        invariant
            j <= due.len(),
            denied@.len() == j,
            start == old(db).rows(),
            *final(db) == *final(old(db)),
            forall|k: int| 0 <= k < due@.len() ==> #[trigger] overdue(start, due@[k].id, cutoff@)
                && stored_approval_row(start, due@[k].id) == Some(due@[k]),
            forall|a: int, b: int| 0 <= a < b < due@.len() ==> #[trigger] due@[a].id != #[trigger] due@[b].id,
            forall|k: int| 0 <= k < j ==> (#[trigger] denied@[k]).id == due@[k].id
                && approval_of_row(due@[k]) is Some
                && answered(approval_of_row(due@[k])->0, denied@[k], Decision::Denied, None)
                && stored_approval(db.rows(), denied@[k].id) == Some(denied@[k])
                && denied_on_timeout(db.rows(), denied@[k].id),
            db.rows().dom() == start.dom(),
            forall|key: (Table, i64)| #[trigger] start.contains_key(key) && !denied_key(denied@, key)
                ==> db.rows()[key] == start[key],
            forall|id: i64| #[trigger] overdue(start, id, cutoff@) ==> exists|k: int| 0 <= k < due@.len() && due@[k].id == id,
        decreases due.len() - j,
    {
        let id = due[j].id;
        proof {
            assert(overdue(start, due@[j as int].id, cutoff@));
            let key = (Table::Approvals, id);
            assert(start.contains_key(key));
            if denied_key(denied@, key) {
                let k = choose|k: int| 0 <= k < denied@.len() && (#[trigger] denied@[k]).id == key.1;
                assert(due@[k].id != due@[j as int].id);
            }
            assert(db.rows()[key] == start[key]);
            assert(stored_approval_row(db.rows(), id) == Some(due@[j as int]));
        }
        let ghost before = db.rows();
        match resolve_in(db, id, Decision::Denied, None, true) {
            Ok(a) => {
                proof {
                    let new_denied = denied@.push(a);
                    assert forall|key: (Table, i64)| #[trigger] start.contains_key(key) && !denied_key(new_denied, key)
                        implies db.rows()[key] == start[key] by {
                        assert(!denied_key(denied@, key)) by {
                            if denied_key(denied@, key) {
                                let k = choose|k: int| 0 <= k < denied@.len() && (#[trigger] denied@[k]).id == key.1;
                                assert(new_denied[k] == denied@[k]);
                            }
                        }
                        if key == (Table::Approvals, id) {
                            assert(new_denied[new_denied.len() - 1].id == id);
                        }
                    }
                    assert forall|k: int| 0 <= k < j + 1 implies (#[trigger] new_denied[k]).id == due@[k].id
                        && approval_of_row(due@[k]) is Some
                        && answered(approval_of_row(due@[k])->0, new_denied[k], Decision::Denied, None)
                        && stored_approval(db.rows(), new_denied[k].id) == Some(new_denied[k])
                        && denied_on_timeout(db.rows(), new_denied[k].id) by {
                        if k < j {
                            assert(new_denied[k] == denied@[k]);
                            assert(due@[k].id != id);
                            assert(stored_approval_row(db.rows(), denied@[k].id) == stored_approval_row(before, denied@[k].id));
                        } else {
                            let row = choose|row: ApprovalRow| db.rows() == before.insert((Table::Approvals, id), StoredRow::Approval(row))
                                && row.timed_out;
                            assert(stored_approval_row(db.rows(), id) == Some(row));
                        }
                    }
                    assert(db.rows().dom() =~= start.dom());
                }
                denied.push(a);
            },
            Err(IdeError::AlreadyResolved { .. }) => {
                proof { assert(false); }
            },
            Err(e) => {
                proof {
                    assert(stored_approval_row(before, id) == Some(due@[j as int]));
                    assert(!due@[j as int].resolved);
                    if approvals_readable(start) {
                        assert(stored_approval_row(start, id) is Some);
                        assert(stored_approval(start, id) is Some);
                        assert(stored_approval(before, id) == stored_approval(start, id));
                    }
                }
                return Err(e);
            },
        }
        j = j + 1;
    }
    proof {
        assert forall|k: int| 0 <= k < denied@.len() implies #[trigger] overdue(start, denied@[k].id, cutoff@)
            && stored_approval(start, denied@[k].id) is Some
            && answered(stored_approval(start, denied@[k].id)->0, denied@[k], Decision::Denied, None)
            && stored_approval(db.rows(), denied@[k].id) == Some(denied@[k])
            && denied_on_timeout(db.rows(), denied@[k].id) by {
            assert(overdue(start, due@[k].id, cutoff@));
            assert(stored_approval_row(start, due@[k].id) == Some(due@[k]));
        }
        assert forall|id: i64| #[trigger] overdue(start, id, cutoff@) implies exists|k: int| 0 <= k < denied@.len() && denied@[k].id == id by {
            let k = choose|k: int| 0 <= k < due@.len() && due@[k].id == id;
            assert(denied@[k].id == due@[k].id);
        }
        assert(expired_as_of(start, db.rows(), denied@, cutoff@));
        assert(start == old(db).rows());
        assert(expired_as_of(old(db).rows(), db.rows(), denied@, cutoff@));
    }
    let r: Result<Vec<ApprovalRequest>> = Ok(denied);
    assert(r matches Ok(v) && v@ == denied@);
    r
}

} // verus!
