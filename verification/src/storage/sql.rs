//! Statements run against the SQLite connection. Each function runs one
//! statement through `rusqlite` and states, over [`stored_rows`], what the
//! statement does to the stored rows.

use vstd::prelude::*;
use crate::storage::Database;
use crate::agent::approval::{ApprovalRow, lists_open_rows};
use crate::agent::provider::ProviderRow;
use crate::agent::session::SessionRow;
use crate::storage::connections::SessionClientConnection;
use crate::storage::pairing::{PairedDevice, token_issued};
use crate::storage::projects::Project;
use crate::storage::rows::{
    StoredRow, Table, stored_rows, lists_table, row_inserted, row_updated, row_deleted, no_rows,
    session_deleted, foreign_keys_on, table_in_schema, migration_recorded, has_data_tables,
};
use crate::storage::transcripts::{EntryRow, next_order_index, lists_entry_rows_after};

verus! {

/// Opens the database file at `path` with `rusqlite::Connection::open`.
#[verifier::external_body]
pub(crate) fn open_file(path: &str) -> (r: core::result::Result<rusqlite::Connection, rusqlite::Error>) {
    rusqlite::Connection::open(path)
}

/// Opens a fresh database in memory with `rusqlite::Connection::open_in_memory`.
/// A fresh in-memory database holds no rows.
#[verifier::external_body]
pub(crate) fn open_memory() -> (r: core::result::Result<rusqlite::Connection, rusqlite::Error>)
    ensures
        r is Ok ==> stored_rows(r->Ok_0) == no_rows(),
        r is Ok ==> forall|n: Seq<char>| !#[trigger] migration_recorded(r->Ok_0, n),
{
    rusqlite::Connection::open_in_memory()
}

/// Turns on foreign key enforcement with `Connection::pragma_update`
/// (`PRAGMA foreign_keys = ON`); once it succeeds the connection enforces
/// them. The stored rows do not change.
#[verifier::external_body]
pub(crate) fn enable_foreign_keys(conn: &mut rusqlite::Connection) -> (r: core::result::Result<(), rusqlite::Error>)
    ensures
        stored_rows(*final(conn)) == stored_rows(*old(conn)),
        r is Ok ==> foreign_keys_on(*final(conn)),
        forall|t: Seq<char>| #[trigger] table_in_schema(*final(conn), t) == table_in_schema(*old(conn), t),
        forall|n: Seq<char>| #[trigger] migration_recorded(*final(conn), n) == migration_recorded(*old(conn), n),
{
    conn.pragma_update(None, "foreign_keys", "ON")
}

/// Asks for write-ahead logging with `Connection::pragma_update`; the stored
/// rows do not change.
#[verifier::external_body]
pub(crate) fn enable_write_ahead_log(db: &mut Database) -> (r: core::result::Result<(), rusqlite::Error>)
    ensures
        foreign_keys_on(final(db).conn) == foreign_keys_on(old(db).conn),
        final(db).rows() == old(db).rows(),
        forall|t: Seq<char>| #[trigger] table_in_schema(final(db).conn, t) == table_in_schema(old(db).conn, t),
        forall|n: Seq<char>| #[trigger] migration_recorded(final(db).conn, n) == migration_recorded(old(db).conn, n),
{
    db.conn.pragma_update(None, "journal_mode", "WAL")
}

/// Runs a schema script with `Connection::execute_batch`. The scripts it
/// takes hold `CREATE TABLE IF NOT EXISTS` and `CREATE INDEX IF NOT EXISTS`
/// statements, which create empty tables and indexes, and one `ALTER TABLE
/// .. ADD COLUMN` with a default: no table is dropped, no migration record
/// changes, and the stored rows stay as they were, whether the script runs
/// through or stops at a failing statement. Once a script ran through, the
/// tables it creates are in the schema.
#[verifier::external_body]
pub(crate) fn run_batch(db: &mut Database, script: &str) -> (r: core::result::Result<(), rusqlite::Error>)
    requires
        script@ == crate::storage::schema::MIGRATIONS_TABLE_SQL@ || script@ == crate::storage::schema::INITIAL_MIGRATION_SQL@
            || script@ == crate::storage::schema::TIMEOUT_MIGRATION_SQL@,
    ensures
        foreign_keys_on(final(db).conn) == foreign_keys_on(old(db).conn),
        final(db).rows() == old(db).rows(),
        forall|t: Seq<char>| table_in_schema(old(db).conn, t) ==> #[trigger] table_in_schema(final(db).conn, t),
        forall|n: Seq<char>| #[trigger] migration_recorded(final(db).conn, n) == migration_recorded(old(db).conn, n),
        r is Ok && script@ == crate::storage::schema::MIGRATIONS_TABLE_SQL@ ==> table_in_schema(final(db).conn, "schema_migrations"@),
        r is Ok && script@ == crate::storage::schema::INITIAL_MIGRATION_SQL@ ==> has_data_tables(final(db).conn),
{
    db.conn.execute_batch(script)
}

/// Whether `sqlite_master` lists a table called `name`, read with
/// `Connection::query_row`.
#[verifier::external_body]
pub(crate) fn table_exists(db: &Database, name: &str) -> (r: core::result::Result<bool, rusqlite::Error>)
    ensures
        r matches Ok(b) ==> b == table_in_schema(db.conn, name@),
{
    db.conn.query_row(
        "SELECT EXISTS(SELECT 1 FROM sqlite_master WHERE type = 'table' AND name = ?1)",
        [name],
        |row| row.get(0),
    )
}

/// Whether `schema_migrations` records `name`, read with `Connection::query_row`.
#[verifier::external_body]
pub(crate) fn migration_applied(db: &Database, name: &str) -> (r: core::result::Result<bool, rusqlite::Error>)
    ensures
        r matches Ok(b) ==> b == migration_recorded(db.conn, name@),
{
    db.conn.query_row(
        "SELECT EXISTS(SELECT 1 FROM schema_migrations WHERE name = ?1)",
        [name],
        |row| row.get(0),
    )
}

/// Records migration `name` in `schema_migrations` with `Connection::execute`.
/// The rows of the data model, the tables and the other records do not
/// change; once it succeeds, `name` is recorded.
#[verifier::external_body]
pub(crate) fn record_migration(db: &mut Database, name: &str, at: &str) -> (r: core::result::Result<usize, rusqlite::Error>)
    ensures
        foreign_keys_on(final(db).conn) == foreign_keys_on(old(db).conn),
        final(db).rows() == old(db).rows(),
        forall|t: Seq<char>| #[trigger] table_in_schema(final(db).conn, t) == table_in_schema(old(db).conn, t),
        forall|n: Seq<char>| migration_recorded(old(db).conn, n) ==> #[trigger] migration_recorded(final(db).conn, n),
        r is Ok ==> migration_recorded(final(db).conn, name@),
{
    db.conn.execute("INSERT INTO schema_migrations (name, applied_at) VALUES (?1, ?2)", (name, at))
}

// ---- projects ----
/// Inserts a row into `projects` with `Connection::execute` and reads the id
/// that SQLite assigned with `Connection::last_insert_rowid`. On success
/// the row is stored under that fresh id; a failed statement changes nothing.
#[verifier::external_body]
pub(crate) fn insert_project(db: &mut Database, r: &Project) -> (res: core::result::Result<i64, rusqlite::Error>)
    ensures
        foreign_keys_on(final(db).conn) == foreign_keys_on(old(db).conn),
        res matches Ok(id) ==> row_inserted(old(db).rows(), final(db).rows(),
            (Table::Projects, id), StoredRow::Project(Project { id, ..*r })),
        res is Err ==> final(db).rows() == old(db).rows(),
{
    db.conn.execute("INSERT INTO projects (name, path, auto_approve_read_only, available, created_at, updated_at) VALUES (?1, ?2, ?3, ?4, ?5, ?6)",
        (&r.name, &r.path, r.auto_approve_read_only, r.available, &r.created_at, &r.updated_at,))?;
    Ok(db.conn.last_insert_rowid())
}

/// Reads the row of `projects` with id `id` with `Connection::query_row`;
/// `None` when no row has that id.
#[verifier::external_body]
pub(crate) fn select_project(db: &Database, id: i64) -> (res: core::result::Result<Option<Project>, rusqlite::Error>)
    ensures
        res matches Ok(Some(r)) ==> db.rows().contains_key((Table::Projects, id))
            && db.rows()[(Table::Projects, id)] == StoredRow::Project(r) && r.id == id,
        res matches Ok(None) ==> !db.rows().contains_key((Table::Projects, id)),
{
    let found = db.conn.query_row("SELECT id, name, path, auto_approve_read_only, available, created_at, updated_at FROM projects WHERE id = ?1", [id],
        |row| Ok(Project { id: row.get("id")?, name: row.get("name")?, path: row.get("path")?, auto_approve_read_only: row.get("auto_approve_read_only")?, available: row.get("available")?, created_at: row.get("created_at")?, updated_at: row.get("updated_at")? }));
    match found {
        Ok(r) => Ok(Some(r)),
        Err(rusqlite::Error::QueryReturnedNoRows) => Ok(None),
        Err(e) => Err(e),
    }
}

/// Reads every row of `projects` with `Connection::prepare` and
/// `Statement::query_map`, in the order SQLite returns them.
#[verifier::external_body]
pub(crate) fn select_all_projects(db: &Database) -> (res: core::result::Result<Vec<Project>, rusqlite::Error>)
    ensures
        res matches Ok(v) ==> lists_table(db.rows(), Table::Projects,
            v@.map_values(|r: Project| (r.id, StoredRow::Project(r)))),
{
    let mut stmt = db.conn.prepare("SELECT id, name, path, auto_approve_read_only, available, created_at, updated_at FROM projects")?;
    let rows = stmt.query_map([], |row| Ok(Project { id: row.get("id")?, name: row.get("name")?, path: row.get("path")?, auto_approve_read_only: row.get("auto_approve_read_only")?, available: row.get("available")?, created_at: row.get("created_at")?, updated_at: row.get("updated_at")? }))?;
    rows.collect()
}

/// Rewrites every column of the row of `projects` with id `r.id` with
/// `Connection::execute`, which returns how many rows changed; a failed
/// statement changes nothing.
#[verifier::external_body]
pub(crate) fn update_project(db: &mut Database, r: &Project) -> (res: core::result::Result<usize, rusqlite::Error>)
    ensures
        foreign_keys_on(final(db).conn) == foreign_keys_on(old(db).conn),
        res matches Ok(n) ==> row_updated(old(db).rows(), final(db).rows(),
            (Table::Projects, r.id), StoredRow::Project(*r), n),
        res is Err ==> final(db).rows() == old(db).rows(),
{
    db.conn.execute("UPDATE projects SET name = ?2, path = ?3, auto_approve_read_only = ?4, available = ?5, created_at = ?6, updated_at = ?7 WHERE id = ?1",
        (r.id, &r.name, &r.path, r.auto_approve_read_only, r.available, &r.created_at, &r.updated_at))
}

/// Deletes the row of `projects` with id `id` with `Connection::execute`. A
/// row that others still reference is refused by the foreign keys, and a
/// failed statement changes nothing.
#[verifier::external_body]
pub(crate) fn delete_project(db: &mut Database, id: i64) -> (res: core::result::Result<usize, rusqlite::Error>)
    ensures
        foreign_keys_on(final(db).conn) == foreign_keys_on(old(db).conn),
        res matches Ok(n) ==> row_deleted(old(db).rows(), final(db).rows(),
            (Table::Projects, id), n),
        res is Err ==> final(db).rows() == old(db).rows(),
{
    db.conn.execute("DELETE FROM projects WHERE id = ?1", [id])
}

// ---- model_providers ----
/// Inserts a row into `model_providers` with `Connection::execute` and reads the id
/// that SQLite assigned with `Connection::last_insert_rowid`. On success
/// the row is stored under that fresh id; a failed statement changes nothing.
#[verifier::external_body]
pub(crate) fn insert_provider(db: &mut Database, r: &ProviderRow) -> (res: core::result::Result<i64, rusqlite::Error>)
    ensures
        foreign_keys_on(final(db).conn) == foreign_keys_on(old(db).conn),
        res matches Ok(id) ==> row_inserted(old(db).rows(), final(db).rows(),
            (Table::Providers, id), StoredRow::Provider(ProviderRow { id, ..*r })),
        res is Err ==> final(db).rows() == old(db).rows(),
{
    db.conn.execute("INSERT INTO model_providers (name, kind, api_base_url, default_model, created_at, updated_at) VALUES (?1, ?2, ?3, ?4, ?5, ?6)",
        (&r.name, &r.kind, &r.api_base_url, &r.default_model, &r.created_at, &r.updated_at,))?;
    Ok(db.conn.last_insert_rowid())
}

/// Reads the row of `model_providers` with id `id` with `Connection::query_row`;
/// `None` when no row has that id.
#[verifier::external_body]
pub(crate) fn select_provider(db: &Database, id: i64) -> (res: core::result::Result<Option<ProviderRow>, rusqlite::Error>)
    ensures
        res matches Ok(Some(r)) ==> db.rows().contains_key((Table::Providers, id))
            && db.rows()[(Table::Providers, id)] == StoredRow::Provider(r) && r.id == id,
        res matches Ok(None) ==> !db.rows().contains_key((Table::Providers, id)),
{
    let found = db.conn.query_row("SELECT id, name, kind, api_base_url, default_model, created_at, updated_at FROM model_providers WHERE id = ?1", [id],
        |row| Ok(ProviderRow { id: row.get("id")?, name: row.get("name")?, kind: row.get("kind")?, api_base_url: row.get("api_base_url")?, default_model: row.get("default_model")?, created_at: row.get("created_at")?, updated_at: row.get("updated_at")? }));
    match found {
        Ok(r) => Ok(Some(r)),
        Err(rusqlite::Error::QueryReturnedNoRows) => Ok(None),
        Err(e) => Err(e),
    }
}

/// Reads every row of `model_providers` with `Connection::prepare` and
/// `Statement::query_map`, in the order SQLite returns them.
#[verifier::external_body]
pub(crate) fn select_all_providers(db: &Database) -> (res: core::result::Result<Vec<ProviderRow>, rusqlite::Error>)
    ensures
        res matches Ok(v) ==> lists_table(db.rows(), Table::Providers,
            v@.map_values(|r: ProviderRow| (r.id, StoredRow::Provider(r)))),
{
    let mut stmt = db.conn.prepare("SELECT id, name, kind, api_base_url, default_model, created_at, updated_at FROM model_providers")?;
    let rows = stmt.query_map([], |row| Ok(ProviderRow { id: row.get("id")?, name: row.get("name")?, kind: row.get("kind")?, api_base_url: row.get("api_base_url")?, default_model: row.get("default_model")?, created_at: row.get("created_at")?, updated_at: row.get("updated_at")? }))?;
    rows.collect()
}

/// Deletes the row of `model_providers` with id `id` with `Connection::execute`. A
/// row that others still reference is refused by the foreign keys, and a
/// failed statement changes nothing.
#[verifier::external_body]
pub(crate) fn delete_provider(db: &mut Database, id: i64) -> (res: core::result::Result<usize, rusqlite::Error>)
    ensures
        foreign_keys_on(final(db).conn) == foreign_keys_on(old(db).conn),
        res matches Ok(n) ==> row_deleted(old(db).rows(), final(db).rows(),
            (Table::Providers, id), n),
        res is Err ==> final(db).rows() == old(db).rows(),
{
    db.conn.execute("DELETE FROM model_providers WHERE id = ?1", [id])
}

// ---- paired_devices ----
/// Inserts a row into `paired_devices` with `Connection::execute` and reads the id
/// that SQLite assigned with `Connection::last_insert_rowid`. On success
/// the row is stored under that fresh id; the schema's `UNIQUE` key on
/// `auth_token` refuses a token that a stored device already holds. A
/// failed statement changes nothing.
#[verifier::external_body]
pub(crate) fn insert_device(db: &mut Database, r: &PairedDevice) -> (res: core::result::Result<i64, rusqlite::Error>)
    ensures
        foreign_keys_on(final(db).conn) == foreign_keys_on(old(db).conn),
        res matches Ok(id) ==> row_inserted(old(db).rows(), final(db).rows(),
            (Table::Devices, id), StoredRow::Device(PairedDevice { id, ..*r })),
        res is Ok ==> !token_issued(old(db).rows(), r.auth_token@),
        res is Err ==> final(db).rows() == old(db).rows(),
{
    db.conn.execute("INSERT INTO paired_devices (device_name, auth_token, paired_at, last_seen_at, revoked, revoked_at) VALUES (?1, ?2, ?3, ?4, ?5, ?6)",
        (&r.device_name, &r.auth_token, &r.paired_at, &r.last_seen_at, r.revoked, &r.revoked_at,))?;
    Ok(db.conn.last_insert_rowid())
}

/// Reads the row of `paired_devices` with id `id` with `Connection::query_row`;
/// `None` when no row has that id.
#[verifier::external_body]
pub(crate) fn select_device(db: &Database, id: i64) -> (res: core::result::Result<Option<PairedDevice>, rusqlite::Error>)
    ensures
        res matches Ok(Some(r)) ==> db.rows().contains_key((Table::Devices, id))
            && db.rows()[(Table::Devices, id)] == StoredRow::Device(r) && r.id == id,
        res matches Ok(None) ==> !db.rows().contains_key((Table::Devices, id)),
{
    let found = db.conn.query_row("SELECT id, device_name, auth_token, paired_at, last_seen_at, revoked, revoked_at FROM paired_devices WHERE id = ?1", [id],
        |row| Ok(PairedDevice { id: row.get("id")?, device_name: row.get("device_name")?, auth_token: row.get("auth_token")?, paired_at: row.get("paired_at")?, last_seen_at: row.get("last_seen_at")?, revoked: row.get("revoked")?, revoked_at: row.get("revoked_at")? }));
    match found {
        Ok(r) => Ok(Some(r)),
        Err(rusqlite::Error::QueryReturnedNoRows) => Ok(None),
        Err(e) => Err(e),
    }
}

/// Reads every row of `paired_devices` with `Connection::prepare` and
/// `Statement::query_map`, in the order SQLite returns them.
#[verifier::external_body]
pub(crate) fn select_all_devices(db: &Database) -> (res: core::result::Result<Vec<PairedDevice>, rusqlite::Error>)
    ensures
        res matches Ok(v) ==> lists_table(db.rows(), Table::Devices,
            v@.map_values(|r: PairedDevice| (r.id, StoredRow::Device(r)))),
{
    let mut stmt = db.conn.prepare("SELECT id, device_name, auth_token, paired_at, last_seen_at, revoked, revoked_at FROM paired_devices")?;
    let rows = stmt.query_map([], |row| Ok(PairedDevice { id: row.get("id")?, device_name: row.get("device_name")?, auth_token: row.get("auth_token")?, paired_at: row.get("paired_at")?, last_seen_at: row.get("last_seen_at")?, revoked: row.get("revoked")?, revoked_at: row.get("revoked_at")? }))?;
    rows.collect()
}

/// Rewrites every column of the row of `paired_devices` with id `r.id` with
/// `Connection::execute`, which returns how many rows changed; a failed
/// statement changes nothing.
#[verifier::external_body]
pub(crate) fn update_device(db: &mut Database, r: &PairedDevice) -> (res: core::result::Result<usize, rusqlite::Error>)
    ensures
        foreign_keys_on(final(db).conn) == foreign_keys_on(old(db).conn),
        res matches Ok(n) ==> row_updated(old(db).rows(), final(db).rows(),
            (Table::Devices, r.id), StoredRow::Device(*r), n),
        res is Err ==> final(db).rows() == old(db).rows(),
{
    db.conn.execute("UPDATE paired_devices SET device_name = ?2, auth_token = ?3, paired_at = ?4, last_seen_at = ?5, revoked = ?6, revoked_at = ?7 WHERE id = ?1",
        (r.id, &r.device_name, &r.auth_token, &r.paired_at, &r.last_seen_at, r.revoked, &r.revoked_at))
}

// ---- agent_sessions ----
/// Inserts a row into `agent_sessions` with `Connection::execute` and reads the id
/// that SQLite assigned with `Connection::last_insert_rowid`. On success
/// the row is stored under that fresh id; a failed statement changes nothing.
#[verifier::external_body]
pub(crate) fn insert_session(db: &mut Database, r: &SessionRow) -> (res: core::result::Result<i64, rusqlite::Error>)
    ensures
        foreign_keys_on(final(db).conn) == foreign_keys_on(old(db).conn),
        res matches Ok(id) ==> row_inserted(old(db).rows(), final(db).rows(),
            (Table::Sessions, id), StoredRow::Session(SessionRow { id, ..*r })),
        res is Err ==> final(db).rows() == old(db).rows(),
{
    db.conn.execute("INSERT INTO agent_sessions (project_id, provider_id, status, prompt_text, origin_device_id, created_at, updated_at, completed_at) VALUES (?1, ?2, ?3, ?4, ?5, ?6, ?7, ?8)",
        (r.project_id, r.provider_id, &r.status, &r.prompt_text, r.origin_device_id, &r.created_at, &r.updated_at, &r.completed_at,))?;
    Ok(db.conn.last_insert_rowid())
}

/// Reads the row of `agent_sessions` with id `id` with `Connection::query_row`;
/// `None` when no row has that id.
#[verifier::external_body]
pub(crate) fn select_session(db: &Database, id: i64) -> (res: core::result::Result<Option<SessionRow>, rusqlite::Error>)
    ensures
        res matches Ok(Some(r)) ==> db.rows().contains_key((Table::Sessions, id))
            && db.rows()[(Table::Sessions, id)] == StoredRow::Session(r) && r.id == id,
        res matches Ok(None) ==> !db.rows().contains_key((Table::Sessions, id)),
{
    let found = db.conn.query_row("SELECT id, project_id, provider_id, status, prompt_text, origin_device_id, created_at, updated_at, completed_at FROM agent_sessions WHERE id = ?1", [id],
        |row| Ok(SessionRow { id: row.get("id")?, project_id: row.get("project_id")?, provider_id: row.get("provider_id")?, status: row.get("status")?, prompt_text: row.get("prompt_text")?, origin_device_id: row.get("origin_device_id")?, created_at: row.get("created_at")?, updated_at: row.get("updated_at")?, completed_at: row.get("completed_at")? }));
    match found {
        Ok(r) => Ok(Some(r)),
        Err(rusqlite::Error::QueryReturnedNoRows) => Ok(None),
        Err(e) => Err(e),
    }
}

/// Reads every row of `agent_sessions` with `Connection::prepare` and
/// `Statement::query_map`, in the order SQLite returns them.
#[verifier::external_body]
pub(crate) fn select_all_sessions(db: &Database) -> (res: core::result::Result<Vec<SessionRow>, rusqlite::Error>)
    ensures
        res matches Ok(v) ==> lists_table(db.rows(), Table::Sessions,
            v@.map_values(|r: SessionRow| (r.id, StoredRow::Session(r)))),
{
    let mut stmt = db.conn.prepare("SELECT id, project_id, provider_id, status, prompt_text, origin_device_id, created_at, updated_at, completed_at FROM agent_sessions")?;
    let rows = stmt.query_map([], |row| Ok(SessionRow { id: row.get("id")?, project_id: row.get("project_id")?, provider_id: row.get("provider_id")?, status: row.get("status")?, prompt_text: row.get("prompt_text")?, origin_device_id: row.get("origin_device_id")?, created_at: row.get("created_at")?, updated_at: row.get("updated_at")?, completed_at: row.get("completed_at")? }))?;
    rows.collect()
}

/// Rewrites every column of the row of `agent_sessions` with id `r.id` with
/// `Connection::execute`, which returns how many rows changed; a failed
/// statement changes nothing.
#[verifier::external_body]
pub(crate) fn update_session(db: &mut Database, r: &SessionRow) -> (res: core::result::Result<usize, rusqlite::Error>)
    ensures
        foreign_keys_on(final(db).conn) == foreign_keys_on(old(db).conn),
        res matches Ok(n) ==> row_updated(old(db).rows(), final(db).rows(),
            (Table::Sessions, r.id), StoredRow::Session(*r), n),
        res is Err ==> final(db).rows() == old(db).rows(),
{
    db.conn.execute("UPDATE agent_sessions SET project_id = ?2, provider_id = ?3, status = ?4, prompt_text = ?5, origin_device_id = ?6, created_at = ?7, updated_at = ?8, completed_at = ?9 WHERE id = ?1",
        (r.id, r.project_id, r.provider_id, &r.status, &r.prompt_text, r.origin_device_id, &r.created_at, &r.updated_at, &r.completed_at))
}

/// Deletes the row of `agent_sessions` with id `id` with `Connection::execute`. On
/// a connection that enforces foreign keys, the schema's `ON DELETE CASCADE`
/// keys remove the transcript entries, approval requests and connections of
/// that session with it; on one that does not, only the session row goes.
/// A failed statement changes nothing.
#[verifier::external_body]
pub(crate) fn delete_session(db: &mut Database, id: i64) -> (res: core::result::Result<usize, rusqlite::Error>)
    ensures
        foreign_keys_on(final(db).conn) == foreign_keys_on(old(db).conn),
        res matches Ok(n) ==> (foreign_keys_on(old(db).conn) ==> session_deleted(old(db).rows(), final(db).rows(), id, n)),
        res matches Ok(n) ==> (!foreign_keys_on(old(db).conn) ==> row_deleted(old(db).rows(), final(db).rows(),
            (Table::Sessions, id), n)),
        res is Err ==> final(db).rows() == old(db).rows(),
{
    db.conn.execute("DELETE FROM agent_sessions WHERE id = ?1", [id])
}

// ---- transcript_entries ----
/// Inserts a row into `transcript_entries` with `Connection::execute` and reads the id
/// that SQLite assigned with `Connection::last_insert_rowid`. On success
/// the row is stored under that fresh id; a failed statement changes nothing.
#[verifier::external_body]
pub(crate) fn insert_entry(db: &mut Database, r: &EntryRow) -> (res: core::result::Result<i64, rusqlite::Error>)
    ensures
        foreign_keys_on(final(db).conn) == foreign_keys_on(old(db).conn),
        res matches Ok(id) ==> row_inserted(old(db).rows(), final(db).rows(),
            (Table::Entries, id), StoredRow::Entry(EntryRow { id, ..*r })),
        res is Err ==> final(db).rows() == old(db).rows(),
{
    db.conn.execute("INSERT INTO transcript_entries (session_id, order_index, entry_type, origin_device_id, content, created_at) VALUES (?1, ?2, ?3, ?4, ?5, ?6)",
        (r.session_id, r.order_index, &r.entry_type, r.origin_device_id, &r.content, &r.created_at,))?;
    Ok(db.conn.last_insert_rowid())
}

/// Reads the row of `transcript_entries` with id `id` with `Connection::query_row`;
/// `None` when no row has that id.
#[verifier::external_body]
pub(crate) fn select_entry(db: &Database, id: i64) -> (res: core::result::Result<Option<EntryRow>, rusqlite::Error>)
    ensures
        res matches Ok(Some(r)) ==> db.rows().contains_key((Table::Entries, id))
            && db.rows()[(Table::Entries, id)] == StoredRow::Entry(r) && r.id == id,
        res matches Ok(None) ==> !db.rows().contains_key((Table::Entries, id)),
{
    let found = db.conn.query_row("SELECT id, session_id, order_index, entry_type, origin_device_id, content, created_at FROM transcript_entries WHERE id = ?1", [id],
        |row| Ok(EntryRow { id: row.get("id")?, session_id: row.get("session_id")?, order_index: row.get("order_index")?, entry_type: row.get("entry_type")?, origin_device_id: row.get("origin_device_id")?, content: row.get("content")?, created_at: row.get("created_at")? }));
    match found {
        Ok(r) => Ok(Some(r)),
        Err(rusqlite::Error::QueryReturnedNoRows) => Ok(None),
        Err(e) => Err(e),
    }
}

/// Reads the rows of `transcript_entries` of `session_id` whose order index
/// is above `from` with `Connection::prepare` and `Statement::query_map`, in
/// the order SQLite returns them.
#[verifier::external_body]
pub(crate) fn select_entries_after(db: &Database, session_id: i64, from: i64) -> (res: core::result::Result<Vec<EntryRow>, rusqlite::Error>)
    ensures
        res matches Ok(v) ==> lists_entry_rows_after(db.rows(), session_id, from, v@),
{
    let mut stmt = db.conn.prepare("SELECT id, session_id, order_index, entry_type, origin_device_id, content, created_at FROM transcript_entries WHERE session_id = ?1 AND order_index > ?2")?;
    let rows = stmt.query_map((session_id, from), |row| Ok(EntryRow { id: row.get("id")?, session_id: row.get("session_id")?, order_index: row.get("order_index")?, entry_type: row.get("entry_type")?, origin_device_id: row.get("origin_device_id")?, content: row.get("content")?, created_at: row.get("created_at")? }))?;
    rows.collect()
}

/// The largest order index among the rows of `transcript_entries` of
/// `session_id`, read with `Connection::query_row` and `MAX`, which gives
/// NULL, read as `None`, when the session has no entry.
#[verifier::external_body]
pub(crate) fn max_order_index(db: &Database, session_id: i64) -> (res: core::result::Result<Option<i64>, rusqlite::Error>)
    ensures
        res matches Ok(None) ==> next_order_index(db.rows(), session_id, 0),
        res matches Ok(Some(m)) ==> next_order_index(db.rows(), session_id, m + 1),
{
    db.conn.query_row("SELECT MAX(order_index) FROM transcript_entries WHERE session_id = ?1", [session_id], |row| row.get(0))
}

// ---- approval_requests ----
/// Inserts a row into `approval_requests` with `Connection::execute` and reads the id
/// that SQLite assigned with `Connection::last_insert_rowid`. On success
/// the row is stored under that fresh id; a failed statement changes nothing.
#[verifier::external_body]
pub(crate) fn insert_approval(db: &mut Database, r: &ApprovalRow) -> (res: core::result::Result<i64, rusqlite::Error>)
    ensures
        foreign_keys_on(final(db).conn) == foreign_keys_on(old(db).conn),
        res matches Ok(id) ==> row_inserted(old(db).rows(), final(db).rows(),
            (Table::Approvals, id), StoredRow::Approval(ApprovalRow { id, ..*r })),
        res is Err ==> final(db).rows() == old(db).rows(),
{
    db.conn.execute("INSERT INTO approval_requests (session_id, request_type, details, expires_at, resolved, resolved_by_device_id, resolution, timed_out, created_at) VALUES (?1, ?2, ?3, ?4, ?5, ?6, ?7, ?8, ?9)",
        (r.session_id, &r.request_type, &r.details, &r.expires_at, r.resolved, r.resolved_by_device_id, &r.resolution, r.timed_out, &r.created_at,))?;
    Ok(db.conn.last_insert_rowid())
}

/// Reads the row of `approval_requests` with id `id` with `Connection::query_row`;
/// `None` when no row has that id.
#[verifier::external_body]
pub(crate) fn select_approval(db: &Database, id: i64) -> (res: core::result::Result<Option<ApprovalRow>, rusqlite::Error>)
    ensures
        res matches Ok(Some(r)) ==> db.rows().contains_key((Table::Approvals, id))
            && db.rows()[(Table::Approvals, id)] == StoredRow::Approval(r) && r.id == id,
        res matches Ok(None) ==> !db.rows().contains_key((Table::Approvals, id)),
{
    let found = db.conn.query_row("SELECT id, session_id, request_type, details, expires_at, resolved, resolved_by_device_id, resolution, timed_out, created_at FROM approval_requests WHERE id = ?1", [id],
        |row| Ok(ApprovalRow { id: row.get("id")?, session_id: row.get("session_id")?, request_type: row.get("request_type")?, details: row.get("details")?, expires_at: row.get("expires_at")?, resolved: row.get("resolved")?, resolved_by_device_id: row.get("resolved_by_device_id")?, resolution: row.get("resolution")?, timed_out: row.get("timed_out")?, created_at: row.get("created_at")? }));
    match found {
        Ok(r) => Ok(Some(r)),
        Err(rusqlite::Error::QueryReturnedNoRows) => Ok(None),
        Err(e) => Err(e),
    }
}

/// Reads every row of `approval_requests` with `Connection::prepare` and
/// `Statement::query_map`, in the order SQLite returns them.
#[verifier::external_body]
pub(crate) fn select_all_approvals(db: &Database) -> (res: core::result::Result<Vec<ApprovalRow>, rusqlite::Error>)
    ensures
        res matches Ok(v) ==> lists_table(db.rows(), Table::Approvals,
            v@.map_values(|r: ApprovalRow| (r.id, StoredRow::Approval(r)))),
{
    let mut stmt = db.conn.prepare("SELECT id, session_id, request_type, details, expires_at, resolved, resolved_by_device_id, resolution, timed_out, created_at FROM approval_requests")?;
    let rows = stmt.query_map([], |row| Ok(ApprovalRow { id: row.get("id")?, session_id: row.get("session_id")?, request_type: row.get("request_type")?, details: row.get("details")?, expires_at: row.get("expires_at")?, resolved: row.get("resolved")?, resolved_by_device_id: row.get("resolved_by_device_id")?, resolution: row.get("resolution")?, timed_out: row.get("timed_out")?, created_at: row.get("created_at")? }))?;
    rows.collect()
}

/// Reads the unresolved rows of `approval_requests` of `session_id` with
/// `Connection::prepare` and `Statement::query_map`, in the order SQLite
/// returns them.
#[verifier::external_body]
pub(crate) fn select_open_approvals(db: &Database, session_id: i64) -> (res: core::result::Result<Vec<ApprovalRow>, rusqlite::Error>)
    ensures
        res matches Ok(v) ==> lists_open_rows(db.rows(), session_id, v@),
{
    let mut stmt = db.conn.prepare("SELECT id, session_id, request_type, details, expires_at, resolved, resolved_by_device_id, resolution, timed_out, created_at FROM approval_requests WHERE session_id = ?1 AND resolved = 0")?;
    let rows = stmt.query_map([session_id], |row| Ok(ApprovalRow { id: row.get("id")?, session_id: row.get("session_id")?, request_type: row.get("request_type")?, details: row.get("details")?, expires_at: row.get("expires_at")?, resolved: row.get("resolved")?, resolved_by_device_id: row.get("resolved_by_device_id")?, resolution: row.get("resolution")?, timed_out: row.get("timed_out")?, created_at: row.get("created_at")? }))?;
    rows.collect()
}

/// Rewrites every column of the row of `approval_requests` with id `r.id` with
/// `Connection::execute`, which returns how many rows changed; a failed
/// statement changes nothing.
#[verifier::external_body]
pub(crate) fn update_approval(db: &mut Database, r: &ApprovalRow) -> (res: core::result::Result<usize, rusqlite::Error>)
    ensures
        foreign_keys_on(final(db).conn) == foreign_keys_on(old(db).conn),
        res matches Ok(n) ==> row_updated(old(db).rows(), final(db).rows(),
            (Table::Approvals, r.id), StoredRow::Approval(*r), n),
        res is Err ==> final(db).rows() == old(db).rows(),
{
    db.conn.execute("UPDATE approval_requests SET session_id = ?2, request_type = ?3, details = ?4, expires_at = ?5, resolved = ?6, resolved_by_device_id = ?7, resolution = ?8, timed_out = ?9, created_at = ?10 WHERE id = ?1",
        (r.id, r.session_id, &r.request_type, &r.details, &r.expires_at, r.resolved, r.resolved_by_device_id, &r.resolution, r.timed_out, &r.created_at))
}

// ---- session_client_connections ----
/// Inserts a row into `session_client_connections` with `Connection::execute` and reads the id
/// that SQLite assigned with `Connection::last_insert_rowid`. On success
/// the row is stored under that fresh id; a failed statement changes nothing.
#[verifier::external_body]
pub(crate) fn insert_connection(db: &mut Database, r: &SessionClientConnection) -> (res: core::result::Result<i64, rusqlite::Error>)
    ensures
        foreign_keys_on(final(db).conn) == foreign_keys_on(old(db).conn),
        res matches Ok(id) ==> row_inserted(old(db).rows(), final(db).rows(),
            (Table::Connections, id), StoredRow::Connection(SessionClientConnection { id, ..*r })),
        res is Err ==> final(db).rows() == old(db).rows(),
{
    db.conn.execute("INSERT INTO session_client_connections (session_id, device_id, connected_at, disconnected_at) VALUES (?1, ?2, ?3, ?4)",
        (r.session_id, r.device_id, &r.connected_at, &r.disconnected_at,))?;
    Ok(db.conn.last_insert_rowid())
}

/// Reads the row of `session_client_connections` with id `id` with `Connection::query_row`;
/// `None` when no row has that id.
#[verifier::external_body]
pub(crate) fn select_connection(db: &Database, id: i64) -> (res: core::result::Result<Option<SessionClientConnection>, rusqlite::Error>)
    ensures
        res matches Ok(Some(r)) ==> db.rows().contains_key((Table::Connections, id))
            && db.rows()[(Table::Connections, id)] == StoredRow::Connection(r) && r.id == id,
        res matches Ok(None) ==> !db.rows().contains_key((Table::Connections, id)),
{
    let found = db.conn.query_row("SELECT id, session_id, device_id, connected_at, disconnected_at FROM session_client_connections WHERE id = ?1", [id],
        |row| Ok(SessionClientConnection { id: row.get("id")?, session_id: row.get("session_id")?, device_id: row.get("device_id")?, connected_at: row.get("connected_at")?, disconnected_at: row.get("disconnected_at")? }));
    match found {
        Ok(r) => Ok(Some(r)),
        Err(rusqlite::Error::QueryReturnedNoRows) => Ok(None),
        Err(e) => Err(e),
    }
}

/// Reads every row of `session_client_connections` with `Connection::prepare` and
/// `Statement::query_map`, in the order SQLite returns them.
#[verifier::external_body]
pub(crate) fn select_all_connections(db: &Database) -> (res: core::result::Result<Vec<SessionClientConnection>, rusqlite::Error>)
    ensures
        res matches Ok(v) ==> lists_table(db.rows(), Table::Connections,
            v@.map_values(|r: SessionClientConnection| (r.id, StoredRow::Connection(r)))),
{
    let mut stmt = db.conn.prepare("SELECT id, session_id, device_id, connected_at, disconnected_at FROM session_client_connections")?;
    let rows = stmt.query_map([], |row| Ok(SessionClientConnection { id: row.get("id")?, session_id: row.get("session_id")?, device_id: row.get("device_id")?, connected_at: row.get("connected_at")?, disconnected_at: row.get("disconnected_at")? }))?;
    rows.collect()
}

/// Rewrites every column of the row of `session_client_connections` with id `r.id` with
/// `Connection::execute`, which returns how many rows changed; a failed
/// statement changes nothing.
#[verifier::external_body]
pub(crate) fn update_connection(db: &mut Database, r: &SessionClientConnection) -> (res: core::result::Result<usize, rusqlite::Error>)
    ensures
        foreign_keys_on(final(db).conn) == foreign_keys_on(old(db).conn),
        res matches Ok(n) ==> row_updated(old(db).rows(), final(db).rows(),
            (Table::Connections, r.id), StoredRow::Connection(*r), n),
        res is Err ==> final(db).rows() == old(db).rows(),
{
    db.conn.execute("UPDATE session_client_connections SET session_id = ?2, device_id = ?3, connected_at = ?4, disconnected_at = ?5 WHERE id = ?1",
        (r.id, r.session_id, r.device_id, &r.connected_at, &r.disconnected_at))
}


} // verus!
