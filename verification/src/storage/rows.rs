//! The model of what the database holds: every stored row, keyed by its
//! table and row id.

use vstd::prelude::*;
use crate::agent::approval::ApprovalRow;
use crate::agent::provider::ProviderRow;
use crate::agent::session::SessionRow;
use crate::storage::connections::SessionClientConnection;
use crate::storage::pairing::PairedDevice;
use crate::storage::projects::Project;
use crate::storage::transcripts::EntryRow;

verus! {

/// The tables of the schema.
#[derive(Debug, Clone, Copy, PartialEq, Eq, Structural)]
pub enum Table {
    Projects,
    Providers,
    Devices,
    Sessions,
    Entries,
    Approvals,
    Connections,
}

/// One stored row, as the columns hold it.
pub enum StoredRow {
    Project(Project),
    Provider(ProviderRow),
    Device(PairedDevice),
    Session(SessionRow),
    Entry(EntryRow),
    Approval(ApprovalRow),
    Connection(SessionClientConnection),
}

/// Every row that the database behind `conn` holds, keyed by table and id.
/// An approval request stored before its table had the `timed_out` column
/// reads as not timed out, the value that column defaults to.
pub uninterp spec fn stored_rows(conn: rusqlite::Connection) -> Map<(Table, i64), StoredRow>;

/// Whether SQLite enforces foreign keys on `conn`, and with them the
/// schema's `ON DELETE CASCADE` and `ON DELETE RESTRICT` keys: the
/// per-connection setting that `PRAGMA foreign_keys` turns on.
pub uninterp spec fn foreign_keys_on(conn: rusqlite::Connection) -> bool;

/// Whether the schema of the database behind `conn` holds a table called
/// `name`, as `sqlite_master` lists it.
pub uninterp spec fn table_in_schema(conn: rusqlite::Connection, name: Seq<char>) -> bool;

/// Whether the table `schema_migrations` of the database behind `conn`
/// records migration `name`.
pub uninterp spec fn migration_recorded(conn: rusqlite::Connection, name: Seq<char>) -> bool;

/// The tables of the data model.
pub open spec fn data_tables() -> Seq<Seq<char>> {
    seq![
        "projects"@,
        "model_providers"@,
        "paired_devices"@,
        "agent_sessions"@,
        "transcript_entries"@,
        "approval_requests"@,
        "session_client_connections"@,
    ]
}

/// Whether the schema behind `conn` holds every table of the data model.
pub open spec fn has_data_tables(conn: rusqlite::Connection) -> bool {
    forall|i: int| 0 <= i < data_tables().len() ==> table_in_schema(conn, #[trigger] data_tables()[i])
}

/// A database that holds no rows.
pub open spec fn no_rows() -> Map<(Table, i64), StoredRow> {
    Map::empty()
}

/// `listed` holds each row of table `t` exactly once, paired with its id.
pub open spec fn lists_table(
    rows: Map<(Table, i64), StoredRow>,
    t: Table,
    listed: Seq<(i64, StoredRow)>,
) -> bool {
    &&& forall|i: int|
        0 <= i < listed.len() ==> #[trigger] rows.contains_key((t, listed[i].0)) && rows[(
        t,
        listed[i].0,
    )] == listed[i].1
    &&& forall|id: i64| #[trigger]
        rows.contains_key((t, id)) ==> exists|i: int| 0 <= i < listed.len() && listed[i].0 == id
    &&& forall|i: int, j: int| 0 <= i < j < listed.len() ==> listed[i].0 != listed[j].0
}

/// `after` is `before` with a new row under a key that was free.
pub open spec fn row_inserted(
    before: Map<(Table, i64), StoredRow>,
    after: Map<(Table, i64), StoredRow>,
    key: (Table, i64),
    row: StoredRow,
) -> bool {
    !before.contains_key(key) && after == before.insert(key, row)
}

/// Whether `row` is a row of table `t`.
pub open spec fn row_in_table(row: StoredRow, t: Table) -> bool {
    match row {
        StoredRow::Project(_) => t == Table::Projects,
        StoredRow::Provider(_) => t == Table::Providers,
        StoredRow::Device(_) => t == Table::Devices,
        StoredRow::Session(_) => t == Table::Sessions,
        StoredRow::Entry(_) => t == Table::Entries,
        StoredRow::Approval(_) => t == Table::Approvals,
        StoredRow::Connection(_) => t == Table::Connections,
    }
}

/// The effect of an UPDATE of the row under `key` to `row`: `changed` is 1
/// and the row replaced when it exists, 0 and nothing changed otherwise.
pub open spec fn row_updated(
    before: Map<(Table, i64), StoredRow>,
    after: Map<(Table, i64), StoredRow>,
    key: (Table, i64),
    row: StoredRow,
    changed: usize,
) -> bool {
    if before.contains_key(key) {
        changed == 1 && after == before.insert(key, row) && row_in_table(before[key], key.0)
    } else {
        changed == 0 && after == before
    }
}

/// The effect of a DELETE of the row under `key`.
pub open spec fn row_deleted(
    before: Map<(Table, i64), StoredRow>,
    after: Map<(Table, i64), StoredRow>,
    key: (Table, i64),
    changed: usize,
) -> bool {
    if before.contains_key(key) {
        changed == 1 && after == before.remove(key) && row_in_table(before[key], key.0)
    } else {
        changed == 0 && after == before
    }
}

/// Whether a stored row belongs to session `id`: its transcript entries,
/// approval requests and client connections.
pub open spec fn belongs_to_session(row: StoredRow, id: i64) -> bool {
    match row {
        StoredRow::Entry(e) => e.session_id == id,
        StoredRow::Approval(a) => a.session_id == id,
        StoredRow::Connection(c) => c.session_id == id,
        _ => false,
    }
}

/// `rows` without session `id` and every row that belongs to it.
pub open spec fn without_session(rows: Map<(Table, i64), StoredRow>, id: i64) -> Map<(Table, i64), StoredRow> {
    rows.restrict(Set::new(|k: (Table, i64)| k != (Table::Sessions, id) && !belongs_to_session(rows[k], id)))
}

/// The effect of deleting session `id`, which takes the rows that belong to
/// it along.
pub open spec fn session_deleted(
    before: Map<(Table, i64), StoredRow>,
    after: Map<(Table, i64), StoredRow>,
    id: i64,
    changed: usize,
) -> bool {
    if before.contains_key((Table::Sessions, id)) {
        changed == 1 && after == without_session(before, id) && before[(Table::Sessions, id)] is Session
    } else {
        changed == 0 && after == before
    }
}

} // verus!
