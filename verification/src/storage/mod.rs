//! SQLite persistence layer.

pub mod connections;
pub mod pairing;
pub mod projects;
pub mod rows;
pub mod schema;
pub(crate) mod sql;
pub mod transcripts;

use vstd::prelude::*;
use crate::error::{IdeError, Result};
use crate::storage::rows::{StoredRow, Table, stored_rows, no_rows, foreign_keys_on, table_in_schema, migration_recorded,
    has_data_tables, data_tables};

verus! {

/// A migrated SQLite database handle shared across the backend. Its
/// connection always enforces foreign keys.
pub struct Database {
    pub(crate) conn: rusqlite::Connection,
}

impl Database {
    /// The connection enforces the schema's foreign keys.
    #[verifier::type_invariant]
    pub(crate) open spec fn enforces_foreign_keys(&self) -> bool {
        foreign_keys_on(self.conn)
    }

    /// Every row the database holds.
    pub closed spec fn rows(&self) -> Map<(Table, i64), StoredRow> {
        stored_rows(self.conn)
    }

    /// Open (creating if needed) and migrate the database file at `path`.
    /// The directory that holds it must exist.
    pub fn open(path: &str) -> (r: Result<Database>)
        ensures
            r matches Ok(db) ==> db.migrated(),
            r matches Err(e) ==> e is Database,
    {
        match sql::open_file(path) {
            Ok(conn) => Database::from_connection(conn),
            Err(e) => Err(IdeError::Database(e)),
        }
    }

    /// Open and migrate an in-memory database: every table of the data
    /// model is there, and no row.
    pub fn open_in_memory() -> (r: Result<Database>)
        ensures
            r matches Ok(db) ==> db.rows() == no_rows() && db.migrated() && db.holds_data_tables(),
            r matches Err(e) ==> e is Database,
    {
        match sql::open_memory() {
            Ok(conn) => Database::from_connection(conn),
            Err(e) => Err(IdeError::Database(e)),
        }
    }

    fn from_connection(conn: rusqlite::Connection) -> (r: Result<Database>)
        ensures
            r matches Ok(db) ==> db.rows() == stored_rows(conn) && db.migrated(),
            (forall|n: Seq<char>| !#[trigger] migration_recorded(conn, n)) ==> (r matches Ok(db) ==> db.holds_data_tables()),
            r matches Err(e) ==> e is Database,
    {
        let mut conn = conn;
        if let Err(e) = sql::enable_foreign_keys(&mut conn) {
            return Err(IdeError::Database(e));
        }
        let mut db = Database { conn };
        // Write-ahead logging is an optimisation; a database that refuses it
        // still works.
        let _ = sql::enable_write_ahead_log(&mut db);
        match db.migrate() {
            Ok(()) => Ok(db),
            Err(e) => Err(e),
        }
    }

    /// Whether the schema holds every table of the data model.
    pub closed spec fn holds_data_tables(&self) -> bool {
        has_data_tables(self.conn)
    }

    /// Whether the database records migration `name` as applied.
    pub closed spec fn records_migration(&self, name: Seq<char>) -> bool {
        migration_recorded(self.conn, name)
    }

    /// Whether every migration is recorded, with the table that records them.
    pub open spec fn migrated(&self) -> bool {
        &&& self.holds_table("schema_migrations"@)
        &&& self.records_migration(schema::INITIAL_MIGRATION_NAME@)
        &&& self.records_migration(schema::TIMEOUT_MIGRATION_NAME@)
    }

    /// Apply migration `name` unless it is recorded, then record it.
    fn apply_migration(&mut self, name: &str, script: &str) -> (r: Result<()>)
        requires
            script@ == schema::INITIAL_MIGRATION_SQL@ || script@ == schema::TIMEOUT_MIGRATION_SQL@,
        ensures
            final(self).rows() == old(self).rows(),
            forall|t: Seq<char>| old(self).holds_table(t) ==> #[trigger] final(self).holds_table(t),
            forall|n: Seq<char>| old(self).records_migration(n) ==> #[trigger] final(self).records_migration(n),
            r is Ok ==> final(self).records_migration(name@),
            r is Ok && !old(self).records_migration(name@) && script@ == schema::INITIAL_MIGRATION_SQL@
                ==> final(self).holds_data_tables(),
            r matches Err(e) ==> e is Database,
    {
        let applied = match sql::migration_applied(self, name) {
            Ok(b) => b,
            Err(e) => return Err(IdeError::Database(e)),
        };
        if applied {
            return Ok(());
        }
        if let Err(e) = sql::run_batch(self, script) {
            return Err(IdeError::Database(e));
        }
        let ghost ran = self.conn;
        let at = now();
        match sql::record_migration(self, name, &at) {
            Ok(_) => {
                proof {
                    if script@ == schema::INITIAL_MIGRATION_SQL@ {
                        assert(has_data_tables(ran));
                        assert forall|i: int| 0 <= i < data_tables().len() implies table_in_schema(self.conn, #[trigger] data_tables()[i]) by {
                            assert(table_in_schema(ran, data_tables()[i]));
                        }
                    }
                }
                Ok(())
            },
            Err(e) => Err(IdeError::Database(e)),
        }
    }

    /// Apply every migration that has not been recorded yet, in order, and
    /// record it. Migrations create the tables and indexes of the schema and
    /// leave every stored row as it was; only a database failure stops them.
    pub fn migrate(&mut self) -> (r: Result<()>)
        ensures
            final(self).rows() == old(self).rows(),
            forall|t: Seq<char>| old(self).holds_table(t) ==> #[trigger] final(self).holds_table(t),
            r is Ok ==> final(self).migrated(),
            r is Ok && !old(self).records_migration(schema::INITIAL_MIGRATION_NAME@) ==> final(self).holds_data_tables(),
            r matches Err(e) ==> e is Database,
    {
        if let Err(e) = sql::run_batch(self, schema::MIGRATIONS_TABLE_SQL) {
            return Err(IdeError::Database(e));
        }
        let ghost start = *self;
        if let Err(e) = self.apply_migration(schema::INITIAL_MIGRATION_NAME, schema::INITIAL_MIGRATION_SQL) {
            return Err(e);
        }
        let ghost middle = *self;
        if let Err(e) = self.apply_migration(schema::TIMEOUT_MIGRATION_NAME, schema::TIMEOUT_MIGRATION_SQL) {
            return Err(e);
        }
        proof {
            assert(middle.holds_table("schema_migrations"@));
            if middle.holds_data_tables() {
                assert forall|i: int| 0 <= i < data_tables().len() implies table_in_schema(self.conn, #[trigger] data_tables()[i]) by {
                    assert(middle.holds_table(data_tables()[i]));
                    assert(self.holds_table(data_tables()[i]));
                }
            }
        }
        Ok(())
    }

    /// Whether the schema holds a table called `name`.
    pub closed spec fn holds_table(&self, name: Seq<char>) -> bool {
        table_in_schema(self.conn, name)
    }

    /// Whether the schema holds a table called `name`, as `sqlite_master`
    /// lists it.
    pub fn has_table(&self, name: &str) -> (r: Result<bool>)
        ensures
            r matches Ok(b) ==> b == self.holds_table(name@),
            r matches Err(e) ==> e is Database,
    {
        match sql::table_exists(self, name) {
            Ok(b) => Ok(b),
            Err(e) => Err(IdeError::Database(e)),
        }
    }
}

/// Current time as an RFC 3339 UTC string, the storage format of every
/// timestamp column. Calls `chrono::Utc::now` and formats it with
/// `DateTime::to_rfc3339`; nothing is promised of the text, which depends on
/// the clock.
#[verifier::external_body]
pub fn now() -> (s: String) {
    chrono::Utc::now().to_rfc3339()
}

} // verus!
