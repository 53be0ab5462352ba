//! The database schema and the migrations that build it.

use vstd::prelude::*;

verus! {

/// Bookkeeping table recording which migrations have run.
pub const MIGRATIONS_TABLE_SQL: &'static str = "CREATE TABLE IF NOT EXISTS schema_migrations (
    name TEXT PRIMARY KEY,
    applied_at TEXT NOT NULL
);";

/// Name under which the initial schema is recorded.
pub const INITIAL_MIGRATION_NAME: &'static str = "0001_initial";

/// Name under which the approval timeout column is recorded.
pub const TIMEOUT_MIGRATION_NAME: &'static str = "0002_approval_timeout";

/// Marks approval requests denied because their window passed; every
/// request stored before it reads as not timed out.
pub const TIMEOUT_MIGRATION_SQL: &'static str = "ALTER TABLE approval_requests ADD COLUMN timed_out BOOLEAN NOT NULL DEFAULT 0;";

/// Every entity of the data model, with its indexes and foreign keys.
pub const INITIAL_MIGRATION_SQL: &'static str = "
CREATE TABLE IF NOT EXISTS projects (
    id INTEGER PRIMARY KEY AUTOINCREMENT,
    name TEXT NOT NULL,
    path TEXT NOT NULL UNIQUE,
    auto_approve_read_only BOOLEAN NOT NULL DEFAULT 0,
    available BOOLEAN NOT NULL DEFAULT 1,
    created_at TEXT NOT NULL,
    updated_at TEXT NOT NULL
);
CREATE INDEX IF NOT EXISTS idx_projects_path ON projects (path);

CREATE TABLE IF NOT EXISTS model_providers (
    id INTEGER PRIMARY KEY AUTOINCREMENT,
    name TEXT NOT NULL,
    kind TEXT NOT NULL,
    api_base_url TEXT NOT NULL,
    default_model TEXT NOT NULL,
    created_at TEXT NOT NULL,
    updated_at TEXT NOT NULL
);

CREATE TABLE IF NOT EXISTS paired_devices (
    id INTEGER PRIMARY KEY AUTOINCREMENT,
    device_name TEXT NOT NULL,
    auth_token TEXT NOT NULL UNIQUE,
    paired_at TEXT NOT NULL,
    last_seen_at TEXT,
    revoked BOOLEAN NOT NULL DEFAULT 0,
    revoked_at TEXT
);
CREATE INDEX IF NOT EXISTS idx_devices_auth_token ON paired_devices (auth_token);

CREATE TABLE IF NOT EXISTS agent_sessions (
    id INTEGER PRIMARY KEY AUTOINCREMENT,
    project_id INTEGER NOT NULL REFERENCES projects (id) ON DELETE RESTRICT,
    provider_id INTEGER NOT NULL REFERENCES model_providers (id) ON DELETE RESTRICT,
    status TEXT NOT NULL,
    prompt_text TEXT NOT NULL,
    origin_device_id INTEGER REFERENCES paired_devices (id) ON DELETE RESTRICT,
    created_at TEXT NOT NULL,
    updated_at TEXT NOT NULL,
    completed_at TEXT
);
CREATE INDEX IF NOT EXISTS idx_sessions_status ON agent_sessions (status);
CREATE INDEX IF NOT EXISTS idx_sessions_project_id ON agent_sessions (project_id);

CREATE TABLE IF NOT EXISTS transcript_entries (
    id INTEGER PRIMARY KEY AUTOINCREMENT,
    session_id INTEGER NOT NULL REFERENCES agent_sessions (id) ON DELETE CASCADE,
    order_index INTEGER NOT NULL,
    entry_type TEXT NOT NULL,
    origin_device_id INTEGER REFERENCES paired_devices (id) ON DELETE RESTRICT,
    content TEXT NOT NULL,
    created_at TEXT NOT NULL
);
CREATE INDEX IF NOT EXISTS idx_transcript_session_order
    ON transcript_entries (session_id, order_index);

CREATE TABLE IF NOT EXISTS approval_requests (
    id INTEGER PRIMARY KEY AUTOINCREMENT,
    session_id INTEGER NOT NULL REFERENCES agent_sessions (id) ON DELETE CASCADE,
    request_type TEXT NOT NULL,
    details TEXT NOT NULL,
    expires_at TEXT NOT NULL,
    resolved BOOLEAN NOT NULL DEFAULT 0,
    resolved_by_device_id INTEGER REFERENCES paired_devices (id) ON DELETE RESTRICT,
    resolution TEXT,
    created_at TEXT NOT NULL
);
CREATE INDEX IF NOT EXISTS idx_approval_session ON approval_requests (session_id, resolved);
CREATE INDEX IF NOT EXISTS idx_approval_expires ON approval_requests (expires_at);

CREATE TABLE IF NOT EXISTS session_client_connections (
    id INTEGER PRIMARY KEY AUTOINCREMENT,
    session_id INTEGER NOT NULL REFERENCES agent_sessions (id) ON DELETE CASCADE,
    device_id INTEGER REFERENCES paired_devices (id) ON DELETE RESTRICT,
    connected_at TEXT NOT NULL,
    disconnected_at TEXT
);
CREATE INDEX IF NOT EXISTS idx_client_session
    ON session_client_connections (session_id, disconnected_at);
";

} // verus!
