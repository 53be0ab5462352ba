//! Application configuration: where the data lives, the server port, and the
//! approval window.

use vstd::prelude::*;
use crate::paths::{join, spec_join};
use crate::agent::approval::duration_nanos;

verus! {

/// Default window, in seconds, before an unanswered approval request is
/// treated as a denial.
pub const DEFAULT_APPROVAL_TIMEOUT_SECS: u64 = 300;

/// Default port for the local HTTP/WSS server.
pub const DEFAULT_PORT: u16 = 8787;

#[derive(Debug, Clone)]
pub struct AppConfig {
    /// Directory holding the database, config file, and TLS material.
    pub data_dir: String,
    /// Port the local HTTP/WSS server binds to.
    pub port: u16,
    /// Seconds before an unanswered approval request is auto-denied.
    pub approval_timeout_secs: u64,
}

/// Calls `Duration::from_secs`, whose duration is `secs` whole seconds.
#[verifier::external_body]
fn duration_from_secs(secs: u64) -> (d: core::time::Duration)
    ensures
        duration_nanos(d) == secs as int * 1_000_000_000,
{
    core::time::Duration::from_secs(secs)
}

impl AppConfig {
    /// The default configuration for `data_dir`. Creating the directory is
    /// left to the caller.
    pub fn with_data_dir(data_dir: &str) -> (r: AppConfig)
        ensures
            r.data_dir@ == data_dir@,
            r.port == DEFAULT_PORT,
            r.approval_timeout_secs == DEFAULT_APPROVAL_TIMEOUT_SECS,
    {
        AppConfig {
            data_dir: data_dir.to_string(),
            port: DEFAULT_PORT,
            approval_timeout_secs: DEFAULT_APPROVAL_TIMEOUT_SECS,
        }
    }

    /// Path of the SQLite database file.
    pub fn database_path(&self) -> (r: String)
        ensures
            r@ == spec_join(self.data_dir@, "t-ide.db"@),
    {
        join(self.data_dir.as_str(), "t-ide.db")
    }

    /// How long an approval request waits for an answer.
    pub fn approval_timeout(&self) -> (d: core::time::Duration)
        ensures
            duration_nanos(d) == self.approval_timeout_secs as int * 1_000_000_000,
    {
        duration_from_secs(self.approval_timeout_secs)
    }
}

/// Path of the configuration file inside `data_dir`.
pub fn config_path(data_dir: &str) -> (r: String)
    ensures
        r@ == spec_join(data_dir@, "config.json"@),
{
    join(data_dir, "config.json")
}

} // verus!
