//! Outside types that values of this library carry.

use vstd::prelude::*;

verus! {

/// Declares `rusqlite::Error` so that database failures can be carried.
#[verifier::external_type_specification]
#[verifier::external_body]
pub struct ExSqlError(rusqlite::Error);

/// Declares `serde_json::Error` so that serialization failures can be carried.
#[verifier::external_type_specification]
#[verifier::external_body]
pub struct ExJsonError(serde_json::Error);

/// Declares `std::io::Error` so that file system failures can be carried.
#[verifier::external_type_specification]
#[verifier::external_body]
pub struct ExIoError(std::io::Error);

/// Declares `rusqlite::Connection`, the handle of the SQLite database that
/// holds every stored row.
#[verifier::external_type_specification]
#[verifier::external_body]
pub struct ExSqlConnection(rusqlite::Connection);

/// Declares the error of the operating system's random number source
/// (`getrandom::Error`, which `rand` re-exports as `SysError`).
#[verifier::external_type_specification]
#[verifier::external_body]
pub struct ExSysRandomError(rand::rngs::SysError);


/// Declares `keyring::Entry`, a named entry in the operating system's
/// credential store.
#[verifier::external_type_specification]
#[verifier::external_body]
pub struct ExKeyringEntry(keyring::Entry);

/// Declares `keyring::Error`, a failure of the credential store.
#[verifier::external_type_specification]
#[verifier::external_body]
pub struct ExKeyringError(keyring::Error);

} // verus!
