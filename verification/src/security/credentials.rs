//! Provider credential storage.
//!
//! Credentials are keyed by model provider id. They are never persisted in
//! SQLite and never sent over the client protocol: callers only ever pass
//! them straight to the provider client.

use vstd::prelude::*;
use std::collections::HashMap;
use crate::error::{IdeError, Result};
use crate::text::{concat2, spec_starts_with, i64_to_text, spec_decimal, lemma_decimal_injective};

verus! {

broadcast use vstd::std_specs::hash::group_hash_axioms;

/// Keychain service name under which every provider secret is stored.
pub const SERVICE_NAME: &'static str = "t-ide";

/// The keychain account of a provider's credential.
pub open spec fn spec_account(provider_id: i64) -> Seq<char> {
    "model-provider-"@ + spec_decimal(provider_id as int)
}

/// Keychain account name for a provider's API credential.
pub fn account_for(provider_id: i64) -> (r: String)
    ensures
        r@ == spec_account(provider_id),
{
    let t = i64_to_text(provider_id);
    concat2("model-provider-", t.as_str())
}

/// Accounts are scoped per provider: two providers never share one.
pub proof fn lemma_accounts_are_scoped_per_provider(a: i64, b: i64)
    requires
        a != b,
    ensures
        spec_account(a) != spec_account(b),
{
    let p = "model-provider-"@;
    if spec_account(a) == spec_account(b) {
        assert(spec_account(a).skip(p.len() as int) =~= spec_decimal(a as int));
        assert(spec_account(b).skip(p.len() as int) =~= spec_decimal(b as int));
        lemma_decimal_injective(a as int, b as int);
    }
}

/// The message of the error for an empty credential.
pub open spec fn empty_credential() -> Seq<char> {
    "credential must not be empty"@
}

/// Storage backend for provider credentials.
pub trait CredentialStore {
    /// Store (or replace) the secret for a provider. An empty secret is
    /// refused.
    fn set(&mut self, provider_id: i64, secret: &str) -> (r: Result<()>)
        ensures
            secret@.len() == 0 ==> r is Err && r->Err_0 is Validation
                && r->Err_0->Validation_0@ == empty_credential(),
    ;

    /// Fetch the secret for a provider, if one is stored.
    fn get(&self, provider_id: i64) -> (r: Result<Option<String>>);

    /// Remove the secret for a provider. Missing secrets are not an error.
    fn delete(&mut self, provider_id: i64) -> (r: Result<()>);
}

/// The secrets a store holds after `set(provider_id, secret)`: an empty
/// secret changes nothing.
pub open spec fn after_set(stored: Map<i64, Seq<char>>, provider_id: i64, secret: Seq<char>) -> Map<i64, Seq<char>> {
    if secret.len() == 0 {
        stored
    } else {
        stored.insert(provider_id, secret)
    }
}

/// The secrets a store holds after `delete(provider_id)`.
pub open spec fn after_delete(stored: Map<i64, Seq<char>>, provider_id: i64) -> Map<i64, Seq<char>> {
    stored.remove(provider_id)
}

/// What `get(provider_id)` reads from the stored secrets.
pub open spec fn lookup(stored: Map<i64, Seq<char>>, provider_id: i64) -> Option<Seq<char>> {
    if stored.contains_key(provider_id) {
        Some(stored[provider_id])
    } else {
        None
    }
}

/// A read gives back the last secret stored for that provider, nothing once
/// it was deleted, and neither touches the secrets of other providers.
pub proof fn lemma_read_after_write(stored: Map<i64, Seq<char>>, provider_id: i64, other: i64, secret: Seq<char>)
    requires
        secret.len() > 0,
        other != provider_id,
    ensures
        lookup(after_set(stored, provider_id, secret), provider_id) == Some(secret),
        lookup(after_delete(stored, provider_id), provider_id) is None,
        lookup(after_delete(after_delete(stored, provider_id), provider_id), provider_id) is None,
        lookup(after_set(stored, provider_id, secret), other) == lookup(stored, other),
        lookup(after_delete(stored, provider_id), other) == lookup(stored, other),
{
}

/// In-memory store used by tests and on platforms without a keychain.
///
/// Secrets are held only for the lifetime of the process.
#[derive(Debug)]
pub struct InMemoryCredentialStore {
    secrets: HashMap<i64, String>,
}

impl View for InMemoryCredentialStore {
    type V = Map<i64, Seq<char>>;

    /// The stored secrets by provider id.
    closed spec fn view(&self) -> Map<i64, Seq<char>> {
        self.secrets@.map_values(|s: String| s@)
    }
}

impl InMemoryCredentialStore {
    /// An empty store.
    pub fn new() -> (r: InMemoryCredentialStore)
        ensures
            r@ == Map::<i64, Seq<char>>::empty(),
    {
        let r = InMemoryCredentialStore { secrets: HashMap::new() };
        assert(r@ =~= Map::<i64, Seq<char>>::empty());
        r
    }
}

impl CredentialStore for InMemoryCredentialStore {
    fn set(&mut self, provider_id: i64, secret: &str) -> (r: Result<()>)
        ensures
            final(self)@ == after_set(old(self)@, provider_id, secret@),
            secret@.len() > 0 <==> r is Ok,
    {
        if secret.unicode_len() == 0 {
            proof { reveal_strlit("credential must not be empty"); }
            return Err(IdeError::Validation("credential must not be empty".to_string()));
        }
        let ghost before = self.secrets@;
        self.secrets.insert(provider_id, secret.to_string());
        proof {
            assert(self.secrets@ == before.insert(provider_id, self.secrets@[provider_id]));
            assert(self@ =~= before.map_values(|s: String| s@).insert(provider_id, secret@));
        }
        Ok(())
    }

    fn get(&self, provider_id: i64) -> (r: Result<Option<String>>)
        ensures
            r is Ok,
            lookup(self@, provider_id) is None ==> r->Ok_0 is None,
            lookup(self@, provider_id) matches Some(s) ==> r->Ok_0 is Some && r->Ok_0->0@ == s,
    {
        match self.secrets.get(&provider_id) {
            Some(s) => {
                let c = s.clone();
                Ok(Some(c))
            },
            None => Ok(None),
        }
    }

    fn delete(&mut self, provider_id: i64) -> (r: Result<()>)
        ensures
            r is Ok,
            final(self)@ == after_delete(old(self)@, provider_id),
    {
        let ghost before = self.secrets@;
        self.secrets.remove(&provider_id);
        proof {
            assert(self@ =~= before.map_values(|s: String| s@).remove(provider_id));
        }
        Ok(())
    }
}

/// The keychain entry of a credential, with the service and the account it
/// was made for.
pub struct KeychainEntry {
    pub service: String,
    pub account: String,
    pub entry: keyring::Entry,
}

/// How the platform store refused a request: it had no credential for the
/// entry, or it failed otherwise.
pub enum KeychainFailure {
    NoEntry,
    Other(keyring::Error),
}

/// Makes the credential store entry of `service` and `account` with
/// `keyring::Entry::new`, and keeps both names with it. Whether the
/// platform store hands one out is up to the machine.
#[verifier::external_body]
fn keyring_entry(service: &str, account: &str) -> (r: core::result::Result<KeychainEntry, keyring::Error>)
    ensures
        r matches Ok(e) ==> e.service@ == service@ && e.account@ == account@,
{
    let entry = keyring::Entry::new(service, account)?;
    Ok(KeychainEntry { service: service.to_string(), account: account.to_string(), entry })
}

/// Stores a password. Calls `keyring::Entry::set_password`; the outcome is
/// up to the platform store.
#[verifier::external_body]
fn keyring_set(entry: &KeychainEntry, password: &str) -> (r: core::result::Result<(), keyring::Error>) {
    entry.entry.set_password(password)
}

/// Reads a password with `keyring::Entry::get_password`, telling
/// `keyring::Error::NoEntry` apart from the other failures. What comes back
/// is whatever the platform store holds.
#[verifier::external_body]
fn keyring_get(entry: &KeychainEntry) -> (r: core::result::Result<String, KeychainFailure>) {
    match entry.entry.get_password() {
        Ok(secret) => Ok(secret),
        Err(keyring::Error::NoEntry) => Err(KeychainFailure::NoEntry),
        Err(e) => Err(KeychainFailure::Other(e)),
    }
}

/// Deletes a credential with `keyring::Entry::delete_credential`, telling
/// `keyring::Error::NoEntry` apart from the other failures. The outcome is
/// up to the platform store.
#[verifier::external_body]
fn keyring_delete(entry: &KeychainEntry) -> (r: core::result::Result<(), KeychainFailure>) {
    match entry.entry.delete_credential() {
        Ok(()) => Ok(()),
        Err(keyring::Error::NoEntry) => Err(KeychainFailure::NoEntry),
        Err(e) => Err(KeychainFailure::Other(e)),
    }
}

/// The text of a credential store failure, as its `Display` writes it.
#[verifier::external_body]
fn keyring_error_text(e: &keyring::Error) -> (t: String) {
    format!("{e}")
}

/// Whether `e` is a validation error whose message starts with `prefix`,
/// the rest being the credential store's own description of its failure.
pub open spec fn fails_with(e: IdeError, prefix: Seq<char>) -> bool {
    e is Validation && spec_starts_with(e->Validation_0@, prefix)
}

/// The validation error `prefix` followed by the store's description of
/// `err`.
fn store_failure(prefix: &str, err: &keyring::Error) -> (e: IdeError)
    ensures
        fails_with(e, prefix@),
{
    let t = keyring_error_text(err);
    let m = concat2(prefix, t.as_str());
    proof { assert(m@.subrange(0, prefix@.len() as int) =~= prefix@); }
    IdeError::Validation(m)
}

/// OS keychain backed store (Keychain, Credential Manager, Secret Service).
#[derive(Debug)]
pub struct KeyringCredentialStore;

impl KeyringCredentialStore {
    pub fn new() -> (r: KeyringCredentialStore) {
        KeyringCredentialStore
    }

    /// The keychain entry of a provider's credential, under the service
    /// name and the provider's account. Whether the platform store hands one
    /// out is up to the machine; when it does not, the error says the
    /// keychain is unavailable.
    pub fn entry(provider_id: i64) -> (r: Result<KeychainEntry>)
        ensures
            r matches Ok(e) ==> e.service@ == SERVICE_NAME@ && e.account@ == spec_account(provider_id),
            r matches Err(e) ==> fails_with(e, "keychain unavailable: "@),
    {
        let account = account_for(provider_id);
        match keyring_entry(SERVICE_NAME, account.as_str()) {
            Ok(entry) => Ok(entry),
            Err(err) => Err(store_failure("keychain unavailable: ", &err)),
        }
    }
}

impl CredentialStore for KeyringCredentialStore {
    fn set(&mut self, provider_id: i64, secret: &str) -> (r: Result<()>)
        ensures
            r matches Err(e) ==> (secret@.len() == 0 && e->Validation_0@ == empty_credential())
                || fails_with(e, "keychain unavailable: "@)
                || fails_with(e, "failed to store credential: "@),
            r matches Err(e) ==> e is Validation,
    {
        if secret.unicode_len() == 0 {
            proof { reveal_strlit("credential must not be empty"); }
            return Err(IdeError::Validation("credential must not be empty".to_string()));
        }
        let entry = match Self::entry(provider_id) {
            Ok(e) => e,
            Err(e) => return Err(e),
        };
        match keyring_set(&entry, secret) {
            Ok(()) => Ok(()),
            Err(err) => Err(store_failure("failed to store credential: ", &err)),
        }
    }

    /// A credential the store has no entry for reads as `None`.
    fn get(&self, provider_id: i64) -> (r: Result<Option<String>>)
        ensures
            r matches Err(e) ==> fails_with(e, "keychain unavailable: "@)
                || fails_with(e, "failed to read credential: "@),
    {
        let entry = match Self::entry(provider_id) {
            Ok(e) => e,
            Err(e) => return Err(e),
        };
        match keyring_get(&entry) {
            Ok(secret) => Ok(Some(secret)),
            Err(KeychainFailure::NoEntry) => Ok(None),
            Err(KeychainFailure::Other(err)) => Err(store_failure("failed to read credential: ", &err)),
        }
    }

    /// Deleting a credential the store has no entry for succeeds.
    fn delete(&mut self, provider_id: i64) -> (r: Result<()>)
        ensures
            r matches Err(e) ==> fails_with(e, "keychain unavailable: "@)
                || fails_with(e, "failed to delete credential: "@),
    {
        let entry = match Self::entry(provider_id) {
            Ok(e) => e,
            Err(e) => return Err(e),
        };
        match keyring_delete(&entry) {
            Ok(()) => Ok(()),
            Err(KeychainFailure::NoEntry) => Ok(()),
            Err(KeychainFailure::Other(err)) => Err(store_failure("failed to delete credential: ", &err)),
        }
    }
}

} // verus!
