//! Model provider registry and the messages exchanged with providers.
//! Credentials are never stored here: they live in the credential store,
//! keyed by provider id.

use vstd::prelude::*;
use crate::error::{IdeError, Result};
use crate::storage::rows::{StoredRow, Table, row_inserted};
use crate::storage::{Database, now, sql};
use crate::text::{spec_trim, trim, spec_starts_with, starts_with, str_eq, i64_to_text, spec_decimal, concat2, concat3};
use crate::order::{Ordered, sort, sorted, text_le, text_in_order, lemma_reorder_keeps_keys};

verus! {

/// A provider row as its columns hold it.
#[derive(Debug, Clone, PartialEq, Eq)]
pub struct ProviderRow {
    pub id: i64,
    pub name: String,
    pub kind: String,
    pub api_base_url: String,
    pub default_model: String,
    pub created_at: String,
    pub updated_at: String,
}

/// The provider row stored under `id`, if any.
pub open spec fn stored_provider_row(rows: Map<(Table, i64), StoredRow>, id: i64) -> Option<ProviderRow> {
    if rows.contains_key((Table::Providers, id)) {
        match rows[(Table::Providers, id)] {
            StoredRow::Provider(p) => Some(p),
            _ => None,
        }
    } else {
        None
    }
}

#[derive(Debug, Clone, Copy, PartialEq, Eq, Structural)]
pub enum ProviderKind {
    /// Hosted, OpenAI-compatible API reached over the internet.
    External,
    /// Model served locally on the developer machine.
    Local,
}

/// Stored text of a provider kind.
pub open spec fn kind_text(k: ProviderKind) -> Seq<char> {
    match k {
        ProviderKind::External => "external"@,
        ProviderKind::Local => "local"@,
    }
}

/// The provider kind whose stored text is `t`, if any.
pub open spec fn kind_from_text(t: Seq<char>) -> Option<ProviderKind> {
    if t == "external"@ {
        Some(ProviderKind::External)
    } else if t == "local"@ {
        Some(ProviderKind::Local)
    } else {
        None
    }
}

impl ProviderKind {
    pub fn as_str(self) -> (s: &'static str)
        ensures
            s@ == kind_text(self),
    {
        match self {
            ProviderKind::External => "external",
            ProviderKind::Local => "local",
        }
    }

    pub fn parse(value: &str) -> (r: Result<ProviderKind>)
        ensures
            match kind_from_text(value@) {
                Some(k) => r == Ok::<ProviderKind, IdeError>(k),
                None => r is Err && r->Err_0 is Validation,
            },
    {
        if str_eq(value, "external") {
            Ok(ProviderKind::External)
        } else if str_eq(value, "local") {
            Ok(ProviderKind::Local)
        } else {
            Err(IdeError::Validation(concat2("unknown provider kind ", value)))
        }
    }
}

/// Reading back the stored text of a kind gives the kind.
pub proof fn lemma_kind_text_round_trip(k: ProviderKind)
    ensures
        kind_from_text(kind_text(k)) == Some(k),
{
    reveal_strlit("external");
    reveal_strlit("local");
    assert("external"@.len() == 8 && "local"@.len() == 5);
}

/// A configured AI model provider.
#[derive(Debug, Clone, PartialEq, Eq)]
pub struct ModelProvider {
    pub id: i64,
    pub name: String,
    pub kind: ProviderKind,
    pub api_base_url: String,
    pub default_model: String,
    pub created_at: String,
    pub updated_at: String,
}

/// The provider a stored row describes, when its kind is known.
pub open spec fn provider_of_row(r: ProviderRow) -> Option<ModelProvider> {
    match kind_from_text(r.kind@) {
        Some(kind) => Some(ModelProvider {
            id: r.id,
            name: r.name,
            kind,
            api_base_url: r.api_base_url,
            default_model: r.default_model,
            created_at: r.created_at,
            updated_at: r.updated_at,
        }),
        None => None,
    }
}

/// The provider stored under `id`, if any and readable.
pub open spec fn stored_provider(rows: Map<(Table, i64), StoredRow>, id: i64) -> Option<ModelProvider> {
    match stored_provider_row(rows, id) {
        Some(r) => provider_of_row(r),
        None => None,
    }
}

/// The not-found error for provider `id`.
pub open spec fn provider_not_found(id: i64) -> Seq<char> {
    "provider "@ + spec_decimal(id as int)
}

/// Whether `url` is an http(s) URL.
pub open spec fn is_http_url(url: Seq<char>) -> bool {
    spec_starts_with(url, "http://"@) || spec_starts_with(url, "https://"@)
}

/// Whether the inputs of a new provider pass validation.
pub open spec fn valid_provider(name: Seq<char>, kind: Seq<char>, url: Seq<char>, model: Seq<char>) -> bool {
    &&& spec_trim(name).len() > 0
    &&& kind_from_text(kind) is Some
    &&& is_http_url(url)
    &&& spec_trim(model).len() > 0
}

/// Whether every stored provider can be read: its kind is a known text.
pub open spec fn providers_readable(rows: Map<(Table, i64), StoredRow>) -> bool {
    forall|id: i64| #[trigger] stored_provider_row(rows, id) is Some ==> stored_provider(rows, id) is Some
}

/// A provider can only be registered with a name and a default model that
/// are not blank, a known kind and an http(s) base URL.
pub proof fn lemma_provider_needs_a_model(name: Seq<char>, kind: Seq<char>, url: Seq<char>, model: Seq<char>)
    requires
        valid_provider(name, kind, url, model),
    ensures
        spec_trim(model).len() > 0,
        spec_trim(name).len() > 0,
        kind == "external"@ || kind == "local"@,
        spec_starts_with(url, "http://"@) || spec_starts_with(url, "https://"@),
{
}

/// `listed` holds every stored provider exactly once.
pub open spec fn lists_providers(rows: Map<(Table, i64), StoredRow>, listed: Seq<ModelProvider>) -> bool {
    &&& forall|i: int| 0 <= i < listed.len() ==> stored_provider(rows, #[trigger] listed[i].id) == Some(listed[i])
    &&& forall|id: i64| #[trigger] stored_provider_row(rows, id) is Some ==> exists|i: int| 0 <= i < listed.len() && listed[i].id == id
    &&& forall|i: int, j: int| 0 <= i < j < listed.len() ==> #[trigger] listed[i].id != #[trigger] listed[j].id
}

/// Providers are listed by name.
impl Ordered for ModelProvider {
    open spec fn precedes(&self, other: &Self) -> bool {
        text_le(self.name@, other.name@)
    }

    proof fn lemma_total(a: &Self, b: &Self) {
        crate::order::lemma_text_le_total(a.name@, b.name@);
    }

    proof fn lemma_transitive(a: &Self, b: &Self, c: &Self) {
        crate::order::lemma_text_le_transitive(a.name@, b.name@, c.name@);
    }

    fn in_order(&self, other: &Self) -> (r: bool) {
        text_in_order(self.name.as_str(), other.name.as_str())
    }
}

impl ModelProvider {
    /// The provider a stored row describes; a row with an unknown kind is
    /// refused.
    pub fn from_row(row: ProviderRow) -> (r: Result<ModelProvider>)
        ensures
            provider_of_row(row) matches Some(p) ==> r == Ok::<ModelProvider, IdeError>(p),
            provider_of_row(row) is None ==> r is Err && r->Err_0 is Validation,
    {
        let kind = match ProviderKind::parse(row.kind.as_str()) {
            Ok(k) => k,
            Err(e) => return Err(e),
        };
        Ok(ModelProvider {
            id: row.id,
            name: row.name,
            kind,
            api_base_url: row.api_base_url,
            default_model: row.default_model,
            created_at: row.created_at,
            updated_at: row.updated_at,
        })
    }
}

/// Reads the provider stored under `id`.
pub fn read_provider(db: &Database, id: i64) -> (r: Result<ModelProvider>)
    ensures
        r matches Ok(p) ==> stored_provider(db.rows(), id) == Some(p) && p.id == id,
        r matches Err(e) ==> (e is NotFound && stored_provider_row(db.rows(), id) is None
            && e->NotFound_0@ == provider_not_found(id)) || e is Database || e is Validation,
        stored_provider(db.rows(), id) is None ==> r is Err,
        stored_provider(db.rows(), id) is Some ==> r is Ok || r->Err_0 is Database,
        r matches Err(e) && e is Validation ==> stored_provider_row(db.rows(), id) is Some,
{
    match sql::select_provider(db, id) {
        Ok(Some(row)) => ModelProvider::from_row(row),
        Ok(None) => {
            let t = i64_to_text(id);
            proof { reveal_strlit("provider "); }
            Err(IdeError::NotFound(concat2("provider ", t.as_str())))
        },
        Err(e) => Err(IdeError::Database(e)),
    }
}

pub struct ModelProviderRepository<'a> {
    pub db: &'a mut Database,
}

impl<'a> ModelProviderRepository<'a> {
    pub fn new(db: &'a mut Database) -> (r: Self)
        ensures
            *r.db == *old(db),
            *final(db) == *final(r.db),
    {
        ModelProviderRepository { db }
    }

    /// Register a provider: a non-blank name, a known kind, an http(s) base
    /// URL and a non-blank default model.
    pub fn create(&mut self, name: &str, kind: &str, api_base_url: &str, default_model: &str) -> (r: Result<ModelProvider>)
        ensures
            *final(final(self).db) == *final(old(self).db),
            !valid_provider(name@, kind@, api_base_url@, default_model@) ==> r is Err && r->Err_0 is Validation,
            spec_trim(default_model@).len() == 0 ==> r is Err && r->Err_0 is Validation,
            spec_trim(name@).len() == 0 ==> r is Err && r->Err_0 is Validation,
            kind_from_text(kind@) is None ==> r is Err && r->Err_0 is Validation,
            !is_http_url(api_base_url@) ==> r is Err && r->Err_0 is Validation,
            r matches Ok(p) ==> spec_trim(p.default_model@).len() > 0 && spec_trim(name@).len() > 0,
            r matches Ok(p) ==> {
                &&& valid_provider(name@, kind@, api_base_url@, default_model@)
                &&& p.name@ == spec_trim(name@)
                &&& kind_from_text(kind@) == Some(p.kind)
                &&& p.api_base_url@ == api_base_url@
                &&& p.default_model@ == default_model@
                &&& p.created_at@ == p.updated_at@
                &&& stored_provider(final(self).db.rows(), p.id) == Some(p)
                &&& exists|row: ProviderRow| row_inserted(old(self).db.rows(), final(self).db.rows(), (Table::Providers, p.id), StoredRow::Provider(row))
            },
            r matches Err(e) ==> final(self).db.rows() == old(self).db.rows() && (e is Validation || e is Database),
            r matches Err(e) && e is Validation ==> !valid_provider(name@, kind@, api_base_url@, default_model@),
            valid_provider(name@, kind@, api_base_url@, default_model@) ==> r is Ok || r->Err_0 is Database,
    {
        let trimmed = trim(name);
        if trimmed.unicode_len() == 0 {
            return Err(IdeError::Validation("provider name must not be empty".to_string()));
        }
        let parsed = match ProviderKind::parse(kind) {
            Ok(k) => k,
            Err(e) => return Err(e),
        };
        proof {
            reveal_strlit("http://");
            reveal_strlit("https://");
        }
        if !(starts_with(api_base_url, "http://") || starts_with(api_base_url, "https://")) {
            return Err(IdeError::Validation(concat3("provider api_base_url ", api_base_url, " must be an http(s) URL")));
        }
        let model_trimmed = trim(default_model);
        if model_trimmed.unicode_len() == 0 {
            return Err(IdeError::Validation("default model must not be empty".to_string()));
        }
        let timestamp = now();
        let row = ProviderRow {
            id: 0,
            name: trimmed,
            kind: parsed.as_str().to_string(),
            api_base_url: api_base_url.to_string(),
            default_model: default_model.to_string(),
            created_at: timestamp.clone(),
            updated_at: timestamp,
        };
        proof { lemma_kind_text_round_trip(parsed); }
        match sql::insert_provider(self.db, &row) {
            Ok(id) => {
                let stored = ProviderRow { id, ..row };
                assert(stored.kind@ == kind_text(parsed));
                assert(provider_of_row(stored) is Some);
                assert(row_inserted(old(self).db.rows(), self.db.rows(), (Table::Providers, id), StoredRow::Provider(stored)));
                ModelProvider::from_row(stored)
            },
            Err(e) => Err(IdeError::Database(e)),
        }
    }

    pub fn get(&self, id: i64) -> (r: Result<ModelProvider>)
        ensures
            r matches Ok(p) ==> stored_provider(old(self.db).rows(), id) == Some(p) && p.id == id,
            r matches Err(e) ==> (e is NotFound && stored_provider_row(old(self.db).rows(), id) is None
                && e->NotFound_0@ == provider_not_found(id)) || e is Database || e is Validation,
            stored_provider(old(self.db).rows(), id) is None ==> r is Err,
            stored_provider(old(self.db).rows(), id) is Some ==> r is Ok || r->Err_0 is Database,
    {
        read_provider(self.db, id)
    }

    /// Every provider, ordered by name.
    pub fn list(&self) -> (r: Result<Vec<ModelProvider>>)
        ensures
            r matches Ok(v) ==> lists_providers(old(self.db).rows(), v@) && sorted(v@),
            r matches Err(e) ==> e is Database || e is Validation,
            providers_readable(old(self.db).rows()) ==> r is Ok || r->Err_0 is Database,
    {
        let rows = match sql::select_all_providers(self.db) {
            Ok(v) => v,
            Err(e) => return Err(IdeError::Database(e)),
        };
        let ghost listed = rows@.map_values(|r: ProviderRow| (r.id, StoredRow::Provider(r)));
        let mut providers: Vec<ModelProvider> = Vec::new();
        let mut i: usize = 0;
        while i < rows.len()
            invariant
                i <= rows.len(),
                providers@.len() == i,
                crate::storage::rows::lists_table(self.db.rows(), Table::Providers, listed),
                listed == rows@.map_values(|r: ProviderRow| (r.id, StoredRow::Provider(r))),
                forall|k: int| 0 <= k < i ==> provider_of_row(#[trigger] rows@[k]) == Some(providers@[k]),
            decreases rows.len() - i,
        {
            let row = ProviderRow {
                id: rows[i].id,
                name: rows[i].name.clone(),
                kind: rows[i].kind.clone(),
                api_base_url: rows[i].api_base_url.clone(),
                default_model: rows[i].default_model.clone(),
                created_at: rows[i].created_at.clone(),
                updated_at: rows[i].updated_at.clone(),
            };
            assert(row == rows@[i as int]);
            let p = match ModelProvider::from_row(row) {
                Ok(p) => p,
                Err(e) => {
                    proof {
                        assert(listed[i as int] == (rows@[i as int].id, StoredRow::Provider(rows@[i as int])));
                        assert(self.db.rows().contains_key((Table::Providers, listed[i as int].0)));
                        assert(stored_provider_row(self.db.rows(), rows@[i as int].id) == Some(rows@[i as int]));
                    }
                    return Err(e);
                },
            };
            providers.push(p);
            i = i + 1;
        }
        proof {
            assert forall|k: int| 0 <= k < providers@.len() implies stored_provider(self.db.rows(), #[trigger] providers@[k].id) == Some(providers@[k]) by {
                assert(listed[k] == (rows@[k].id, StoredRow::Provider(rows@[k])));
                assert(self.db.rows().contains_key((Table::Providers, listed[k].0)));
            }
            assert forall|id: i64| #[trigger] stored_provider_row(self.db.rows(), id) is Some implies exists|k: int| 0 <= k < providers@.len() && providers@[k].id == id by {
                assert(self.db.rows().contains_key((Table::Providers, id)));
                let k = choose|k: int| 0 <= k < listed.len() && #[trigger] listed[k].0 == id;
                assert(listed[k] == (rows@[k].id, StoredRow::Provider(rows@[k])));
                assert(provider_of_row(rows@[k]) == Some(providers@[k]));
            }
            assert forall|a: int, b: int| 0 <= a < b < providers@.len() implies #[trigger] providers@[a].id != #[trigger] providers@[b].id by {
                assert(provider_of_row(rows@[a]) == Some(providers@[a]));
                assert(provider_of_row(rows@[b]) == Some(providers@[b]));
                assert(listed[a].0 == rows@[a].id && listed[b].0 == rows@[b].id);
            }
        }
        let ghost before = providers@;
        let out = sort(providers);
        proof {
            lemma_reorder_keeps_keys(before, out@, |p: ModelProvider| p.id);
            assert forall|k: int| 0 <= k < out@.len() implies stored_provider(self.db.rows(), #[trigger] out@[k].id) == Some(out@[k]) by {
                assert(before.contains(out@[k]));
                let m = choose|m: int| 0 <= m < before.len() && before[m] == out@[k];
                assert(stored_provider(self.db.rows(), before[m].id) == Some(before[m]));
            }
            assert forall|id: i64| #[trigger] stored_provider_row(self.db.rows(), id) is Some implies exists|k: int| 0 <= k < out@.len() && out@[k].id == id by {
                let m = choose|m: int| 0 <= m < before.len() && before[m].id == id;
                assert(out@.contains(before[m]));
            }
            assert forall|a: int, b: int| 0 <= a < b < out@.len() implies #[trigger] out@[a].id != #[trigger] out@[b].id by {
                assert((|p: ModelProvider| p.id)(out@[a]) != (|p: ModelProvider| p.id)(out@[b]));
            }
        }
        Ok(out)
    }

    /// Delete a provider. Providers that sessions still reference are
    /// refused by the database.
    pub fn remove(&mut self, id: i64) -> (r: Result<()>)
        ensures
            *final(final(self).db) == *final(old(self).db),
            stored_provider_row(old(self).db.rows(), id) is None ==> r is Err,
            r is Ok ==> stored_provider_row(old(self).db.rows(), id) is Some
                && final(self).db.rows() == old(self).db.rows().remove((Table::Providers, id)),
            r matches Err(e) ==> final(self).db.rows() == old(self).db.rows() && (e is Database
                || (e is NotFound && stored_provider_row(old(self).db.rows(), id) is None
                && e->NotFound_0@ == provider_not_found(id))),
    {
        match sql::delete_provider(self.db, id) {
            Ok(0) => {
                let t = i64_to_text(id);
                proof { reveal_strlit("provider "); }
                Err(IdeError::NotFound(concat2("provider ", t.as_str())))
            },
            Ok(_) => Ok(()),
            Err(e) => Err(IdeError::Database(e)),
        }
    }
}

/// A single message exchanged with a model provider.
#[derive(Debug, Clone, PartialEq, Eq)]
pub struct ProviderMessage {
    pub role: String,
    pub content: String,
}

/// Request sent to a model provider.
#[derive(Debug, Clone, PartialEq, Eq)]
pub struct CompletionRequest {
    pub model: String,
    pub messages: Vec<ProviderMessage>,
}

/// Response returned by a model provider.
#[derive(Debug, Clone, PartialEq, Eq)]
pub struct CompletionResponse {
    pub text: String,
}

} // verus!
