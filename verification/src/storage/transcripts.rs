//! Session transcript storage.

use vstd::prelude::*;
use crate::error::{IdeError, Result};
use crate::storage::rows::{StoredRow, Table, row_inserted};
use crate::storage::{Database, now, sql};
use crate::text::{str_eq, i64_to_text, spec_decimal, concat2};
use crate::order::{Ordered, sort, sorted, lemma_reorder_keeps_keys};

verus! {

/// A transcript entry row as its columns hold it.
#[derive(Debug, Clone, PartialEq, Eq)]
pub struct EntryRow {
    pub id: i64,
    pub session_id: i64,
    pub order_index: i64,
    pub entry_type: String,
    pub origin_device_id: Option<i64>,
    pub content: String,
    pub created_at: String,
}

/// The entry row stored under `id`, if any.
pub open spec fn stored_entry_row(rows: Map<(Table, i64), StoredRow>, id: i64) -> Option<EntryRow> {
    if rows.contains_key((Table::Entries, id)) {
        match rows[(Table::Entries, id)] {
            StoredRow::Entry(e) => Some(e),
            _ => None,
        }
    } else {
        None
    }
}

#[derive(Debug, Clone, Copy, PartialEq, Eq, Structural)]
pub enum EntryType {
    Prompt,
    Response,
    FileChange,
    Command,
    ApprovalDecision,
    Error,
}

/// Stored text of an entry type.
pub open spec fn entry_type_text(t: EntryType) -> Seq<char> {
    match t {
        EntryType::Prompt => "prompt"@,
        EntryType::Response => "response"@,
        EntryType::FileChange => "file_change"@,
        EntryType::Command => "command"@,
        EntryType::ApprovalDecision => "approval_decision"@,
        EntryType::Error => "error"@,
    }
}

/// The entry type whose stored text is `t`, if any.
pub open spec fn entry_type_from_text(t: Seq<char>) -> Option<EntryType> {
    if t == "prompt"@ {
        Some(EntryType::Prompt)
    } else if t == "response"@ {
        Some(EntryType::Response)
    } else if t == "file_change"@ {
        Some(EntryType::FileChange)
    } else if t == "command"@ {
        Some(EntryType::Command)
    } else if t == "approval_decision"@ {
        Some(EntryType::ApprovalDecision)
    } else if t == "error"@ {
        Some(EntryType::Error)
    } else {
        None
    }
}

impl EntryType {
    pub fn as_str(self) -> (s: &'static str)
        ensures
            s@ == entry_type_text(self),
    {
        match self {
            EntryType::Prompt => "prompt",
            EntryType::Response => "response",
            EntryType::FileChange => "file_change",
            EntryType::Command => "command",
            EntryType::ApprovalDecision => "approval_decision",
            EntryType::Error => "error",
        }
    }

    pub fn parse(value: &str) -> (r: Result<EntryType>)
        ensures
            match entry_type_from_text(value@) {
                Some(t) => r == Ok::<EntryType, IdeError>(t),
                None => r is Err && r->Err_0 is Validation,
            },
    {
        if str_eq(value, "prompt") {
            Ok(EntryType::Prompt)
        } else if str_eq(value, "response") {
            Ok(EntryType::Response)
        } else if str_eq(value, "file_change") {
            Ok(EntryType::FileChange)
        } else if str_eq(value, "command") {
            Ok(EntryType::Command)
        } else if str_eq(value, "approval_decision") {
            Ok(EntryType::ApprovalDecision)
        } else if str_eq(value, "error") {
            Ok(EntryType::Error)
        } else {
            Err(IdeError::Validation(concat2("unknown entry type ", value)))
        }
    }
}

/// Reading back the stored text of an entry type gives the type.
pub proof fn lemma_entry_type_text_round_trip(t: EntryType)
    ensures
        entry_type_from_text(entry_type_text(t)) == Some(t),
{
    reveal_strlit("prompt");
    reveal_strlit("response");
    reveal_strlit("file_change");
    reveal_strlit("command");
    reveal_strlit("approval_decision");
    reveal_strlit("error");
    assert("prompt"@.len() == 6 && "response"@.len() == 8 && "file_change"@.len() == 11
        && "command"@.len() == 7 && "approval_decision"@.len() == 17 && "error"@.len() == 5);
}

/// One ordered record within a session transcript. `content` is the JSON
/// text of the entry's payload.
#[derive(Debug, Clone, PartialEq, Eq)]
pub struct TranscriptEntry {
    pub id: i64,
    pub session_id: i64,
    pub order_index: i64,
    pub entry_type: EntryType,
    pub origin_device_id: Option<i64>,
    pub content: String,
    pub created_at: String,
}

/// The entry a stored row describes, when its type is known.
pub open spec fn entry_of_row(r: EntryRow) -> Option<TranscriptEntry> {
    match entry_type_from_text(r.entry_type@) {
        Some(entry_type) => Some(TranscriptEntry {
            id: r.id,
            session_id: r.session_id,
            order_index: r.order_index,
            entry_type,
            origin_device_id: r.origin_device_id,
            content: r.content,
            created_at: r.created_at,
        }),
        None => None,
    }
}

/// The entry stored under `id`, if any and readable.
pub open spec fn stored_entry(rows: Map<(Table, i64), StoredRow>, id: i64) -> Option<TranscriptEntry> {
    match stored_entry_row(rows, id) {
        Some(r) => entry_of_row(r),
        None => None,
    }
}

/// The not-found error for entry `id`.
pub open spec fn entry_not_found(id: i64) -> Seq<char> {
    "transcript entry "@ + spec_decimal(id as int)
}

/// Whether the entry row stored under `id` belongs to session `session_id`.
pub open spec fn entry_in_session(rows: Map<(Table, i64), StoredRow>, id: i64, session_id: i64) -> bool {
    stored_entry_row(rows, id) is Some && stored_entry_row(rows, id)->0.session_id == session_id
}

/// Whether `index` follows every entry of session `session_id`: it is one
/// past the largest order index, or 0 when the session has no entries.
pub open spec fn next_order_index(rows: Map<(Table, i64), StoredRow>, session_id: i64, index: int) -> bool {
    &&& forall|id: i64| #[trigger] entry_in_session(rows, id, session_id)
        ==> stored_entry_row(rows, id)->0.order_index < index
    &&& (index == 0 && forall|id: i64| !#[trigger] entry_in_session(rows, id, session_id))
        || exists|id: i64| #[trigger] entry_in_session(rows, id, session_id)
            && stored_entry_row(rows, id)->0.order_index == index - 1
}

/// `listed` holds exactly the stored entries of `session_id` whose order
/// index is above `from`, each once.
pub open spec fn lists_entries_after(rows: Map<(Table, i64), StoredRow>, session_id: i64, from: i64, listed: Seq<TranscriptEntry>) -> bool {
    &&& forall|i: int| 0 <= i < listed.len() ==> stored_entry(rows, #[trigger] listed[i].id) == Some(listed[i])
        && listed[i].session_id == session_id && listed[i].order_index > from
    &&& forall|id: i64| #[trigger] entry_in_session(rows, id, session_id)
        && stored_entry_row(rows, id)->0.order_index > from ==> exists|i: int| 0 <= i < listed.len() && listed[i].id == id
    &&& forall|i: int, j: int| 0 <= i < j < listed.len() ==> #[trigger] listed[i].id != #[trigger] listed[j].id
}


/// `listed` holds exactly the entry rows of `session_id` whose order index
/// is above `from`, each once.
pub open spec fn lists_entry_rows_after(rows: Map<(Table, i64), StoredRow>, session_id: i64, from: i64, listed: Seq<EntryRow>) -> bool {
    &&& forall|i: int| 0 <= i < listed.len() ==> stored_entry_row(rows, #[trigger] listed[i].id) == Some(listed[i])
        && listed[i].session_id == session_id && listed[i].order_index > from
    &&& forall|id: i64| #[trigger] entry_in_session(rows, id, session_id)
        && stored_entry_row(rows, id)->0.order_index > from ==> exists|i: int| 0 <= i < listed.len() && listed[i].id == id
    &&& forall|i: int, j: int| 0 <= i < j < listed.len() ==> #[trigger] listed[i].id != #[trigger] listed[j].id
}

/// Whether every stored entry of `session_id` with an order index above
/// `from` can be read: its type is a known text.
pub open spec fn entries_readable(rows: Map<(Table, i64), StoredRow>, session_id: i64, from: i64) -> bool {
    forall|id: i64| #[trigger] entry_in_session(rows, id, session_id) && stored_entry_row(rows, id)->0.order_index > from
        ==> stored_entry(rows, id) is Some
}

/// Whether a client that saw the transcript of `session_id` up to index
/// `from` saw a real entry: `from` is -1 before the first one, or the index
/// of an entry.
pub open spec fn seen_up_to(rows: Map<(Table, i64), StoredRow>, session_id: i64, from: i64) -> bool {
    from == -1 || exists|id: i64| #[trigger] entry_in_session(rows, id, session_id)
        && stored_entry_row(rows, id)->0.order_index == from
}

/// Whether every entry of `session_id` has a non-negative order index, as
/// every transcript built by appending has.
pub open spec fn indices_nonnegative(rows: Map<(Table, i64), StoredRow>, session_id: i64) -> bool {
    forall|id: i64| #[trigger] entry_in_session(rows, id, session_id) ==> stored_entry_row(rows, id)->0.order_index >= 0
}

/// Appending keeps order indexes non-negative: the next index of a
/// transcript whose indexes are non-negative is non-negative.
pub proof fn lemma_next_index_nonnegative(rows: Map<(Table, i64), StoredRow>, session_id: i64, index: int)
    requires
        indices_nonnegative(rows, session_id),
        next_order_index(rows, session_id, index),
    ensures
        index >= 0,
{
    if index != 0 {
        let id = choose|id: i64| #[trigger] entry_in_session(rows, id, session_id)
            && stored_entry_row(rows, id)->0.order_index == index - 1;
    }
}

/// Catch-up misses nothing: an entry appended after a client saw the
/// transcript up to `from` comes after every entry that was already there,
/// and every catch-up listing from `from` holds it.
pub proof fn lemma_catchup_holds_appended_entries(
    before: Map<(Table, i64), StoredRow>,
    after: Map<(Table, i64), StoredRow>,
    e: TranscriptEntry,
    from: i64,
    listed: Seq<TranscriptEntry>,
)
    requires
        indices_nonnegative(before, e.session_id),
        next_order_index(before, e.session_id, e.order_index as int),
        stored_entry(after, e.id) == Some(e),
        seen_up_to(before, e.session_id, from),
        lists_entries_after(after, e.session_id, from, listed),
    ensures
        forall|id: i64| #[trigger] entry_in_session(before, id, e.session_id)
            ==> stored_entry_row(before, id)->0.order_index < e.order_index,
        e.order_index > from,
        exists|i: int| 0 <= i < listed.len() && listed[i].id == e.id && listed[i] == e,
{
    lemma_next_index_nonnegative(before, e.session_id, e.order_index as int);
    if from != -1 {
        let id = choose|id: i64| #[trigger] entry_in_session(before, id, e.session_id)
            && stored_entry_row(before, id)->0.order_index == from;
        assert(stored_entry_row(before, id)->0.order_index < e.order_index);
    }
    assert(entry_in_session(after, e.id, e.session_id));
    assert(stored_entry_row(after, e.id)->0.order_index == e.order_index);
    let i = choose|i: int| 0 <= i < listed.len() && listed[i].id == e.id;
    assert(stored_entry(after, listed[i].id) == Some(listed[i]));
}

/// Entries are listed by order index.
/// `v` runs in ascending order index: an entry never comes before one with
/// a smaller index.
pub open spec fn ascending_index(v: Seq<TranscriptEntry>) -> bool {
    forall|i: int, j: int| 0 <= i < j < v.len() ==> #[trigger] v[i].order_index <= #[trigger] v[j].order_index
}

/// A transcript in listing order runs oldest first: for any two positions,
/// the earlier entry has the smaller or equal order index.
pub proof fn lemma_listing_order_is_ascending_index(v: Seq<TranscriptEntry>)
    requires
        sorted(v),
    ensures
        ascending_index(v),
{
    assert forall|i: int, j: int| 0 <= i < j < v.len() implies #[trigger] v[i].order_index <= #[trigger] v[j].order_index by {
        assert(v[i].precedes(&v[j]));
    }
}

impl Ordered for TranscriptEntry {
    open spec fn precedes(&self, other: &Self) -> bool {
        self.order_index <= other.order_index
    }

    proof fn lemma_total(a: &Self, b: &Self) {
    }

    proof fn lemma_transitive(a: &Self, b: &Self, c: &Self) {
    }

    fn in_order(&self, other: &Self) -> (r: bool) {
        self.order_index <= other.order_index
    }
}

impl TranscriptEntry {
    /// The entry a stored row describes; a row with an unknown type is
    /// refused.
    pub fn from_row(row: EntryRow) -> (r: Result<TranscriptEntry>)
        ensures
            entry_of_row(row) matches Some(e) ==> r == Ok::<TranscriptEntry, IdeError>(e),
            entry_of_row(row) is None ==> r is Err && r->Err_0 is Validation,
    {
        let entry_type = match EntryType::parse(row.entry_type.as_str()) {
            Ok(t) => t,
            Err(e) => return Err(e),
        };
        Ok(TranscriptEntry {
            id: row.id,
            session_id: row.session_id,
            order_index: row.order_index,
            entry_type,
            origin_device_id: row.origin_device_id,
            content: row.content,
            created_at: row.created_at,
        })
    }
}

fn copy_entry_row(r: &EntryRow) -> (c: EntryRow)
    ensures
        c == *r,
{
    EntryRow {
        id: r.id,
        session_id: r.session_id,
        order_index: r.order_index,
        entry_type: r.entry_type.clone(),
        origin_device_id: r.origin_device_id,
        content: r.content.clone(),
        created_at: r.created_at.clone(),
    }
}

pub struct TranscriptRepository<'a> {
    pub db: &'a mut Database,
}

impl<'a> TranscriptRepository<'a> {
    pub fn new(db: &'a mut Database) -> (r: Self)
        ensures
            *r.db == *old(db),
            *final(db) == *final(r.db),
    {
        TranscriptRepository { db }
    }

    /// Append an entry, assigning the next order index of the session.
    pub fn append(&mut self, session_id: i64, entry_type: EntryType, origin_device_id: Option<i64>, content: &str) -> (r: Result<TranscriptEntry>)
        ensures
            *final(final(self).db) == *final(old(self).db),
            r matches Ok(e) ==> {
                &&& e.session_id == session_id && e.entry_type == entry_type
                &&& e.origin_device_id == origin_device_id && e.content@ == content@
                &&& next_order_index(old(self).db.rows(), session_id, e.order_index as int)
                &&& stored_entry(final(self).db.rows(), e.id) == Some(e)
                &&& exists|row: EntryRow| row_inserted(old(self).db.rows(), final(self).db.rows(), (Table::Entries, e.id), StoredRow::Entry(row))
            },
            r matches Err(e) ==> final(self).db.rows() == old(self).db.rows() && (e is Database || e is Validation),
            r matches Err(e) && e is Validation ==> next_order_index(old(self).db.rows(), session_id, i64::MAX as int + 1),
            !next_order_index(old(self).db.rows(), session_id, i64::MAX as int + 1) ==> r is Ok || r->Err_0 is Database,
    {
        let next: i64 = match sql::max_order_index(self.db, session_id) {
            Ok(None) => 0,
            Ok(Some(m)) => {
                if m == i64::MAX {
                    return Err(IdeError::Validation("the transcript has no order index left".to_string()));
                }
                m + 1
            },
            Err(e) => return Err(IdeError::Database(e)),
        };
        let row = EntryRow {
            id: 0,
            session_id,
            order_index: next,
            entry_type: entry_type.as_str().to_string(),
            origin_device_id,
            content: content.to_string(),
            created_at: now(),
        };
        proof { lemma_entry_type_text_round_trip(entry_type); }
        match sql::insert_entry(self.db, &row) {
            Ok(id) => {
                let stored = EntryRow { id, ..row };
                assert(entry_of_row(stored) is Some);
                assert(row_inserted(old(self).db.rows(), self.db.rows(), (Table::Entries, id), StoredRow::Entry(stored)));
                TranscriptEntry::from_row(stored)
            },
            Err(e) => Err(IdeError::Database(e)),
        }
    }

    pub fn get(&self, id: i64) -> (r: Result<TranscriptEntry>)
        ensures
            r matches Ok(e) ==> stored_entry(old(self.db).rows(), id) == Some(e) && e.id == id,
            r matches Err(e) ==> (e is NotFound && stored_entry_row(old(self.db).rows(), id) is None
                && e->NotFound_0@ == entry_not_found(id)) || e is Database || e is Validation,
            stored_entry(old(self.db).rows(), id) is None ==> r is Err,
            stored_entry(old(self.db).rows(), id) is Some ==> r is Ok || r->Err_0 is Database,
    {
        match sql::select_entry(self.db, id) {
            Ok(Some(row)) => TranscriptEntry::from_row(row),
            Ok(None) => {
                let t = i64_to_text(id);
                proof { reveal_strlit("transcript entry "); }
                Err(IdeError::NotFound(concat2("transcript entry ", t.as_str())))
            },
            Err(e) => Err(IdeError::Database(e)),
        }
    }

    /// All entries of a session, in order.
    pub fn list(&self, session_id: i64) -> (r: Result<Vec<TranscriptEntry>>)
        ensures
            r matches Ok(v) ==> lists_entries_after(old(self.db).rows(), session_id, -1i64, v@) && sorted(v@),
            r matches Ok(v) ==> ascending_index(v@),
            r matches Err(e) ==> e is Database || e is Validation,
            r matches Err(e) && e is Validation ==> !entries_readable(old(self.db).rows(), session_id, -1i64),
            entries_readable(old(self.db).rows(), session_id, -1i64) ==> r is Ok || r->Err_0 is Database,
    {
        self.list_from(session_id, -1)
    }

    /// Entries with an order index above `from_index`, in order: what a
    /// reconnecting client missed.
    pub fn list_from(&self, session_id: i64, from_index: i64) -> (r: Result<Vec<TranscriptEntry>>)
        ensures
            r matches Ok(v) ==> lists_entries_after(old(self.db).rows(), session_id, from_index, v@) && sorted(v@),
            r matches Ok(v) ==> ascending_index(v@),
            r matches Err(e) ==> e is Database || e is Validation,
            r matches Err(e) && e is Validation ==> !entries_readable(old(self.db).rows(), session_id, from_index),
            entries_readable(old(self.db).rows(), session_id, from_index) ==> r is Ok || r->Err_0 is Database,
    {
        let rows = match sql::select_entries_after(self.db, session_id, from_index) {
            Ok(v) => v,
            Err(e) => return Err(IdeError::Database(e)),
        };
        let mut entries: Vec<TranscriptEntry> = Vec::new();
        let mut i: usize = 0;
        while i < rows.len()
            invariant
                i <= rows.len(),
                entries@.len() == i,
                lists_entry_rows_after(self.db.rows(), session_id, from_index, rows@),
                forall|k: int| 0 <= k < i ==> entry_of_row(#[trigger] rows@[k]) == Some(entries@[k]),
            decreases rows.len() - i,
        {
            let e = match TranscriptEntry::from_row(copy_entry_row(&rows[i])) {
                Ok(e) => e,
                Err(e) => {
                    proof {
                        assert(stored_entry_row(self.db.rows(), rows@[i as int].id) == Some(rows@[i as int]));
                        assert(entry_in_session(self.db.rows(), rows@[i as int].id, session_id));
                    }
                    return Err(e);
                },
            };
            entries.push(e);
            i = i + 1;
        }
        proof {
            assert forall|k: int| 0 <= k < entries@.len() implies stored_entry(self.db.rows(), #[trigger] entries@[k].id) == Some(entries@[k]) by {
                assert(entry_of_row(rows@[k]) == Some(entries@[k]));
                assert(stored_entry_row(self.db.rows(), rows@[k].id) == Some(rows@[k]));
            }
            assert forall|id: i64| #[trigger] entry_in_session(self.db.rows(), id, session_id)
                && stored_entry_row(self.db.rows(), id)->0.order_index > from_index implies exists|k: int| 0 <= k < entries@.len() && entries@[k].id == id by {
                let k = choose|k: int| 0 <= k < rows@.len() && rows@[k].id == id;
                assert(entry_of_row(rows@[k]) == Some(entries@[k]));
            }
            assert forall|a: int, b: int| 0 <= a < b < entries@.len() implies #[trigger] entries@[a].id != #[trigger] entries@[b].id by {
                assert(entry_of_row(rows@[a]) == Some(entries@[a]));
                assert(entry_of_row(rows@[b]) == Some(entries@[b]));
            }
            assert forall|k: int| 0 <= k < entries@.len() implies (#[trigger] entries@[k]).session_id == session_id
                && entries@[k].order_index > from_index by {
                assert(entry_of_row(rows@[k]) == Some(entries@[k]));
            }
        }
        let ghost before = entries@;
        let out = sort(entries);
        proof {
            lemma_reorder_keeps_keys(before, out@, |e: TranscriptEntry| e.id);
            assert forall|k: int| 0 <= k < out@.len() implies stored_entry(self.db.rows(), #[trigger] out@[k].id) == Some(out@[k])
                && out@[k].session_id == session_id && out@[k].order_index > from_index by {
                assert(before.contains(out@[k]));
                let m = choose|m: int| 0 <= m < before.len() && before[m] == out@[k];
                assert(stored_entry(self.db.rows(), before[m].id) == Some(before[m]));
            }
            assert forall|id: i64| #[trigger] entry_in_session(self.db.rows(), id, session_id)
                && stored_entry_row(self.db.rows(), id)->0.order_index > from_index implies exists|k: int| 0 <= k < out@.len() && out@[k].id == id by {
                let m = choose|m: int| 0 <= m < before.len() && before[m].id == id;
                assert(out@.contains(before[m]));
            }
            assert forall|a: int, b: int| 0 <= a < b < out@.len() implies #[trigger] out@[a].id != #[trigger] out@[b].id by {
                assert((|e: TranscriptEntry| e.id)(out@[a]) != (|e: TranscriptEntry| e.id)(out@[b]));
            }
        }
        proof { lemma_listing_order_is_ascending_index(out@); }
        Ok(out)
    }
}

} // verus!
