//! Tracking of the clients attached to each session.

use vstd::prelude::*;
use crate::error::{IdeError, Result};
use crate::storage::rows::{StoredRow, Table};
use crate::storage::{Database, now, sql};
use crate::agent::session::clone_text_option;
use crate::text::{i64_to_text, spec_decimal, concat2};
use crate::order::{Ordered, sort, sorted, text_le, text_in_order, lemma_reorder_keeps_keys};

verus! {

/// A client's attachment to a session.
#[derive(Debug, Clone, PartialEq, Eq)]
pub struct SessionClientConnection {
    pub id: i64,
    pub session_id: i64,
    /// `None` for the desktop IDE itself.
    pub device_id: Option<i64>,
    pub connected_at: String,
    pub disconnected_at: Option<String>,
}

/// The connection stored under `id`, if any.
pub open spec fn stored_connection(rows: Map<(Table, i64), StoredRow>, id: i64) -> Option<SessionClientConnection> {
    if rows.contains_key((Table::Connections, id)) {
        match rows[(Table::Connections, id)] {
            StoredRow::Connection(c) => Some(c),
            _ => None,
        }
    } else {
        None
    }
}

/// Whether the connection stored under `id` is still attached.
pub open spec fn attached(rows: Map<(Table, i64), StoredRow>, id: i64) -> bool {
    stored_connection(rows, id) is Some && stored_connection(rows, id)->0.disconnected_at is None
}

/// A device (or the desktop, `None`) has at most one attached connection per
/// session.
pub open spec fn one_attachment_per_client(rows: Map<(Table, i64), StoredRow>) -> bool {
    forall|a: i64, b: i64| #[trigger] attached(rows, a) && #[trigger] attached(rows, b)
        && stored_connection(rows, a)->0.session_id == stored_connection(rows, b)->0.session_id
        && stored_connection(rows, a)->0.device_id == stored_connection(rows, b)->0.device_id ==> a == b
}

/// `c` is `q` marked disconnected.
pub open spec fn detached_version(q: SessionClientConnection, c: SessionClientConnection) -> bool {
    c.id == q.id && c.session_id == q.session_id && c.device_id == q.device_id
        && c.connected_at == q.connected_at && c.disconnected_at is Some
}

/// Whether `rows` hold `q` marked disconnected.
pub open spec fn now_detached(rows: Map<(Table, i64), StoredRow>, q: SessionClientConnection) -> bool {
    stored_connection(rows, q.id) is Some && detached_version(q, stored_connection(rows, q.id)->0)
}

/// Whether `id` is the id of one of `conns`.
pub open spec fn among(conns: Seq<SessionClientConnection>, id: i64) -> bool {
    exists|k: int| 0 <= k < conns.len() && (#[trigger] conns[k]).id == id
}

/// `after` is `before` with each of `targets` marked disconnected and
/// nothing else changed.
pub open spec fn detached_all(
    before: Map<(Table, i64), StoredRow>,
    after: Map<(Table, i64), StoredRow>,
    targets: Seq<SessionClientConnection>,
) -> bool {
    &&& after.dom() == before.dom()
    &&& forall|key: (Table, i64)| #[trigger] before.contains_key(key) && !(key.0 == Table::Connections && among(targets, key.1))
        ==> after[key] == before[key]
    &&& forall|k: int| 0 <= k < targets.len() ==> now_detached(after, #[trigger] targets[k])
}

/// `listed` holds exactly the attached connections of `session_id`, each once.
pub open spec fn lists_attached(rows: Map<(Table, i64), StoredRow>, session_id: i64, listed: Seq<SessionClientConnection>) -> bool {
    &&& forall|i: int| 0 <= i < listed.len() ==> stored_connection(rows, #[trigger] listed[i].id) == Some(listed[i])
        && listed[i].session_id == session_id && listed[i].disconnected_at is None
    &&& forall|id: i64| #[trigger] attached(rows, id) && stored_connection(rows, id)->0.session_id == session_id
        ==> exists|i: int| 0 <= i < listed.len() && listed[i].id == id
    &&& forall|i: int, j: int| 0 <= i < j < listed.len() ==> #[trigger] listed[i].id != #[trigger] listed[j].id
}

/// The not-found error for connection `id`.
pub open spec fn connection_not_found(id: i64) -> Seq<char> {
    "connection "@ + spec_decimal(id as int)
}

/// Connections are listed oldest first.
impl Ordered for SessionClientConnection {
    open spec fn precedes(&self, other: &Self) -> bool {
        text_le(self.connected_at@, other.connected_at@)
    }

    proof fn lemma_total(a: &Self, b: &Self) {
        crate::order::lemma_text_le_total(a.connected_at@, b.connected_at@);
    }

    proof fn lemma_transitive(a: &Self, b: &Self, c: &Self) {
        crate::order::lemma_text_le_transitive(a.connected_at@, b.connected_at@, c.connected_at@);
    }

    fn in_order(&self, other: &Self) -> (r: bool) {
        text_in_order(self.connected_at.as_str(), other.connected_at.as_str())
    }
}

impl SessionClientConnection {
    /// A field-by-field copy.
    pub fn clone_connection(&self) -> (r: SessionClientConnection)
        ensures
            r == *self,
    {
        SessionClientConnection {
            id: self.id,
            session_id: self.session_id,
            device_id: self.device_id,
            connected_at: self.connected_at.clone(),
            disconnected_at: clone_text_option(&self.disconnected_at),
        }
    }
}

/// Reads every stored connection, in no particular order.
fn read_connections(db: &Database) -> (r: Result<Vec<SessionClientConnection>>)
    ensures
        r matches Ok(v) ==> (forall|i: int| 0 <= i < v@.len() ==> stored_connection(db.rows(), #[trigger] v@[i].id) == Some(v@[i]))
            && (forall|id: i64| #[trigger] stored_connection(db.rows(), id) is Some ==> exists|i: int| 0 <= i < v@.len() && v@[i].id == id)
            && (forall|i: int, j: int| 0 <= i < j < v@.len() ==> #[trigger] v@[i].id != #[trigger] v@[j].id),
        r matches Err(e) ==> e is Database,
{
    match sql::select_all_connections(db) {
        Ok(v) => {
            proof {
                let listed = v@.map_values(|c: SessionClientConnection| (c.id, StoredRow::Connection(c)));
                assert forall|i: int| 0 <= i < v@.len() implies stored_connection(db.rows(), #[trigger] v@[i].id) == Some(v@[i]) by {
                    assert(listed[i] == (v@[i].id, StoredRow::Connection(v@[i])));
                    assert(db.rows().contains_key((Table::Connections, listed[i].0)));
                }
                assert forall|id: i64| #[trigger] stored_connection(db.rows(), id) is Some implies exists|i: int| 0 <= i < v@.len() && v@[i].id == id by {
                    assert(db.rows().contains_key((Table::Connections, id)));
                    let i = choose|i: int| 0 <= i < listed.len() && #[trigger] listed[i].0 == id;
                    assert(listed[i] == (v@[i].id, StoredRow::Connection(v@[i])));
                }
                assert forall|i: int, j: int| 0 <= i < j < v@.len() implies #[trigger] v@[i].id != #[trigger] v@[j].id by {
                    assert(listed[i].0 == v@[i].id && listed[j].0 == v@[j].id);
                }
            }
            Ok(v)
        },
        Err(e) => Err(IdeError::Database(e)),
    }
}

/// Marks each of `targets`, attached connections with distinct ids, as
/// disconnected now.
fn detach_all(db: &mut Database, targets: &Vec<SessionClientConnection>) -> (r: Result<()>)
    requires
        forall|k: int| 0 <= k < targets@.len() ==> stored_connection(old(db).rows(), (#[trigger] targets@[k]).id) == Some(targets@[k]),
        forall|a: int, b: int| 0 <= a < b < targets@.len() ==> #[trigger] targets@[a].id != #[trigger] targets@[b].id,
    ensures
        r is Ok ==> detached_all(old(db).rows(), final(db).rows(), targets@),
        r matches Err(e) ==> e is Database,
{
    let ghost start = db.rows();
    let mut j: usize = 0;
    while j < targets.len()
        invariant
            j <= targets.len(),
            start == old(db).rows(),
            forall|k: int| 0 <= k < targets@.len() ==> stored_connection(start, (#[trigger] targets@[k]).id) == Some(targets@[k]),
            forall|a: int, b: int| 0 <= a < b < targets@.len() ==> #[trigger] targets@[a].id != #[trigger] targets@[b].id,
            db.rows().dom() == start.dom(),
            forall|key: (Table, i64)| #[trigger] start.contains_key(key) && !(key.0 == Table::Connections && among(targets@.take(j as int), key.1))
                ==> db.rows()[key] == start[key],
            forall|k: int| 0 <= k < j ==> now_detached(db.rows(), #[trigger] targets@[k]),
        decreases targets.len() - j,
    {
        let ghost before = db.rows();
        let id = targets[j].id;
        proof {
            let key = (Table::Connections, id);
            if among(targets@.take(j as int), id) {
                let k = choose|k: int| 0 <= k < targets@.take(j as int).len() && (#[trigger] targets@.take(j as int)[k]).id == id;
                assert(targets@.take(j as int)[k] == targets@[k]);
            }
            assert(start.contains_key(key));
        }
        let updated = SessionClientConnection { disconnected_at: Some(now()), ..targets[j].clone_connection() };
        match sql::update_connection(db, &updated) {
            Ok(_) => {},
            Err(e) => return Err(IdeError::Database(e)),
        }
        proof {
            assert forall|key: (Table, i64)| #[trigger] start.contains_key(key) && !(key.0 == Table::Connections && among(targets@.take(j + 1), key.1))
                implies db.rows()[key] == start[key] by {
                if key.0 == Table::Connections && among(targets@.take(j as int), key.1) {
                    let k = choose|k: int| 0 <= k < targets@.take(j as int).len() && (#[trigger] targets@.take(j as int)[k]).id == key.1;
                    assert(targets@.take(j + 1)[k] == targets@.take(j as int)[k]);
                }
                if key == (Table::Connections, id) {
                    assert(targets@.take(j + 1)[j as int] == targets@[j as int]);
                }
            }
            assert forall|k: int| 0 <= k < j + 1 implies now_detached(db.rows(), #[trigger] targets@[k]) by {
                if k < j {
                    assert(targets@[k].id != id);
                }
            }
            assert(db.rows().dom() =~= start.dom());
        }
        j = j + 1;
    }
    proof {
        assert(targets@.take(targets@.len() as int) =~= targets@);
    }
    Ok(())
}

pub struct ConnectionRepository<'a> {
    pub db: &'a mut Database,
}

impl<'a> ConnectionRepository<'a> {
    pub fn new(db: &'a mut Database) -> (r: Self)
        ensures
            *r.db == *old(db),
            *final(db) == *final(r.db),
    {
        ConnectionRepository { db }
    }

    /// Record a client attaching to a session. A client has at most one
    /// attached connection per session, so a previous one is closed first.
    pub fn open(&mut self, session_id: i64, device_id: Option<i64>) -> (r: Result<SessionClientConnection>)
        ensures
            *final(final(self).db) == *final(old(self).db),
            r matches Ok(c) ==> {
                &&& c.session_id == session_id && c.device_id == device_id && c.disconnected_at is None
                &&& stored_connection(old(self).db.rows(), c.id) is None
                &&& stored_connection(final(self).db.rows(), c.id) == Some(c)
                &&& forall|id: i64| id != c.id && #[trigger] stored_connection(old(self).db.rows(), id) is Some ==> {
                    let q = stored_connection(old(self).db.rows(), id)->0;
                    if q.disconnected_at is None && q.session_id == session_id && q.device_id == device_id {
                        now_detached(final(self).db.rows(), q)
                    } else {
                        stored_connection(final(self).db.rows(), id) == Some(q)
                    }
                }
                &&& forall|id: i64| id != c.id && #[trigger] stored_connection(final(self).db.rows(), id) is Some
                    ==> stored_connection(old(self).db.rows(), id) is Some
                &&& forall|id: i64| id != c.id && #[trigger] attached(final(self).db.rows(), id)
                    ==> !(stored_connection(final(self).db.rows(), id)->0.session_id == session_id
                    && stored_connection(final(self).db.rows(), id)->0.device_id == device_id)
            },
            r is Ok && one_attachment_per_client(old(self).db.rows()) ==> one_attachment_per_client(final(self).db.rows()),
            r matches Err(e) ==> e is Database,
    {
        let r = open_in(self.db, session_id, device_id);
        r
    }

    pub fn get(&self, id: i64) -> (r: Result<SessionClientConnection>)
        ensures
            r matches Ok(c) ==> stored_connection(old(self.db).rows(), id) == Some(c) && c.id == id,
            r matches Err(e) ==> (e is NotFound && stored_connection(old(self.db).rows(), id) is None
                && e->NotFound_0@ == connection_not_found(id)) || e is Database,
            stored_connection(old(self.db).rows(), id) is None ==> r is Err,
    {
        match sql::select_connection(self.db, id) {
            Ok(Some(c)) => Ok(c),
            Ok(None) => {
                let t = i64_to_text(id);
                proof { reveal_strlit("connection "); }
                Err(IdeError::NotFound(concat2("connection ", t.as_str())))
            },
            Err(e) => Err(IdeError::Database(e)),
        }
    }

    /// Mark a single connection as disconnected. Unknown or already closed
    /// connections are left alone.
    pub fn close(&mut self, id: i64) -> (r: Result<()>)
        ensures
            *final(final(self).db) == *final(old(self).db),
            r is Ok && !attached(old(self).db.rows(), id) ==> final(self).db.rows() == old(self).db.rows(),
            r is Ok && attached(old(self).db.rows(), id) ==> {
                let q = stored_connection(old(self).db.rows(), id)->0;
                exists|c: SessionClientConnection| detached_version(q, c)
                    && final(self).db.rows() == old(self).db.rows().insert((Table::Connections, id), StoredRow::Connection(c))
            },
            r matches Err(e) ==> final(self).db.rows() == old(self).db.rows() && e is Database,
    {
        let current = match sql::select_connection(self.db, id) {
            Ok(Some(c)) => c,
            Ok(None) => return Ok(()),
            Err(e) => return Err(IdeError::Database(e)),
        };
        if current.disconnected_at.is_some() {
            return Ok(());
        }
        let updated = SessionClientConnection { disconnected_at: Some(now()), ..current };
        match sql::update_connection(self.db, &updated) {
            Ok(_) => {
                assert(detached_version(current, updated));
                Ok(())
            },
            Err(e) => Err(IdeError::Database(e)),
        }
    }

    /// Close every attached connection of a device (used when it is
    /// revoked) and return how many were closed.
    pub fn close_for_device(&mut self, device_id: i64) -> (r: Result<usize>)
        ensures
            *final(final(self).db) == *final(old(self).db),
            r matches Ok(n) ==> exists|targets: Seq<SessionClientConnection>| {
                &&& #[trigger] detached_all(old(self).db.rows(), final(self).db.rows(), targets)
                &&& targets.len() == n
                &&& forall|k: int| 0 <= k < targets.len() ==> stored_connection(old(self).db.rows(), (#[trigger] targets[k]).id) == Some(targets[k])
                    && targets[k].device_id == Some(device_id) && targets[k].disconnected_at is None
                &&& forall|id: i64| #[trigger] attached(old(self).db.rows(), id)
                    && stored_connection(old(self).db.rows(), id)->0.device_id == Some(device_id) ==> among(targets, id)
            },
            r matches Err(e) ==> e is Database,
    {
        let r = close_device_in(self.db, device_id);
        proof {
            if r is Ok {
                let n = r->Ok_0;
                let t = choose|t: Seq<SessionClientConnection>| #[trigger] detached_all(old(self).db.rows(), self.db.rows(), t)
                    && t.len() == n
                    && (forall|k: int| 0 <= k < t.len() ==> stored_connection(old(self).db.rows(), (#[trigger] t[k]).id) == Some(t[k])
                        && t[k].device_id == Some(device_id) && t[k].disconnected_at is None)
                    && (forall|id: i64| #[trigger] attached(old(self).db.rows(), id)
                        && stored_connection(old(self).db.rows(), id)->0.device_id == Some(device_id) ==> among(t, id));
                assert(detached_all(old(self).db.rows(), self.db.rows(), t));
            }
        }
        r
    }

    /// Connections currently attached to a session, oldest first.
    pub fn active(&self, session_id: i64) -> (r: Result<Vec<SessionClientConnection>>)
        ensures
            r matches Ok(v) ==> lists_attached(old(self.db).rows(), session_id, v@) && sorted(v@),
            r matches Err(e) ==> e is Database,
    {
        let all = match read_connections(self.db) {
            Ok(v) => v,
            Err(e) => return Err(e),
        };
        let mut picked: Vec<SessionClientConnection> = Vec::new();
        let mut i: usize = 0;
        while i < all.len()
            invariant
                i <= all.len(),
                forall|k: int| 0 <= k < all@.len() ==> stored_connection(self.db.rows(), #[trigger] all@[k].id) == Some(all@[k]),
                forall|a: int, b: int| 0 <= a < b < all@.len() ==> #[trigger] all@[a].id != #[trigger] all@[b].id,
                forall|k: int| 0 <= k < picked@.len() ==> stored_connection(self.db.rows(), #[trigger] picked@[k].id) == Some(picked@[k])
                    && picked@[k].session_id == session_id && picked@[k].disconnected_at is None,
                forall|k: int| 0 <= k < i && (#[trigger] all@[k]).session_id == session_id && all@[k].disconnected_at is None
                    ==> picked@.contains(all@[k]),
                forall|a: int, b: int| 0 <= a < b < picked@.len() ==> #[trigger] picked@[a].id != #[trigger] picked@[b].id,
                forall|a: int, b: int| 0 <= a < picked@.len() && i <= b < all@.len() ==> #[trigger] picked@[a].id != #[trigger] all@[b].id,
            decreases all.len() - i,
        {
            let ghost before = picked@;
            if all[i].session_id == session_id && all[i].disconnected_at.is_none() {
                picked.push(all[i].clone_connection());
                proof {
                    assert forall|k: int| 0 <= k < i && (#[trigger] all@[k]).session_id == session_id && all@[k].disconnected_at is None
                        implies picked@.contains(all@[k]) by {
                        let m = choose|m: int| 0 <= m < before.len() && before[m] == all@[k];
                        assert(picked@[m] == all@[k]);
                    }
                    assert(picked@[picked@.len() - 1] == all@[i as int]);
                }
            }
            proof {
                assert forall|a: int, b: int| 0 <= a < picked@.len() && i + 1 <= b < all@.len() implies #[trigger] picked@[a].id != #[trigger] all@[b].id by {
                    if a == picked@.len() - 1 && picked@.len() > before.len() {
                        assert(picked@[a] == all@[i as int]);
                    } else {
                        assert(picked@[a] == before[a]);
                    }
                }
            }
            i = i + 1;
        }
        proof {
            assert forall|id: i64| #[trigger] attached(self.db.rows(), id) && stored_connection(self.db.rows(), id)->0.session_id == session_id
                implies exists|k: int| 0 <= k < picked@.len() && picked@[k].id == id by {
                let k = choose|k: int| 0 <= k < all@.len() && all@[k].id == id;
                assert(stored_connection(self.db.rows(), all@[k].id) == Some(all@[k]));
                assert(picked@.contains(all@[k]));
            }
        }
        let ghost before = picked@;
        let out = sort(picked);
        proof {
            lemma_reorder_keeps_keys(before, out@, |c: SessionClientConnection| c.id);
            assert forall|k: int| 0 <= k < out@.len() implies stored_connection(self.db.rows(), #[trigger] out@[k].id) == Some(out@[k])
                && out@[k].session_id == session_id && out@[k].disconnected_at is None by {
                assert(before.contains(out@[k]));
                let m = choose|m: int| 0 <= m < before.len() && before[m] == out@[k];
                assert(stored_connection(self.db.rows(), before[m].id) == Some(before[m]));
            }
            assert forall|id: i64| #[trigger] attached(self.db.rows(), id) && stored_connection(self.db.rows(), id)->0.session_id == session_id
                implies exists|k: int| 0 <= k < out@.len() && out@[k].id == id by {
                let m = choose|m: int| 0 <= m < before.len() && before[m].id == id;
                assert(out@.contains(before[m]));
            }
            assert forall|a: int, b: int| 0 <= a < b < out@.len() implies #[trigger] out@[a].id != #[trigger] out@[b].id by {
                assert((|c: SessionClientConnection| c.id)(out@[a]) != (|c: SessionClientConnection| c.id)(out@[b]));
            }
        }
        Ok(out)
    }
}

/// The attached connections among `all` that `keep` selects.
fn attached_of(all: &Vec<SessionClientConnection>, session_id: Option<i64>, device_id: Option<i64>) -> (r: Vec<SessionClientConnection>)
    requires
        forall|a: int, b: int| 0 <= a < b < all@.len() ==> #[trigger] all@[a].id != #[trigger] all@[b].id,
    ensures
        forall|k: int| 0 <= k < r@.len() ==> all@.contains(#[trigger] r@[k]) && r@[k].disconnected_at is None
            && (session_id matches Some(s) ==> r@[k].session_id == s) && r@[k].device_id == device_id,
        forall|k: int| 0 <= k < all@.len() && (#[trigger] all@[k]).disconnected_at is None
            && (session_id matches Some(s) ==> all@[k].session_id == s) && all@[k].device_id == device_id ==> r@.contains(all@[k]),
        forall|a: int, b: int| 0 <= a < b < r@.len() ==> #[trigger] r@[a].id != #[trigger] r@[b].id,
{
    let mut picked: Vec<SessionClientConnection> = Vec::new();
    let mut i: usize = 0;
    while i < all.len()
        invariant
            i <= all.len(),
            forall|a: int, b: int| 0 <= a < b < all@.len() ==> #[trigger] all@[a].id != #[trigger] all@[b].id,
            forall|k: int| 0 <= k < picked@.len() ==> all@.take(i as int).contains(#[trigger] picked@[k]) && picked@[k].disconnected_at is None
                && (session_id matches Some(s) ==> picked@[k].session_id == s) && picked@[k].device_id == device_id,
            forall|k: int| 0 <= k < i && (#[trigger] all@[k]).disconnected_at is None
                && (session_id matches Some(s) ==> all@[k].session_id == s) && all@[k].device_id == device_id ==> picked@.contains(all@[k]),
            forall|a: int, b: int| 0 <= a < b < picked@.len() ==> #[trigger] picked@[a].id != #[trigger] picked@[b].id,
        decreases all.len() - i,
    {
        let ghost before = picked@;
        let wanted = all[i].disconnected_at.is_none() && all[i].device_id == device_id && match session_id {
            Some(s) => all[i].session_id == s,
            None => true,
        };
        if wanted {
            proof {
                assert forall|k: int| 0 <= k < before.len() implies (#[trigger] before[k]).id != all@[i as int].id by {
                    let m = choose|m: int| 0 <= m < all@.take(i as int).len() && all@.take(i as int)[m] == before[k];
                    assert(all@[m] == before[k]);
                }
            }
            picked.push(all[i].clone_connection());
            proof {
                assert(picked@[picked@.len() - 1] == all@[i as int]);
                assert forall|k: int| 0 <= k < i && (#[trigger] all@[k]).disconnected_at is None
                    && (session_id matches Some(s) ==> all@[k].session_id == s) && all@[k].device_id == device_id implies picked@.contains(all@[k]) by {
                    let m = choose|m: int| 0 <= m < before.len() && before[m] == all@[k];
                    assert(picked@[m] == all@[k]);
                }
            }
        }
        proof {
            assert forall|k: int| 0 <= k < picked@.len() implies all@.take(i + 1).contains(#[trigger] picked@[k]) by {
                if k < before.len() {
                    assert(picked@[k] == before[k]);
                    let m = choose|m: int| 0 <= m < all@.take(i as int).len() && all@.take(i as int)[m] == before[k];
                    assert(all@.take(i + 1)[m] == before[k]);
                } else {
                    assert(all@.take(i + 1)[i as int] == all@[i as int]);
                }
            }
        }
        i = i + 1;
    }
    proof {
        assert(all@.take(all@.len() as int) =~= all@);
    }
    picked
}

fn open_in(db: &mut Database, session_id: i64, device_id: Option<i64>) -> (r: Result<SessionClientConnection>)
    ensures
        r matches Ok(c) ==> {
            &&& c.session_id == session_id && c.device_id == device_id && c.disconnected_at is None
            &&& stored_connection(old(db).rows(), c.id) is None
            &&& stored_connection(final(db).rows(), c.id) == Some(c)
            &&& forall|id: i64| id != c.id && #[trigger] stored_connection(old(db).rows(), id) is Some ==> {
                let q = stored_connection(old(db).rows(), id)->0;
                if q.disconnected_at is None && q.session_id == session_id && q.device_id == device_id {
                    now_detached(final(db).rows(), q)
                } else {
                    stored_connection(final(db).rows(), id) == Some(q)
                }
            }
            &&& forall|id: i64| id != c.id && #[trigger] stored_connection(final(db).rows(), id) is Some
                ==> stored_connection(old(db).rows(), id) is Some
            &&& forall|id: i64| id != c.id && #[trigger] attached(final(db).rows(), id)
                ==> !(stored_connection(final(db).rows(), id)->0.session_id == session_id
                && stored_connection(final(db).rows(), id)->0.device_id == device_id)
        },
        r is Ok && one_attachment_per_client(old(db).rows()) ==> one_attachment_per_client(final(db).rows()),
        r matches Err(e) ==> e is Database,
{
    let all = match read_connections(db) {
        Ok(v) => v,
        Err(e) => return Err(e),
    };
    let targets = attached_of(&all, Some(session_id), device_id);
    proof {
        assert forall|k: int| 0 <= k < targets@.len() implies stored_connection(db.rows(), (#[trigger] targets@[k]).id) == Some(targets@[k]) by {
            let m = choose|m: int| 0 <= m < all@.len() && all@[m] == targets@[k];
        }
    }
    let ghost start = db.rows();
    match detach_all(db, &targets) {
        Ok(()) => {},
        Err(e) => return Err(e),
    }
    let ghost middle = db.rows();
    let row = SessionClientConnection {
        id: 0,
        session_id,
        device_id,
        connected_at: now(),
        disconnected_at: None,
    };
    match sql::insert_connection(db, &row) {
        Ok(id) => {
            let c = SessionClientConnection { id, ..row };
            proof {
                assert(!middle.contains_key((Table::Connections, id)));
                assert(!start.contains_key((Table::Connections, id)));
                assert forall|oid: i64| oid != c.id && #[trigger] stored_connection(start, oid) is Some implies {
                    let q = stored_connection(start, oid)->0;
                    if q.disconnected_at is None && q.session_id == session_id && q.device_id == device_id {
                        now_detached(db.rows(), q)
                    } else {
                        stored_connection(db.rows(), oid) == Some(q)
                    }
                } by {
                    let q = stored_connection(start, oid)->0;
                    let m = choose|m: int| 0 <= m < all@.len() && all@[m].id == oid;
                    assert(stored_connection(start, all@[m].id) == Some(all@[m]));
                    if q.disconnected_at is None && q.session_id == session_id && q.device_id == device_id {
                        assert(targets@.contains(all@[m]));
                        let k = choose|k: int| 0 <= k < targets@.len() && targets@[k] == all@[m];
                        assert(now_detached(middle, targets@[k]));
                    } else {
                        if among(targets@, oid) {
                            let k = choose|k: int| 0 <= k < targets@.len() && (#[trigger] targets@[k]).id == oid;
                            assert(all@.contains(targets@[k]));
                            let m2 = choose|m2: int| 0 <= m2 < all@.len() && all@[m2] == targets@[k];
                            assert(m2 == m);
                        }
                        assert(start.contains_key((Table::Connections, oid)));
                        assert(middle[(Table::Connections, oid)] == start[(Table::Connections, oid)]);
                    }
                }
                if one_attachment_per_client(start) {
                    assert forall|a: i64, b: i64| #[trigger] attached(db.rows(), a) && #[trigger] attached(db.rows(), b)
                        && stored_connection(db.rows(), a)->0.session_id == stored_connection(db.rows(), b)->0.session_id
                        && stored_connection(db.rows(), a)->0.device_id == stored_connection(db.rows(), b)->0.device_id implies a == b by {
                        if a != id && b != id {
                            assert(stored_connection(start, a) is Some);
                            assert(stored_connection(start, b) is Some);
                            assert(attached(start, a) && attached(start, b));
                        } else if a == id && b != id {
                            assert(stored_connection(start, b) is Some);
                        } else if b == id && a != id {
                            assert(stored_connection(start, a) is Some);
                        }
                    }
                }
                assert forall|oid: i64| oid != c.id && #[trigger] stored_connection(db.rows(), oid) is Some
                    implies stored_connection(start, oid) is Some by {
                    let key = (Table::Connections, oid);
                    assert(middle.contains_key(key));
                    assert(start.contains_key(key));
                    if !among(targets@, oid) {
                        assert(middle[key] == start[key]);
                    } else {
                        let k = choose|k: int| 0 <= k < targets@.len() && (#[trigger] targets@[k]).id == oid;
                        assert(stored_connection(start, targets@[k].id) == Some(targets@[k]));
                    }
                }
                assert forall|oid: i64| oid != c.id && #[trigger] attached(db.rows(), oid)
                    implies !(stored_connection(db.rows(), oid)->0.session_id == session_id
                    && stored_connection(db.rows(), oid)->0.device_id == device_id) by {
                    assert(stored_connection(db.rows(), oid) is Some);
                    assert(stored_connection(start, oid) is Some);
                }
            }
            Ok(c)
        },
        Err(e) => Err(IdeError::Database(e)),
    }
}

fn close_device_in(db: &mut Database, device_id: i64) -> (r: Result<usize>)
    ensures
        r matches Ok(n) ==> exists|targets: Seq<SessionClientConnection>| {
            &&& #[trigger] detached_all(old(db).rows(), final(db).rows(), targets)
            &&& targets.len() == n
            &&& forall|k: int| 0 <= k < targets.len() ==> stored_connection(old(db).rows(), (#[trigger] targets[k]).id) == Some(targets[k])
                && targets[k].device_id == Some(device_id) && targets[k].disconnected_at is None
            &&& forall|id: i64| #[trigger] attached(old(db).rows(), id)
                && stored_connection(old(db).rows(), id)->0.device_id == Some(device_id) ==> among(targets, id)
        },
        r matches Err(e) ==> e is Database,
{
    let all = match read_connections(db) {
        Ok(v) => v,
        Err(e) => return Err(e),
    };
    let targets = attached_of(&all, None, Some(device_id));
    proof {
        assert forall|k: int| 0 <= k < targets@.len() implies stored_connection(db.rows(), (#[trigger] targets@[k]).id) == Some(targets@[k]) by {
            let m = choose|m: int| 0 <= m < all@.len() && all@[m] == targets@[k];
        }
        assert forall|id: i64| #[trigger] attached(db.rows(), id) && stored_connection(db.rows(), id)->0.device_id == Some(device_id)
            implies among(targets@, id) by {
            let m = choose|m: int| 0 <= m < all@.len() && all@[m].id == id;
            assert(stored_connection(db.rows(), all@[m].id) == Some(all@[m]));
            assert(targets@.contains(all@[m]));
            let k = choose|k: int| 0 <= k < targets@.len() && targets@[k] == all@[m];
            assert(targets@[k].id == id);
        }
    }
    let ghost start = db.rows();
    match detach_all(db, &targets) {
        Ok(()) => {
            proof {
                assert(detached_all(start, db.rows(), targets@));
            }
            Ok(targets.len())
        },
        Err(e) => Err(e),
    }
}

} // verus!
