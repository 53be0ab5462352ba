//! Paired device registry.

use vstd::prelude::*;
use rand::rand_core::TryRng;
use crate::error::{IdeError, Result};
use crate::storage::rows::{StoredRow, Table, row_inserted};
use crate::storage::{Database, now, sql};
use crate::agent::session::clone_text_option;
use crate::text::{spec_trim, trim, str_eq, i64_to_text, spec_decimal, concat2, push_char};
use crate::order::{Ordered, sort, sorted, text_le, text_in_order, lemma_reorder_keeps_keys};

verus! {

/// A mobile device paired with this computer.
#[derive(Debug, Clone, PartialEq, Eq)]
pub struct PairedDevice {
    pub id: i64,
    pub device_name: String,
    /// Never sent to clients other than the device it was issued to.
    pub auth_token: String,
    pub paired_at: String,
    pub last_seen_at: Option<String>,
    pub revoked: bool,
    pub revoked_at: Option<String>,
}

/// The device stored under `id`, if any.
pub open spec fn stored_device(rows: Map<(Table, i64), StoredRow>, id: i64) -> Option<PairedDevice> {
    if rows.contains_key((Table::Devices, id)) {
        match rows[(Table::Devices, id)] {
            StoredRow::Device(d) => Some(d),
            _ => None,
        }
    } else {
        None
    }
}

/// Auth tokens carry 256 bits of entropy, stored as hex.
pub const AUTH_TOKEN_BYTES: usize = 32;

/// Lowercase hexadecimal digit of a value below 16.
pub open spec fn hex_digit(v: int) -> char {
    if v < 10 {
        ((v + 48) as u8) as char
    } else {
        ((v + 87) as u8) as char
    }
}

/// Lowercase hexadecimal text of `bytes`, two digits per byte.
pub open spec fn hex_text(bytes: Seq<u8>) -> Seq<char>
    decreases bytes.len(),
{
    if bytes.len() == 0 {
        Seq::empty()
    } else {
        hex_text(bytes.drop_last()) + seq![hex_digit((bytes.last() / 16) as int), hex_digit((bytes.last() % 16) as int)]
    }
}

proof fn lemma_hex_text_len(bytes: Seq<u8>)
    ensures
        hex_text(bytes).len() == 2 * bytes.len(),
    decreases bytes.len(),
{
    if bytes.len() > 0 {
        lemma_hex_text_len(bytes.drop_last());
    }
}

fn hex_digit_char(v: u8) -> (c: char)
    requires
        v < 16,
    ensures
        c == hex_digit(v as int),
{
    if v < 10 {
        (v + 48) as char
    } else {
        (v + 87) as char
    }
}

/// Lowercase hexadecimal text of `bytes`.
pub fn to_hex(bytes: &Vec<u8>) -> (r: String)
    ensures
        r@ == hex_text(bytes@),
{
    let mut s = String::new();
    let mut i: usize = 0;
    assert(bytes@.take(0) =~= Seq::<u8>::empty());
    while i < bytes.len()
        invariant
            i <= bytes.len(),
            s@ == hex_text(bytes@.take(i as int)),
        decreases bytes.len() - i,
    {
        let b = bytes[i];
        push_char(&mut s, hex_digit_char(b / 16));
        push_char(&mut s, hex_digit_char(b % 16));
        assert(bytes@.take(i + 1).drop_last() =~= bytes@.take(i as int));
        assert(s@ =~= hex_text(bytes@.take(i as int)) + seq![hex_digit((b / 16) as int), hex_digit((b % 16) as int)]);
        i = i + 1;
    }
    assert(bytes@.take(bytes.len() as int) =~= bytes@);
    s
}

/// Fills `AUTH_TOKEN_BYTES` bytes from the operating system's random source
/// with `rand::rngs::SysRng::try_fill_bytes`. Nothing is promised of the
/// bytes beyond their number.
#[verifier::external_body]
fn random_token_bytes() -> (r: core::result::Result<Vec<u8>, rand::rngs::SysError>)
    ensures
        r matches Ok(v) ==> v.len() == AUTH_TOKEN_BYTES,
{
    let mut bytes = [0u8; AUTH_TOKEN_BYTES];
    rand::rngs::SysRng.try_fill_bytes(&mut bytes)?;
    Ok(bytes.to_vec())
}

/// The text of a random source failure, as its `Display` writes it.
#[verifier::external_body]
fn random_error_text(e: &rand::rngs::SysError) -> (s: String) {
    format!("{e}")
}

/// Whether `message` reports that no fresh auth token could be had.
pub open spec fn token_failure(message: Seq<char>) -> bool {
    message.len() >= 31 && message.subrange(0, 31) == "failed to generate auth token: "@
}

/// Generate a cryptographically random auth token, hex encoded.
pub fn generate_auth_token() -> (r: Result<String>)
    ensures
        r matches Ok(t) ==> t@.len() == 2 * AUTH_TOKEN_BYTES && exists|bytes: Seq<u8>| bytes.len() == AUTH_TOKEN_BYTES && t@ == hex_text(bytes),
        r matches Err(e) ==> e is Validation && token_failure(e->Validation_0@),
{
    proof { reveal_strlit("failed to generate auth token: "); }
    match random_token_bytes() {
        Ok(bytes) => {
            let t = to_hex(&bytes);
            proof { lemma_hex_text_len(bytes@); }
            Ok(t)
        },
        Err(e) => {
            let t = random_error_text(&e);
            let m = concat2("failed to generate auth token: ", t.as_str());
            assert(m@.subrange(0, 31) =~= "failed to generate auth token: "@);
            Err(IdeError::Validation(m))
        },
    }
}

/// The not-found error for device `id`.
pub open spec fn device_not_found(id: i64) -> Seq<char> {
    "device "@ + spec_decimal(id as int)
}

/// No two stored devices hold the same auth token.
pub open spec fn tokens_unique(rows: Map<(Table, i64), StoredRow>) -> bool {
    forall|a: i64, b: i64|
        #[trigger] stored_device(rows, a) is Some && #[trigger] stored_device(rows, b) is Some
            && stored_device(rows, a)->0.auth_token@ == stored_device(rows, b)->0.auth_token@ ==> a == b
}

/// Whether some stored device holds `token`.
pub open spec fn token_issued(rows: Map<(Table, i64), StoredRow>, token: Seq<char>) -> bool {
    exists|id: i64| #[trigger] stored_device(rows, id) is Some && stored_device(rows, id)->0.auth_token@ == token
}

/// `listed` holds every stored device exactly once.
pub open spec fn lists_devices(rows: Map<(Table, i64), StoredRow>, listed: Seq<PairedDevice>) -> bool {
    &&& forall|i: int| 0 <= i < listed.len() ==> stored_device(rows, #[trigger] listed[i].id) == Some(listed[i])
    &&& forall|id: i64| #[trigger] stored_device(rows, id) is Some ==> exists|i: int| 0 <= i < listed.len() && listed[i].id == id
    &&& forall|i: int, j: int| 0 <= i < j < listed.len() ==> #[trigger] listed[i].id != #[trigger] listed[j].id
}

/// Devices are listed most recently paired first.
impl Ordered for PairedDevice {
    open spec fn precedes(&self, other: &Self) -> bool {
        text_le(other.paired_at@, self.paired_at@)
    }

    proof fn lemma_total(a: &Self, b: &Self) {
        crate::order::lemma_text_le_total(a.paired_at@, b.paired_at@);
    }

    proof fn lemma_transitive(a: &Self, b: &Self, c: &Self) {
        crate::order::lemma_text_le_transitive(c.paired_at@, b.paired_at@, a.paired_at@);
    }

    fn in_order(&self, other: &Self) -> (r: bool) {
        text_in_order(other.paired_at.as_str(), self.paired_at.as_str())
    }
}

impl PairedDevice {
    /// A field-by-field copy.
    pub fn clone_device(&self) -> (r: PairedDevice)
        ensures
            r == *self,
    {
        PairedDevice {
            id: self.id,
            device_name: self.device_name.clone(),
            auth_token: self.auth_token.clone(),
            paired_at: self.paired_at.clone(),
            last_seen_at: clone_text_option(&self.last_seen_at),
            revoked: self.revoked,
            revoked_at: clone_text_option(&self.revoked_at),
        }
    }
}

/// Reads the device stored under `id`.
pub fn read_device(db: &Database, id: i64) -> (r: Result<PairedDevice>)
    ensures
        r matches Ok(d) ==> stored_device(db.rows(), id) == Some(d) && d.id == id,
        r matches Err(e) ==> (e is NotFound && stored_device(db.rows(), id) is None
            && e->NotFound_0@ == device_not_found(id)) || e is Database,
        stored_device(db.rows(), id) is None ==> r is Err,
{
    match sql::select_device(db, id) {
        Ok(Some(d)) => Ok(d),
        Ok(None) => {
            let t = i64_to_text(id);
            proof { reveal_strlit("device "); }
            Err(IdeError::NotFound(concat2("device ", t.as_str())))
        },
        Err(e) => Err(IdeError::Database(e)),
    }
}

/// Reads every stored device, in no particular order.
fn read_devices(db: &Database) -> (r: Result<Vec<PairedDevice>>)
    ensures
        r matches Ok(v) ==> lists_devices(db.rows(), v@),
        r matches Err(e) ==> e is Database,
{
    match sql::select_all_devices(db) {
        Ok(v) => {
            proof {
                let listed = v@.map_values(|d: PairedDevice| (d.id, StoredRow::Device(d)));
                assert forall|i: int| 0 <= i < v@.len() implies stored_device(db.rows(), #[trigger] v@[i].id) == Some(v@[i]) by {
                    assert(listed[i] == (v@[i].id, StoredRow::Device(v@[i])));
                    assert(db.rows().contains_key((Table::Devices, listed[i].0)));
                }
                assert forall|id: i64| #[trigger] stored_device(db.rows(), id) is Some implies exists|i: int| 0 <= i < v@.len() && v@[i].id == id by {
                    assert(db.rows().contains_key((Table::Devices, id)));
                    let i = choose|i: int| 0 <= i < listed.len() && #[trigger] listed[i].0 == id;
                    assert(listed[i] == (v@[i].id, StoredRow::Device(v@[i])));
                }
                assert forall|i: int, j: int| 0 <= i < j < v@.len() implies #[trigger] v@[i].id != #[trigger] v@[j].id by {
                    assert(listed[i].0 == v@[i].id && listed[j].0 == v@[j].id);
                }
            }
            Ok(v)
        },
        Err(e) => Err(IdeError::Database(e)),
    }
}

/// The first of `devices` that holds `token` and is not revoked.
fn find_live_token(devices: &Vec<PairedDevice>, token: &str) -> (r: Option<usize>)
    ensures
        r matches Some(i) ==> i < devices.len() && devices@[i as int].auth_token@ == token@ && !devices@[i as int].revoked,
        r is None ==> forall|i: int| 0 <= i < devices.len() && devices@[i].auth_token@ == token@ ==> devices@[i].revoked,
{
    let mut i: usize = 0;
    while i < devices.len()
        invariant
            i <= devices.len(),
            forall|j: int| 0 <= j < i && devices@[j].auth_token@ == token@ ==> devices@[j].revoked,
        decreases devices.len() - i,
    {
        if str_eq(devices[i].auth_token.as_str(), token) && !devices[i].revoked {
            return Some(i);
        }
        i = i + 1;
    }
    None
}

/// Whether some stored device holds `token` and is not revoked.
pub open spec fn live_token(rows: Map<(Table, i64), StoredRow>, token: Seq<char>) -> bool {
    exists|id: i64| #[trigger] stored_device(rows, id) is Some && stored_device(rows, id)->0.auth_token@ == token
        && !stored_device(rows, id)->0.revoked
}

/// While tokens are unique, a token names one device: a device that
/// authenticates with the token of stored device `id` is that device.
pub proof fn lemma_token_names_one_device(rows: Map<(Table, i64), StoredRow>, id: i64, other: i64)
    requires
        tokens_unique(rows),
        stored_device(rows, id) is Some,
        stored_device(rows, other) is Some,
        stored_device(rows, other)->0.auth_token@ == stored_device(rows, id)->0.auth_token@,
    ensures
        other == id,
{
}

/// Rewriting a device without changing its token keeps tokens unique.
proof fn lemma_same_token_keeps_unique(
    before: Map<(Table, i64), StoredRow>,
    after: Map<(Table, i64), StoredRow>,
    id: i64,
    d: PairedDevice,
)
    requires
        tokens_unique(before),
        stored_device(before, id) is Some,
        d.auth_token@ == stored_device(before, id)->0.auth_token@,
        after == before.insert((Table::Devices, id), StoredRow::Device(d)),
    ensures
        tokens_unique(after),
{
    assert forall|a: i64, b: i64|
        #[trigger] stored_device(after, a) is Some && #[trigger] stored_device(after, b) is Some
        && stored_device(after, a)->0.auth_token@ == stored_device(after, b)->0.auth_token@ implies a == b by {
        if a != id {
            assert(stored_device(after, a) == stored_device(before, a));
        }
        if b != id {
            assert(stored_device(after, b) == stored_device(before, b));
        }
    }
}

pub struct PairedDeviceRepository<'a> {
    pub db: &'a mut Database,
}

impl<'a> PairedDeviceRepository<'a> {
    pub fn new(db: &'a mut Database) -> (r: Self)
        ensures
            *r.db == *old(db),
            *final(db) == *final(r.db),
    {
        PairedDeviceRepository { db }
    }

    /// Pair a device, returning the record with its freshly issued token.
    pub fn create(&mut self, device_name: &str) -> (r: Result<PairedDevice>)
        ensures
            *final(final(self).db) == *final(old(self).db),
            spec_trim(device_name@).len() == 0 ==> r is Err && r->Err_0 is Validation,
            r matches Ok(d) ==> {
                &&& d.device_name@ == spec_trim(device_name@)
                &&& d.auth_token@.len() == 2 * AUTH_TOKEN_BYTES
                &&& !token_issued(old(self).db.rows(), d.auth_token@)
                &&& !d.revoked && d.revoked_at is None && d.last_seen_at is None
                &&& row_inserted(old(self).db.rows(), final(self).db.rows(), (Table::Devices, d.id), StoredRow::Device(d))
            },
            r is Ok && tokens_unique(old(self).db.rows()) ==> tokens_unique(final(self).db.rows()),
            r matches Err(e) ==> final(self).db.rows() == old(self).db.rows() && (e is Validation || e is Database),
            spec_trim(device_name@).len() > 0 ==> r is Ok || r->Err_0 is Database
                || (r->Err_0 is Validation && token_failure(r->Err_0->Validation_0@)),
    {
        proof { reveal_strlit("failed to generate auth token: "); }
        let name = trim(device_name);
        if name.unicode_len() == 0 {
            return Err(IdeError::Validation("device name must not be empty".to_string()));
        }
        let token = match generate_auth_token() {
            Ok(t) => t,
            Err(e) => return Err(e),
        };
        let row = PairedDevice {
            id: 0,
            device_name: name,
            auth_token: token,
            paired_at: now(),
            last_seen_at: None,
            revoked: false,
            revoked_at: None,
        };
        let ghost before = self.db.rows();
        match sql::insert_device(self.db, &row) {
            Ok(id) => {
                let device = PairedDevice { id, ..row };
                proof {
                    if tokens_unique(before) {
                        assert forall|a: i64, b: i64|
                            #[trigger] stored_device(self.db.rows(), a) is Some && #[trigger] stored_device(self.db.rows(), b) is Some
                            && stored_device(self.db.rows(), a)->0.auth_token@ == stored_device(self.db.rows(), b)->0.auth_token@ implies a == b by {
                            if a != id {
                                assert(stored_device(self.db.rows(), a) == stored_device(before, a));
                            }
                            if b != id {
                                assert(stored_device(self.db.rows(), b) == stored_device(before, b));
                            }
                        }
                    }
                }
                Ok(device)
            },
            Err(e) => Err(IdeError::Database(e)),
        }
    }

    pub fn get(&self, id: i64) -> (r: Result<PairedDevice>)
        ensures
            r matches Ok(d) ==> stored_device(old(self.db).rows(), id) == Some(d) && d.id == id,
            r matches Err(e) ==> (e is NotFound && stored_device(old(self.db).rows(), id) is None
                && e->NotFound_0@ == device_not_found(id)) || e is Database,
            stored_device(old(self.db).rows(), id) is None ==> r is Err,
    {
        read_device(self.db, id)
    }

    /// The device holding `token`. Unknown and revoked tokens are refused.
    pub fn authenticate(&self, token: &str) -> (r: Result<PairedDevice>)
        ensures
            r matches Ok(d) ==> stored_device(old(self.db).rows(), d.id) == Some(d) && d.auth_token@ == token@ && !d.revoked,
            r matches Err(e) ==> e is Database || e is InvalidToken,
            r matches Err(e) && e is InvalidToken ==> !live_token(old(self.db).rows(), token@),
            live_token(old(self.db).rows(), token@) ==> r is Ok || r->Err_0 is Database,
            !live_token(old(self.db).rows(), token@) ==> r is Err,
    {
        let devices = match read_devices(self.db) {
            Ok(v) => v,
            Err(e) => return Err(e),
        };
        match find_live_token(&devices, token) {
            Some(i) => {
                proof { assert(stored_device(self.db.rows(), devices@[i as int].id) == Some(devices@[i as int])); }
                Ok(devices[i].clone_device())
            },
            None => {
                proof {
                    if live_token(self.db.rows(), token@) {
                        let id = choose|id: i64| #[trigger] stored_device(self.db.rows(), id) is Some
                            && stored_device(self.db.rows(), id)->0.auth_token@ == token@ && !stored_device(self.db.rows(), id)->0.revoked;
                        let k = choose|k: int| 0 <= k < devices@.len() && devices@[k].id == id;
                        assert(stored_device(self.db.rows(), devices@[k].id) == Some(devices@[k]));
                    }
                }
                Err(IdeError::InvalidToken)
            },
        }
    }

    /// Every device, most recently paired first.
    pub fn list(&self) -> (r: Result<Vec<PairedDevice>>)
        ensures
            r matches Ok(v) ==> lists_devices(old(self.db).rows(), v@) && sorted(v@),
            r matches Err(e) ==> e is Database,
    {
        let devices = match read_devices(self.db) {
            Ok(v) => v,
            Err(e) => return Err(e),
        };
        let ghost before = devices@;
        let out = sort(devices);
        proof {
            lemma_reorder_keeps_keys(before, out@, |d: PairedDevice| d.id);
            assert forall|k: int| 0 <= k < out@.len() implies stored_device(self.db.rows(), #[trigger] out@[k].id) == Some(out@[k]) by {
                assert(before.contains(out@[k]));
                let m = choose|m: int| 0 <= m < before.len() && before[m] == out@[k];
                assert(stored_device(self.db.rows(), before[m].id) == Some(before[m]));
            }
            assert forall|id: i64| #[trigger] stored_device(self.db.rows(), id) is Some implies exists|k: int| 0 <= k < out@.len() && out@[k].id == id by {
                let m = choose|m: int| 0 <= m < before.len() && before[m].id == id;
                assert(out@.contains(before[m]));
            }
            assert forall|a: int, b: int| 0 <= a < b < out@.len() implies #[trigger] out@[a].id != #[trigger] out@[b].id by {
                assert((|d: PairedDevice| d.id)(out@[a]) != (|d: PairedDevice| d.id)(out@[b]));
            }
        }
        Ok(out)
    }

    /// Record that a device was just seen. Unknown devices are ignored.
    pub fn touch_last_seen(&mut self, id: i64) -> (r: Result<()>)
        ensures
            *final(final(self).db) == *final(old(self).db),
            stored_device(old(self).db.rows(), id) is None && r is Ok ==> final(self).db.rows() == old(self).db.rows(),
            r is Ok && stored_device(old(self).db.rows(), id) is Some ==> {
                let q = stored_device(old(self).db.rows(), id)->0;
                exists|d: PairedDevice| {
                    &&& d.id == id && d.device_name == q.device_name && d.auth_token == q.auth_token
                    &&& d.paired_at == q.paired_at && d.revoked == q.revoked && d.revoked_at == q.revoked_at
                    &&& d.last_seen_at is Some
                    &&& final(self).db.rows() == old(self).db.rows().insert((Table::Devices, id), StoredRow::Device(d))
                }
            },
            r matches Err(e) ==> final(self).db.rows() == old(self).db.rows() && e is Database,
            tokens_unique(old(self).db.rows()) ==> tokens_unique(final(self).db.rows()),
    {
        let current = match sql::select_device(self.db, id) {
            Ok(Some(d)) => d,
            Ok(None) => return Ok(()),
            Err(e) => return Err(IdeError::Database(e)),
        };
        let updated = PairedDevice { last_seen_at: Some(now()), ..current };
        let ghost before = self.db.rows();
        match sql::update_device(self.db, &updated) {
            Ok(_) => {
                proof {
                    if tokens_unique(before) {
                        assert(stored_device(before, id) == Some(current));
                        lemma_same_token_keeps_unique(before, self.db.rows(), id, updated);
                    }
                }
                Ok(())
            },
            Err(e) => Err(IdeError::Database(e)),
        }
    }

    /// Revoke a device. Revocation is permanent and idempotent.
    pub fn revoke(&mut self, id: i64) -> (r: Result<PairedDevice>)
        ensures
            *final(final(self).db) == *final(old(self).db),
            stored_device(old(self).db.rows(), id) is None ==> r is Err,
            r matches Ok(d) ==> {
                let q = stored_device(old(self).db.rows(), id)->0;
                &&& stored_device(old(self).db.rows(), id) is Some
                &&& d.revoked && d.id == id
                &&& !q.revoked ==> d.revoked_at is Some
                &&& d.device_name == q.device_name && d.auth_token == q.auth_token && d.paired_at == q.paired_at
                &&& d.last_seen_at == q.last_seen_at
                &&& if q.revoked {
                    d == q && final(self).db.rows() == old(self).db.rows()
                } else {
                    final(self).db.rows() == old(self).db.rows().insert((Table::Devices, id), StoredRow::Device(d))
                }
            },
            r matches Err(e) ==> final(self).db.rows() == old(self).db.rows() && (e is Database
                || (e is NotFound && stored_device(old(self).db.rows(), id) is None && e->NotFound_0@ == device_not_found(id))),
            tokens_unique(old(self).db.rows()) ==> tokens_unique(final(self).db.rows()),
    {
        let current = match read_device(self.db, id) {
            Ok(d) => d,
            Err(e) => return Err(e),
        };
        if current.revoked {
            return Ok(current);
        }
        let updated = PairedDevice { revoked: true, revoked_at: Some(now()), ..current };
        let ghost before = self.db.rows();
        match sql::update_device(self.db, &updated) {
            Ok(_) => {
                proof {
                    if tokens_unique(before) {
                        lemma_same_token_keeps_unique(before, self.db.rows(), id, updated);
                    }
                }
                Ok(updated)
            },
            Err(e) => Err(IdeError::Database(e)),
        }
    }
}

} // verus!
