//! The durable key-value layout of profiles, series and pulls, with the
//! `downloading-<id>` index kept beside the `torrent-<key>` records.
use vstd::prelude::*;
use vstd::utf8::{decode_utf8, encode_utf8, valid_utf8};
use crate::model::{PullEntry, Profile, Series, pull_key};
use crate::text::{push_signed_decimal, signed_dec_str};

verus! {

broadcast use vstd::utf8::encode_utf8_decode_utf8;

#[verifier::external_type_specification]
#[verifier::external_body]
pub struct ExDb(sled::Db);

#[verifier::external_type_specification]
#[verifier::external_body]
pub struct ExSledError(sled::Error);

/// What a database holds: its keys and values, as bytes.
pub uninterp spec fn db_contents(db: sled::Db) -> Map<Seq<u8>, Seq<u8>>;

pub open spec fn has_prefix(k: Seq<u8>, p: Seq<u8>) -> bool {
    p.len() <= k.len() && k.subrange(0, p.len() as int) == p
}

/// Byte strings in lexicographic order.
pub open spec fn bytes_lt(a: Seq<u8>, b: Seq<u8>) -> bool
    decreases a.len(),
{
    if a.len() == 0 {
        b.len() > 0
    } else if b.len() == 0 {
        false
    } else if a[0] != b[0] {
        a[0] < b[0]
    } else {
        bytes_lt(a.drop_first(), b.drop_first())
    }
}

/// Relies on `sled::Tree::get`: the value stored under the key, if any.
#[verifier::external_body]
fn db_get(db: &sled::Db, key: &str) -> (r: Result<Option<Vec<u8>>, sled::Error>)
    ensures
        r matches Ok(v) ==> (v is Some <==> db_contents(*db).contains_key(encode_utf8(key@))),
        r matches Ok(Some(v)) ==> v@ == db_contents(*db)[encode_utf8(key@)],
{
    db.get(key.as_bytes()).map(|v| v.map(|v| v.to_vec()))
}

/// Relies on `sled::Tree::contains_key`: whether a value is stored under the key.
#[verifier::external_body]
fn db_contains_key(db: &sled::Db, key: &str) -> (r: Result<bool, sled::Error>)
    ensures
        r matches Ok(b) ==> b == db_contents(*db).contains_key(encode_utf8(key@)),
{
    db.contains_key(key.as_bytes())
}

/// Relies on `sled::Tree::insert`: stores the value under the key.
#[verifier::external_body]
fn db_insert(db: &mut sled::Db, key: &str, value: &[u8]) -> (r: Result<(), sled::Error>)
    ensures
        r is Ok ==> db_contents(*final(db)) == db_contents(*old(db)).insert(encode_utf8(key@), value@),
{
    db.insert(key.as_bytes(), value).map(|_| ())
}

/// Relies on `sled::Tree::remove`: drops the key and its value.
#[verifier::external_body]
fn db_remove(db: &mut sled::Db, key: &str) -> (r: Result<(), sled::Error>)
    ensures
        r is Ok ==> db_contents(*final(db)) == db_contents(*old(db)).remove(encode_utf8(key@)),
{
    db.remove(key.as_bytes()).map(|_| ())
}

/// Relies on `sled::Tree::scan_prefix`: the entries whose keys begin with
/// the prefix, each once, in ascending key order.
#[verifier::external_body]
fn db_scan_prefix(db: &sled::Db, prefix: &str) -> (r: Result<Vec<(Vec<u8>, Vec<u8>)>, sled::Error>)
    ensures
        r matches Ok(v) ==> {
            &&& forall|i: int|
                0 <= i < v.len() ==> {
                    &&& has_prefix(#[trigger] v@[i].0@, encode_utf8(prefix@))
                    &&& db_contents(*db).contains_key(v@[i].0@)
                    &&& db_contents(*db)[v@[i].0@] == v@[i].1@
                }
            &&& forall|k: Seq<u8>|
                #![trigger db_contents(*db).contains_key(k)]
                db_contents(*db).contains_key(k) && has_prefix(k, encode_utf8(prefix@)) ==> exists|
                    i: int,
                | 0 <= i < v.len() && v@[i].0@ == k
            &&& forall|i: int, j: int| 0 <= i < j < v.len() ==> bytes_lt(v@[i].0@, v@[j].0@)
        },
{
    db.scan_prefix(prefix.as_bytes()).map(|e| e.map(|(k, v)| (k.to_vec(), v.to_vec()))).collect()
}

/// Relies on `sled::Tree::flush`: writes dirty buffers to disk; what the
/// database holds is unchanged.
#[verifier::external_body]
fn db_flush(db: &sled::Db) -> (r: Result<(), sled::Error>) {
    db.flush().map(|_| ())
}

/// Relies on `String::from_utf8`: the text that valid UTF-8 bytes encode;
/// an error for any other bytes.
#[verifier::external_body]
fn utf8_text(b: Vec<u8>) -> (r: Option<String>)
    ensures
        r is Some <==> valid_utf8(b@),
        r matches Some(s) ==> s@ == decode_utf8(b@),
{
    String::from_utf8(b).ok()
}

/// Why a store operation failed.
#[derive(Debug)]
pub enum StoreError {
    /// The database reported an error.
    Db(sled::Error),
    /// A stored key or value is not valid UTF-8.
    NotText,
    /// A `downloading-<id>` entry names a pull that is not stored.
    DanglingKey,
}

pub open spec fn profile_key(name: Seq<char>) -> Seq<char> {
    "profile-"@ + name
}

pub open spec fn series_key(name: Seq<char>) -> Seq<char> {
    "series-"@ + name
}

/// The key of a pull's record.
pub open spec fn torrent_key(key: Seq<char>) -> Seq<char> {
    "torrent-"@ + key
}

/// The key of the index entry of a sink's torrent id.
pub open spec fn downloading_key(id: i64) -> Seq<char> {
    "downloading-"@ + signed_dec_str(id as int)
}

/// The bytes a key is stored under.
pub open spec fn kb(key: Seq<char>) -> Seq<u8> {
    encode_utf8(key)
}

/// The store after a pull is saved: its record under `torrent-<key>`, and,
/// where it has a torrent id, the index entry `downloading-<id>` naming its key.
pub open spec fn saved_pull(m: Map<Seq<u8>, Seq<u8>>, p: PullEntry, record: Seq<u8>) -> Map<
    Seq<u8>,
    Seq<u8>,
> {
    let m1 = m.insert(kb(torrent_key(pull_key(p.result.parsed))), record);
    match p.torrent_id {
        Some(id) => m1.insert(kb(downloading_key(id)), kb(pull_key(p.result.parsed))),
        None => m1,
    }
}

/// The store after a pull is deleted: its index entry, if any, and its record are gone.
pub open spec fn deleted_pull(m: Map<Seq<u8>, Seq<u8>>, p: PullEntry) -> Map<Seq<u8>, Seq<u8>> {
    let m1 = match p.torrent_id {
        Some(id) => m.remove(kb(downloading_key(id))),
        None => m,
    };
    m1.remove(kb(torrent_key(pull_key(p.result.parsed))))
}

/// The store after a pull's torrent id is cleared and the pull saved again.
pub open spec fn cleared_pull(m: Map<Seq<u8>, Seq<u8>>, p: PullEntry, record: Seq<u8>) -> Map<
    Seq<u8>,
    Seq<u8>,
> {
    let m1 = match p.torrent_id {
        Some(id) => m.remove(kb(downloading_key(id))),
        None => m,
    };
    m1.insert(kb(torrent_key(pull_key(p.result.parsed))), record)
}

/// The record that the index entry of a torrent id leads to: `None` where
/// there is no such entry or no record under the key it names.
pub open spec fn indexed_record(m: Map<Seq<u8>, Seq<u8>>, id: i64) -> Option<Seq<u8>> {
    if !m.contains_key(kb(downloading_key(id))) {
        None
    } else {
        let target = kb(torrent_key(decode_utf8(m[kb(downloading_key(id))])));
        if m.contains_key(target) {
            Some(m[target])
        } else {
            None
        }
    }
}

/// The entries stored under keys that begin with the prefix, each once.
pub open spec fn entries_under(
    m: Map<Seq<u8>, Seq<u8>>,
    prefix: Seq<char>,
    es: Seq<(Vec<u8>, Vec<u8>)>,
) -> bool {
    &&& forall|i: int|
        0 <= i < es.len() ==> {
            &&& has_prefix(#[trigger] es[i].0@, kb(prefix))
            &&& m.contains_key(es[i].0@)
            &&& m[es[i].0@] == es[i].1@
        }
    &&& forall|k: Seq<u8>|
        #![trigger m.contains_key(k)]
        m.contains_key(k) && has_prefix(k, kb(prefix)) ==> exists|i: int|
            0 <= i < es.len() && es[i].0@ == k
    &&& forall|i: int, j: int| 0 <= i < j < es.len() ==> bytes_lt(es[i].0@, es[j].0@)
}

/// The record key an index entry names: `torrent-<its value as text>`.
pub open spec fn index_target(m: Map<Seq<u8>, Seq<u8>>, k: Seq<u8>) -> Seq<u8> {
    kb(torrent_key(decode_utf8(m[k])))
}

pub open spec fn is_index_key(m: Map<Seq<u8>, Seq<u8>>, k: Seq<u8>) -> bool {
    m.contains_key(k) && has_prefix(k, kb("downloading-"@))
}

/// The listing of the index: every index entry once, in ascending key
/// order, each with the record it names.
pub open spec fn index_listing(m: Map<Seq<u8>, Seq<u8>>, es: Seq<(Vec<u8>, Vec<u8>)>) -> bool {
    &&& forall|i: int|
        0 <= i < es.len() ==> {
            &&& is_index_key(m, #[trigger] es[i].0@)
            &&& m.contains_key(index_target(m, es[i].0@))
            &&& m[index_target(m, es[i].0@)] == es[i].1@
        }
    &&& forall|k: Seq<u8>|
        #![trigger is_index_key(m, k)]
        is_index_key(m, k) ==> exists|i: int| 0 <= i < es.len() && es[i].0@ == k
    &&& forall|i: int, j: int| 0 <= i < j < es.len() ==> bytes_lt(es[i].0@, es[j].0@)
}

/// Some index entry holds a value that is not UTF-8 text.
pub open spec fn index_has_non_text(m: Map<Seq<u8>, Seq<u8>>) -> bool {
    exists|k: Seq<u8>| #[trigger] is_index_key(m, k) && !valid_utf8(m[k])
}

/// Some index entry names a record that is not stored.
pub open spec fn index_dangles(m: Map<Seq<u8>, Seq<u8>>) -> bool {
    exists|k: Seq<u8>|
        #[trigger] is_index_key(m, k) && valid_utf8(m[k]) && !m.contains_key(index_target(m, k))
}

/// The durable store.
pub struct Database {
    db: sled::Db,
}

impl View for Database {
    type V = Map<Seq<u8>, Seq<u8>>;

    closed spec fn view(&self) -> Map<Seq<u8>, Seq<u8>> {
        db_contents(self.db)
    }
}

fn copy_bytes(v: &Vec<u8>) -> (r: Vec<u8>)
    ensures
        r@ == v@,
{
    let r = v.clone();
    assert(r@ =~= v@);
    r
}

fn concat(a: &str, b: &str) -> (r: String)
    ensures
        r@ == a@ + b@,
{
    let mut s = a.to_owned();
    s.append(b);
    s
}

fn downloading_key_of(id: i64) -> (r: String)
    ensures
        r@ == downloading_key(id),
{
    let mut s = String::from_str("downloading-");
    push_signed_decimal(&mut s, id);
    s
}

impl Database {
    pub fn new(db: sled::Db) -> (r: Database)
        ensures
            r@ == db_contents(db),
    {
        Database { db }
    }

    /// Writes what is buffered to disk.
    pub fn flush(&self) -> (r: Result<(), StoreError>)
        ensures
            r matches Err(e) ==> e is Db,
    {
        match db_flush(&self.db) {
            Ok(()) => Ok(()),
            Err(e) => Err(StoreError::Db(e)),
        }
    }

    fn get_raw(&self, key: &str) -> (r: Result<Option<Vec<u8>>, StoreError>)
        ensures
            r matches Err(e) ==> e is Db,
            r matches Ok(v) ==> (v is Some <==> self@.contains_key(kb(key@))),
            r matches Ok(Some(v)) ==> v@ == self@[kb(key@)],
    {
        match db_get(&self.db, key) {
            Ok(v) => Ok(v),
            Err(e) => Err(StoreError::Db(e)),
        }
    }

    fn put_raw(&mut self, key: &str, value: &[u8]) -> (r: Result<(), StoreError>)
        ensures
            r matches Err(e) ==> e is Db,
            r is Ok ==> final(self)@ == old(self)@.insert(kb(key@), value@),
    {
        match db_insert(&mut self.db, key, value) {
            Ok(()) => Ok(()),
            Err(e) => Err(StoreError::Db(e)),
        }
    }

    fn remove_raw(&mut self, key: &str) -> (r: Result<(), StoreError>)
        ensures
            r matches Err(e) ==> e is Db,
            r is Ok ==> final(self)@ == old(self)@.remove(kb(key@)),
    {
        match db_remove(&mut self.db, key) {
            Ok(()) => Ok(()),
            Err(e) => Err(StoreError::Db(e)),
        }
    }

    /// The entries whose keys begin with `prefix`, in key order.
    fn list_raw(&self, prefix: &str) -> (r: Result<Vec<(Vec<u8>, Vec<u8>)>, StoreError>)
        ensures
            r matches Err(e) ==> e is Db,
            r matches Ok(es) ==> entries_under(self@, prefix@, es@),
    {
        match db_scan_prefix(&self.db, prefix) {
            Ok(v) => Ok(v),
            Err(e) => Err(StoreError::Db(e)),
        }
    }

    /// Stores a profile's record under `profile-<name>`.
    pub fn save_profile(&mut self, profile: &Profile, record: &[u8]) -> (r: Result<(), StoreError>)
        ensures
            r matches Err(e) ==> e is Db,
            r is Ok ==> final(self)@ == old(self)@.insert(kb(profile_key(profile.name@)), record@),
    {
        let key = concat("profile-", profile.name.as_str());
        self.put_raw(key.as_str(), record)
    }

    pub fn delete_profile(&mut self, name: &str) -> (r: Result<(), StoreError>)
        ensures
            r matches Err(e) ==> e is Db,
            r is Ok ==> final(self)@ == old(self)@.remove(kb(profile_key(name@))),
    {
        let key = concat("profile-", name);
        self.remove_raw(key.as_str())
    }

    /// The record stored under `profile-<name>`, if any.
    pub fn get_profile(&self, name: &str) -> (r: Result<Option<Vec<u8>>, StoreError>)
        ensures
            r matches Err(e) ==> e is Db,
            r matches Ok(v) ==> (v is Some <==> self@.contains_key(kb(profile_key(name@)))),
            r matches Ok(Some(v)) ==> v@ == self@[kb(profile_key(name@))],
    {
        let key = concat("profile-", name);
        self.get_raw(key.as_str())
    }

    /// The records of all profiles, in key order.
    pub fn list_profile(&self) -> (r: Result<Vec<(Vec<u8>, Vec<u8>)>, StoreError>)
        ensures
            r matches Err(e) ==> e is Db,
            r matches Ok(vs) ==> entries_under(self@, "profile-"@, vs@),
    {
        self.list_raw("profile-")
    }

    /// Stores a series' record under `series-<name>`.
    pub fn save_series(&mut self, series: &Series, record: &[u8]) -> (r: Result<(), StoreError>)
        ensures
            r matches Err(e) ==> e is Db,
            r is Ok ==> final(self)@ == old(self)@.insert(kb(series_key(series.name@)), record@),
    {
        let key = concat("series-", series.name.as_str());
        self.put_raw(key.as_str(), record)
    }

    pub fn delete_series(&mut self, name: &str) -> (r: Result<(), StoreError>)
        ensures
            r matches Err(e) ==> e is Db,
            r is Ok ==> final(self)@ == old(self)@.remove(kb(series_key(name@))),
    {
        let key = concat("series-", name);
        self.remove_raw(key.as_str())
    }

    /// The record stored under `series-<name>`, if any.
    pub fn get_series(&self, name: &str) -> (r: Result<Option<Vec<u8>>, StoreError>)
        ensures
            r matches Err(e) ==> e is Db,
            r matches Ok(v) ==> (v is Some <==> self@.contains_key(kb(series_key(name@)))),
            r matches Ok(Some(v)) ==> v@ == self@[kb(series_key(name@))],
    {
        let key = concat("series-", name);
        self.get_raw(key.as_str())
    }

    /// The records of all series, in key order.
    pub fn list_series(&self) -> (r: Result<Vec<(Vec<u8>, Vec<u8>)>, StoreError>)
        ensures
            r matches Err(e) ==> e is Db,
            r matches Ok(vs) ==> entries_under(self@, "series-"@, vs@),
    {
        self.list_raw("series-")
    }

    /// Saves a pull: `record` under `torrent-<key>`, then, where the pull has
    /// a torrent id, the pull's key under `downloading-<id>`.
    pub fn save_pull(&mut self, pull: &PullEntry, record: &[u8]) -> (r: Result<(), StoreError>)
        ensures
            r matches Err(e) ==> e is Db,
            r is Ok ==> final(self)@ == saved_pull(old(self)@, *pull, record@),
    {
        let key = pull.key();
        let tkey = concat("torrent-", key.as_str());
        self.put_raw(tkey.as_str(), record)?;
        if let Some(id) = pull.torrent_id {
            let dkey = downloading_key_of(id);
            self.put_raw(dkey.as_str(), key.as_str().as_bytes())?;
        }
        Ok(())
    }

    /// Deletes a pull: its index entry first, where it has a torrent id, then its record.
    pub fn delete_pull(&mut self, pull: PullEntry) -> (r: Result<(), StoreError>)
        ensures
            r matches Err(e) ==> e is Db,
            r is Ok ==> final(self)@ == deleted_pull(old(self)@, pull),
    {
        if let Some(id) = pull.torrent_id {
            let dkey = downloading_key_of(id);
            self.remove_raw(dkey.as_str())?;
        }
        let key = pull.key();
        let tkey = concat("torrent-", key.as_str());
        self.remove_raw(tkey.as_str())
    }

    /// Takes the torrent id out of the pull, drops its index entry, and saves
    /// the pull as `record`, which is the stored form of the pull without its id.
    pub fn clear_torrent_id(&mut self, pull: &mut PullEntry, record: &[u8]) -> (r: Result<
        (),
        StoreError,
    >)
        ensures
            r matches Err(e) ==> e is Db,
            *final(pull) == (PullEntry { torrent_id: None, ..*old(pull) }),
            r is Ok ==> final(self)@ == cleared_pull(old(self)@, *old(pull), record@),
    {
        let taken = pull.torrent_id.take();
        if let Some(id) = taken {
            let dkey = downloading_key_of(id);
            self.remove_raw(dkey.as_str())?;
        }
        self.save_pull(pull, record)
    }

    /// Whether a record is stored under `torrent-<key>`.
    pub fn exists_pull_entry(&self, key: &str) -> (r: Result<bool, StoreError>)
        ensures
            r matches Err(e) ==> e is Db,
            r matches Ok(b) ==> b == self@.contains_key(kb(torrent_key(key@))),
    {
        let tkey = concat("torrent-", key);
        match db_contains_key(&self.db, tkey.as_str()) {
            Ok(b) => Ok(b),
            Err(e) => Err(StoreError::Db(e)),
        }
    }

    /// The record stored under `torrent-<key>`, if any.
    pub fn get_pull_entry(&self, key: &str) -> (r: Result<Option<Vec<u8>>, StoreError>)
        ensures
            r matches Err(e) ==> e is Db,
            r matches Ok(v) ==> (v is Some <==> self@.contains_key(kb(torrent_key(key@)))),
            r matches Ok(Some(v)) ==> v@ == self@[kb(torrent_key(key@))],
    {
        let tkey = concat("torrent-", key);
        self.get_raw(tkey.as_str())
    }

    /// The record of the pull that the index entry of a torrent id names.
    pub fn get_pull_entry_from_torrent_id(&self, id: i64) -> (r: Result<Option<Vec<u8>>, StoreError>)
        ensures
            r matches Ok(v) ==> match v {
                Some(v) => indexed_record(self@, id) == Some(v@),
                None => indexed_record(self@, id) is None,
            },
            r matches Err(e) ==> (e is Db || (e is NotText && self@.contains_key(
                kb(downloading_key(id)),
            ) && !valid_utf8(self@[kb(downloading_key(id))]))),
    {
        let dkey = downloading_key_of(id);
        let raw = match self.get_raw(dkey.as_str())? {
            None => {
                return Ok(None);
            },
            Some(x) => x,
        };
        let key = match utf8_text(raw) {
            Some(k) => k,
            None => {
                return Err(StoreError::NotText);
            },
        };
        self.get_pull_entry(key.as_str())
    }

    /// The records of the pulls of one series: those under `torrent-<name>_S`.
    pub fn list_pull_entry_series(&self, name: &str) -> (r: Result<Vec<(Vec<u8>, Vec<u8>)>, StoreError>)
        ensures
            r matches Err(e) ==> e is Db,
            r matches Ok(vs) ==> entries_under(self@, "torrent-"@ + name@ + "_S"@, vs@),
    {
        let head = concat("torrent-", name);
        let prefix = concat(head.as_str(), "_S");
        self.list_raw(prefix.as_str())
    }

    /// The records of all pulls, in key order.
    pub fn list_pull_entry(&self) -> (r: Result<Vec<(Vec<u8>, Vec<u8>)>, StoreError>)
        ensures
            r matches Err(e) ==> e is Db,
            r matches Ok(vs) ==> entries_under(self@, "torrent-"@, vs@),
    {
        self.list_raw("torrent-")
    }

    /// The records of the pulls that the `downloading-` index names, each
    /// with its index key, every index entry once, in index key order. An
    /// index value that is not text, or that names no stored record, is an error.
    pub fn list_pull_entry_downloading(&self) -> (r: Result<Vec<(Vec<u8>, Vec<u8>)>, StoreError>)
        ensures
            r matches Ok(es) ==> index_listing(self@, es@),
            r is Ok ==> forall|k: Seq<u8>|
                #[trigger] is_index_key(self@, k) ==> valid_utf8(self@[k]) && self@.contains_key(
                    index_target(self@, k),
                ),
            r matches Err(e) ==> (e is Db || (e is NotText && index_has_non_text(self@)) || (
            e is DanglingKey && index_dangles(self@))),
    {
        let entries = self.list_raw("downloading-")?;
        let ghost m = self@;
        let mut out: Vec<(Vec<u8>, Vec<u8>)> = Vec::new();
        let mut i: usize = 0;
        while i < entries.len()
            invariant
                m == self@,
                i <= entries.len(),
                out.len() == i,
                entries_under(m, "downloading-"@, entries@),
                forall|j: int|
                    0 <= j < i ==> {
                        &&& (#[trigger] out@[j]).0@ == entries@[j].0@
                        &&& valid_utf8(entries@[j].1@)
                        &&& m.contains_key(kb(torrent_key(decode_utf8(entries@[j].1@))))
                        &&& out@[j].1@ == m[kb(torrent_key(decode_utf8(entries@[j].1@)))]
                    },
            decreases entries.len() - i,
        {
            let ghost k = entries@[i as int].0@;
            assert(is_index_key(m, k));
            let key = match utf8_text(copy_bytes(&entries[i].1)) {
                Some(k) => k,
                None => {
                    assert(index_has_non_text(m));
                    return Err(StoreError::NotText);
                },
            };
            let rec = match self.get_pull_entry(key.as_str())? {
                Some(rec) => rec,
                None => {
                    assert(!m.contains_key(index_target(m, k)));
                    assert(index_dangles(m));
                    return Err(StoreError::DanglingKey);
                },
            };
            out.push((copy_bytes(&entries[i].0), rec));
            i = i + 1;
        }
        assert forall|k: Seq<u8>| #[trigger]
            is_index_key(m, k) implies valid_utf8(m[k]) && m.contains_key(index_target(m, k)) by {
            let j = choose|j: int| 0 <= j < entries.len() && entries@[j].0@ == k;
            assert(has_prefix(entries@[j].0@, kb("downloading-"@)));
            assert(out@[j].0@ == entries@[j].0@);
        }
        assert forall|k: Seq<u8>| #[trigger]
            is_index_key(m, k) implies exists|i: int| 0 <= i < out@.len() && out@[i].0@ == k by {
            let j = choose|j: int| 0 <= j < entries.len() && entries@[j].0@ == k;
            assert(out@[j].0@ == entries@[j].0@);
        }
        assert forall|a: int, b: int| 0 <= a < b < out@.len() implies bytes_lt(
            out@[a].0@,
            out@[b].0@,
        ) by {
            assert(out@[a].0@ == entries@[a].0@);
            assert(out@[b].0@ == entries@[b].0@);
        }
        assert forall|a: int| 0 <= a < out@.len() implies {
            &&& is_index_key(m, #[trigger] out@[a].0@)
            &&& m.contains_key(index_target(m, out@[a].0@))
            &&& m[index_target(m, out@[a].0@)] == out@[a].1@
        } by {
            assert(has_prefix(entries@[a].0@, kb("downloading-"@)));
        }
        assert(index_listing(m, out@));
        Ok(out)
    }
}

proof fn lemma_keys_distinct(key: Seq<char>, id: i64)
    ensures
        kb(torrent_key(key)) != kb(downloading_key(id)),
{
    let t = torrent_key(key);
    let d = downloading_key(id);
    reveal_strlit("torrent-");
    reveal_strlit("downloading-");
    assert(t[0] == 't');
    assert(d[0] == 'd');
    if kb(t) == kb(d) {
        assert(decode_utf8(encode_utf8(t)) == decode_utf8(encode_utf8(d)));
    }
}

/// The index agrees with the records after a save: a pull saved with torrent
/// id `id` is what `downloading-<id>` leads to, and the entry names its key;
/// the pull's record is stored either way.
pub proof fn lemma_save_pull_indexes(m: Map<Seq<u8>, Seq<u8>>, p: PullEntry, record: Seq<u8>)
    ensures
        saved_pull(m, p, record).contains_key(kb(torrent_key(pull_key(p.result.parsed)))),
        saved_pull(m, p, record)[kb(torrent_key(pull_key(p.result.parsed)))] == record,
        p.torrent_id matches Some(id) ==> {
            &&& saved_pull(m, p, record)[kb(downloading_key(id))] == kb(pull_key(p.result.parsed))
            &&& indexed_record(saved_pull(m, p, record), id) == Some(record)
        },
{
    if let Some(id) = p.torrent_id {
        lemma_keys_distinct(pull_key(p.result.parsed), id);
    }
}

/// After a delete neither the pull's record nor its index entry is stored,
/// so no torrent id leads to it through the index.
pub proof fn lemma_delete_pull_unindexes(m: Map<Seq<u8>, Seq<u8>>, p: PullEntry)
    ensures
        !deleted_pull(m, p).contains_key(kb(torrent_key(pull_key(p.result.parsed)))),
        p.torrent_id matches Some(id) ==> !deleted_pull(m, p).contains_key(kb(downloading_key(id)))
            && indexed_record(deleted_pull(m, p), id) is None,
{
    if let Some(id) = p.torrent_id {
        lemma_keys_distinct(pull_key(p.result.parsed), id);
    }
}

/// Clearing the torrent id drops the index entry and keeps the pull's record.
pub proof fn lemma_clear_torrent_id_unindexes(m: Map<Seq<u8>, Seq<u8>>, p: PullEntry, record: Seq<u8>)
    ensures
        cleared_pull(m, p, record)[kb(torrent_key(pull_key(p.result.parsed)))] == record,
        p.torrent_id matches Some(id) ==> !cleared_pull(m, p, record).contains_key(
            kb(downloading_key(id)),
        ) && indexed_record(cleared_pull(m, p, record), id) is None,
{
    if let Some(id) = p.torrent_id {
        lemma_keys_distinct(pull_key(p.result.parsed), id);
    }
}

} // verus!
