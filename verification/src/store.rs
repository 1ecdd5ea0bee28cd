use vstd::prelude::*;

use crate::codec::snapshot::{
    cstore_values_wf, dec_state, enc_state, decode_state, encode_state, fstore_values_wf,
    lemma_state_round_trip, centries_encodable, fentries_encodable,
};
use crate::models;
use crate::models::cask;
use crate::models::formula;
use crate::time;
use crate::time::Timestamp;

verus! {

/// The catalog snapshot as persisted: both unit kinds, catalog side only.
pub type State = models::State<formula::Store, cask::Store>;

/// The embedded database file. Held opaque: everything this library knows of
/// it is said through `db_contents` and the two accessors below.
#[verifier::external_body]
pub struct Db {
    db: jammdb::DB,
}

#[verifier::external_type_specification]
#[verifier::external_body]
pub struct ExJammdbError(jammdb::Error);

/// What the database holds: the bytes stored under each bucket name and key.
pub uninterp spec fn db_contents(d: Db) -> Map<(Seq<char>, Seq<char>), Seq<u8>>;

/// Relies on jammdb's DB::open: opens the database file at the given path,
/// creating it if absent. A file that is not a database of the expected
/// page size makes the call itself give up, a condition no contract over
/// the path can see.
#[verifier::external_body]
fn db_open(path: &str) -> (r: Result<Db, jammdb::Error>) {
    Ok(Db { db: jammdb::DB::open(path)? })
}

/// Relies on jammdb: one read transaction looking one key up in one bucket.
/// A bucket never created reads as absent, like a key never put.
#[verifier::external_body]
fn db_read(d: &Db, bucket: &str, key: &str) -> (r: Result<Option<Vec<u8>>, jammdb::Error>)
    ensures
        match r {
            Ok(Some(v)) => db_contents(*d).contains_pair((bucket@, key@), v@),
            Ok(None) => !db_contents(*d).dom().contains((bucket@, key@)),
            Err(_) => true,
        },
{
    let tx = d.db.tx(false)?;
    match tx.get_bucket(bucket) {
        Ok(b) => match b.get_kv(key) {
            Some(kv) => Ok(Some(kv.value().to_vec())),
            None => Ok(None),
        },
        Err(jammdb::Error::BucketMissing) => Ok(None),
        Err(e) => Err(e),
    }
}

/// Relies on jammdb: one write transaction that creates the two buckets as
/// needed, puts both values, and commits. The two writes land together or
/// not at all: a transaction that is not committed is discarded, and a
/// failed commit leaves the previous contents in place.
#[verifier::external_body]
fn db_put_pair(
    d: &mut Db,
    bucket1: &str,
    key1: &str,
    val1: &Vec<u8>,
    bucket2: &str,
    key2: &str,
    val2: &Vec<u8>,
) -> (r: Result<(), jammdb::Error>)
    ensures
        r is Ok ==> db_contents(*final(d)) == db_contents(*old(d)).insert(
            (bucket1@, key1@),
            val1@,
        ).insert((bucket2@, key2@), val2@),
        r is Err ==> db_contents(*final(d)) == db_contents(*old(d)),
{
    let tx = d.db.tx(true)?;
    let b1 = tx.get_or_create_bucket(bucket1)?;
    b1.put(key1, val1.as_slice())?;
    let b2 = tx.get_or_create_bucket(bucket2)?;
    b2.put(key2, val2.as_slice())?;
    tx.commit()?;
    Ok(())
}

/// Why a store operation failed: the embedded database itself failed, or the
/// persisted bytes did not decode. A missing snapshot is not an error.
#[derive(Debug)]
pub enum StoreError {
    Db(jammdb::Error),
    Corrupt,
}

/// What the persisted snapshot reads as, given the database contents: absent
/// where nothing was ever stored, corrupt where the bytes do not decode, and
/// otherwise the snapshot's two catalog mappings.
pub open spec fn spec_stored_state(m: Map<(Seq<char>, Seq<char>), Seq<u8>>) -> Option<
    Option<
        (
            Map<Seq<char>, formula::FormulaModel>,
            Map<Seq<char>, cask::CaskModel>,
        ),
    >,
> {
    if !m.dom().contains(("state"@, "state"@)) {
        Some(None)
    } else {
        match dec_state(m[("state"@, "state"@)], 0) {
            Some((st, _)) => Some(Some(st)),
            None => None,
        }
    }
}

/// What the persisted last-update timestamp reads as, in the same shape.
pub open spec fn spec_stored_ts(m: Map<(Seq<char>, Seq<char>), Seq<u8>>) -> Option<
    Option<Timestamp>,
> {
    if !m.dom().contains(("meta"@, "last-update"@)) {
        Some(None)
    } else {
        match time::dec_ts(m[("meta"@, "last-update"@)], 0) {
            Some((ts, _)) => Some(Some(ts)),
            None => None,
        }
    }
}

/// Durable storage of exactly one catalog snapshot and one last-update
/// timestamp, both written in a single transaction.
pub struct Store {
    db: Db,
}

impl Store {
    /// The database contents behind this store.
    pub closed spec fn contents(self) -> Map<(Seq<char>, Seq<char>), Seq<u8>> {
        db_contents(self.db)
    }

    pub fn open(path: &str) -> (r: Result<Store, StoreError>)
        ensures
            r is Err ==> r matches Err(StoreError::Db(_)),
    {
        match db_open(path) {
            Ok(db) => Ok(Store { db }),
            Err(e) => Err(StoreError::Db(e)),
        }
    }

    /// The timestamp of the most recent successful snapshot write, or absent
    /// where none was ever made. Absence is a valid result, not a failure;
    /// bytes that do not decode are a failure, distinct from absence.
    pub fn last_update(&self) -> (r: Result<Option<Timestamp>, StoreError>)
        ensures
            match r {
                Ok(ts) => spec_stored_ts(self.contents()) == Some(ts),
                Err(StoreError::Corrupt) => spec_stored_ts(self.contents()) is None,
                Err(StoreError::Db(_)) => true,
            },
    {
        match db_read(&self.db, "meta", "last-update") {
            Ok(Some(bytes)) => match time::decode_ts(&bytes, 0) {
                Some((ts, _)) => Ok(Some(ts)),
                None => Err(StoreError::Corrupt),
            },
            Ok(None) => Ok(None),
            Err(e) => Err(StoreError::Db(e)),
        }
    }

    /// The last persisted catalog snapshot, or absent where none was ever
    /// written. The returned stores are well formed.
    pub fn get_state(&self) -> (r: Result<Option<State>, StoreError>)
        ensures
            match r {
                Ok(None) => spec_stored_state(self.contents()) == Some(
                    None::<
                        (
                            Map<Seq<char>, formula::FormulaModel>,
                            Map<Seq<char>, cask::CaskModel>,
                        ),
                    >,
                ),
                Ok(Some(st)) => {
                    &&& spec_stored_state(self.contents()) == Some(
                        Some((st.formulae.deep_view(), st.casks.deep_view())),
                    )
                    &&& st.formulae.wf()
                    &&& st.casks.wf()
                    &&& fstore_values_wf(st.formulae)
                    &&& cstore_values_wf(st.casks)
                },
                Err(StoreError::Corrupt) => spec_stored_state(self.contents()) is None,
                Err(StoreError::Db(_)) => true,
            },
    {
        match db_read(&self.db, "state", "state") {
            Ok(Some(bytes)) => match decode_state(&bytes, 0) {
                Some((st, _)) => Ok(Some(st)),
                None => Err(StoreError::Corrupt),
            },
            Ok(None) => Ok(None),
            Err(e) => Err(StoreError::Db(e)),
        }
    }

    /// Serializes the snapshot and the given timestamp and commits both in a
    /// single transaction: after a success both are visible; after a failure
    /// neither piece changed. The write path decodes nothing, so only the
    /// database's own error can come back.
    #[verifier::rlimit(80)]
    pub fn set_state_at(&mut self, formulae: &formula::Store, casks: &cask::Store, now: Timestamp)
        -> (r: Result<(), StoreError>)
        requires
            formulae.wf(),
            casks.wf(),
            fstore_values_wf(*formulae),
            cstore_values_wf(*casks),
        ensures
            r is Ok ==> final(self).contents() == old(self).contents().insert(
                ("state"@, "state"@),
                enc_state(formulae.entries.deep_view(), casks.entries.deep_view()),
            ).insert(("meta"@, "last-update"@), time::enc_ts(now)),
            r is Ok ==> spec_stored_state(final(self).contents()) == Some(
                Some((formulae.deep_view(), casks.deep_view())),
            ),
            r is Ok ==> spec_stored_ts(final(self).contents()) == Some(Some(now)),
            r is Err ==> r matches Err(StoreError::Db(_)),
            r is Err ==> final(self).contents() == old(self).contents(),
    {
        let mut state_bytes: Vec<u8> = Vec::new();
        encode_state(formulae, casks, &mut state_bytes);
        let mut ts_bytes: Vec<u8> = Vec::new();
        time::encode_ts(now, &mut ts_bytes);
        proof {
            assert(state_bytes@ =~= enc_state(
                formulae.entries.deep_view(),
                casks.entries.deep_view(),
            ));
            assert(ts_bytes@ =~= time::enc_ts(now));
        }
        let r = db_put_pair(
            &mut self.db,
            "state",
            "state",
            &state_bytes,
            "meta",
            "last-update",
            &ts_bytes,
        );
        match r {
            Ok(()) => {
                proof {
                    reveal_strlit("state");
                    reveal_strlit("meta");
                    reveal_strlit("last-update");
                    assert("state"@.len() == 5);
                    assert("meta"@.len() == 4);
                    assert("state"@ != "meta"@);
                    let m = self.contents();
                    let sk = ("state"@, "state"@);
                    let mk = ("meta"@, "last-update"@);
                    assert(m.contains_pair(sk, state_bytes@));
                    assert(m.contains_pair(mk, ts_bytes@));
                    let e = enc_state(formulae.entries.deep_view(), casks.entries.deep_view());
                    assert(e.subrange(0, e.len() as int) =~= e);
                    lemma_state_round_trip(*formulae, *casks, e, 0);
                    let te = time::enc_ts(now);
                    assert(te.subrange(0, te.len() as int) =~= te);
                    time::lemma_ts_round(now, te, 0);
                }
                Ok(())
            },
            Err(e) => Err(StoreError::Db(e)),
        }
    }

    /// Persists the snapshot under the current wall-clock time. Whatever the
    /// clock read, a success leaves the snapshot retrievable and the
    /// timestamp set to a well-formed instant; a failure is the database's
    /// own and leaves the contents unchanged.
    pub fn set_state(&mut self, formulae: &formula::Store, casks: &cask::Store) -> (r: Result<
        (),
        StoreError,
    >)
        requires
            formulae.wf(),
            casks.wf(),
            fstore_values_wf(*formulae),
            cstore_values_wf(*casks),
        ensures
            r is Ok ==> spec_stored_state(final(self).contents()) == Some(
                Some((formulae.deep_view(), casks.deep_view())),
            ),
            r is Ok ==> exists|ts: Timestamp|
                ts.wf() && spec_stored_ts(final(self).contents()) == Some(Some(ts)),
            r is Err ==> r matches Err(StoreError::Db(_)),
            r is Err ==> final(self).contents() == old(self).contents(),
    {
        let now = time::now_utc();
        let r = self.set_state_at(formulae, casks, now);
        proof {
            if r is Ok {
                assert(spec_stored_ts(self.contents()) == Some(Some(now)));
            }
        }
        r
    }
}

/// Round-trip law: writing a snapshot and reading it back yields a catalog
/// with the same keys and the same field values, whatever the store held
/// before, for every pair of well-formed stores small enough to count.
/// `set_state_at` leaves exactly such contents, and `get_state` reads them as
/// `spec_stored_state` says.
#[verifier::rlimit(80)]
pub proof fn lemma_store_round_trip(
    m0: Map<(Seq<char>, Seq<char>), Seq<u8>>,
    f: formula::Store,
    c: cask::Store,
    ts: Timestamp,
)
    requires
        f.wf(),
        c.wf(),
        fentries_encodable(f.entries.deep_view()),
        centries_encodable(c.entries.deep_view()),
    ensures
        spec_stored_state(
            m0.insert(
                ("state"@, "state"@),
                enc_state(f.entries.deep_view(), c.entries.deep_view()),
            ).insert(("meta"@, "last-update"@), time::enc_ts(ts)),
        ) == Some(Some((f.deep_view(), c.deep_view()))),
        spec_stored_ts(
            m0.insert(
                ("state"@, "state"@),
                enc_state(f.entries.deep_view(), c.entries.deep_view()),
            ).insert(("meta"@, "last-update"@), time::enc_ts(ts)),
        ) == Some(Some(ts)),
{
    reveal_strlit("state");
    reveal_strlit("meta");
    reveal_strlit("last-update");
    assert("state"@.len() == 5);
    assert("meta"@.len() == 4);
    assert("state"@ != "meta"@);
    let e = enc_state(f.entries.deep_view(), c.entries.deep_view());
    assert(e.subrange(0, e.len() as int) =~= e);
    lemma_state_round_trip(f, c, e, 0);
    let te = time::enc_ts(ts);
    assert(te.subrange(0, te.len() as int) =~= te);
    time::lemma_ts_round(ts, te, 0);
}

} // verus!
