use vstd::prelude::*;

use crate::brew::Brew;
use crate::codec::snapshot::{cstore_values_wf, fstore_values_wf};
use crate::models;
use crate::models::cask;
use crate::models::formula;
use crate::models::keg;
use crate::store::{spec_stored_state, spec_stored_ts, Store, StoreError};
use crate::time;
use crate::time::{Duration, Timestamp};

verus! {

/// The full merged snapshot handed to callers: catalog and installed views
/// of both unit kinds.
pub type State = models::State<formula::State, cask::State>;

/// Orchestrates the store and the externally gathered catalog and evidence:
/// merges them into one snapshot, decides when the persisted snapshot is
/// stale, and keeps it eventually fresh. The expensive external fetches
/// themselves happen outside; their results come in as plain values.
pub struct Engine {
    pub store: Store,
    pub brew: Brew,
    pub cache_duration: Option<Duration>,
}

impl Engine {
    /// An engine over the given store and manager, whose cache never
    /// expires.
    pub fn new(store: Store, brew: Brew) -> (r: Engine)
        ensures
            r.store == store,
            r.brew == brew,
            r.cache_duration is None,
    {
        Engine { store, brew, cache_duration: None }
    }

    /// An engine with an explicit expiry policy: absent means the cache
    /// never expires; present means it expires that long after the last
    /// successful full update.
    pub fn with_policy(store: Store, brew: Brew, cache_duration: Option<Duration>) -> (r: Engine)
        ensures
            r.store == store,
            r.brew == brew,
            r.cache_duration == cache_duration,
    {
        Engine { store, brew, cache_duration }
    }

    /// The persisted catalog, if any, merged against freshly observed
    /// installation evidence. Absent only where no catalog was ever
    /// persisted; a snapshot that does not decode is an error, not absence.
    pub fn cache(
        &self,
        receipts: &formula::receipt::Store,
        cask_versions: &cask::installed::VersionsStore,
    ) -> (r: Result<Option<State>, StoreError>)
        requires
            receipts.wf(),
            cask_versions.wf(),
        ensures
            match r {
                Ok(None) => spec_stored_state(self.store.contents()) == Some(
                    None::<
                        (
                            Map<Seq<char>, formula::FormulaModel>,
                            Map<Seq<char>, cask::CaskModel>,
                        ),
                    >,
                ),
                Ok(Some(st)) => {
                    &&& spec_stored_state(self.store.contents()) == Some(
                        Some((st.formulae.all.deep_view(), st.casks.all.deep_view())),
                    )
                    &&& st.formulae.all.wf()
                    &&& st.casks.all.wf()
                    &&& st.formulae.installed.wf()
                    &&& st.casks.installed.wf()
                    &&& st.formulae.installed@.dom() == st.formulae.all@.dom().intersect(
                        receipts@.dom(),
                    )
                    &&& st.casks.installed@.dom() == st.casks.all@.dom().intersect(
                        cask_versions@.dom(),
                    )
                    &&& forall|k: Seq<char>|
                        st.formulae.installed@.contains_key(k)
                            ==> st.formulae.installed.deep_view()[k] == (
                        formula::installed::FormulaModel {
                            upstream: st.formulae.all.deep_view()[k],
                            receipt: receipts.deep_view()[k],
                        })
                    &&& forall|k: Seq<char>|
                        st.casks.installed@.contains_key(k) ==> st.casks.installed.deep_view()[k]
                            == (cask::installed::CaskModel {
                            upstream: st.casks.all.deep_view()[k],
                            versions: cask_versions.deep_view()[k],
                        })
                },
                Err(StoreError::Corrupt) => spec_stored_state(self.store.contents()) is None,
                Err(StoreError::Db(_)) => true,
            },
    {
        match self.store.get_state() {
            Ok(Some(all)) => {
                let installed = self.brew.eval_installed(&all, receipts, cask_versions);
                Ok(
                    Some(
                        models::State {
                            formulae: keg::State {
                                all: all.formulae,
                                installed: installed.formulae,
                            },
                            casks: keg::State { all: all.casks, installed: installed.casks },
                        },
                    ),
                )
            },
            Ok(None) => Ok(None),
            Err(e) => Err(e),
        }
    }

    /// Whether the persisted snapshot has expired as of the given instant:
    /// never under the never-expires policy; otherwise when no update was
    /// ever recorded, or when the recorded instant plus the lifetime is at
    /// or before the given one.
    pub fn cache_expired_at(&self, now: Timestamp) -> (r: Result<bool, StoreError>)
        ensures
            self.cache_duration is None ==> r is Ok,
            match r {
                Ok(b) => match self.cache_duration {
                    None => b == false,
                    Some(d) => match spec_stored_ts(self.store.contents()) {
                        Some(Some(ts)) => b == time::spec_expired(ts, d, now),
                        Some(None) => b == true,
                        None => false,
                    },
                },
                Err(StoreError::Corrupt) => self.cache_duration is Some && spec_stored_ts(
                    self.store.contents(),
                ) is None,
                Err(StoreError::Db(_)) => true,
            },
    {
        match self.cache_duration {
            None => Ok(false),
            Some(d) => match self.store.last_update() {
                Ok(Some(ts)) => Ok(time::expired(ts, d, now)),
                Ok(None) => Ok(true),
                Err(e) => Err(e),
            },
        }
    }

    /// Whether the persisted snapshot has expired as of the present call.
    /// Whatever the clock read: under the never-expires policy the answer is
    /// false; with no recorded update it is true; otherwise it is the expiry
    /// decision at some well-formed instant.
    pub fn cache_expired(&self) -> (r: Result<bool, StoreError>)
        ensures
            self.cache_duration is None ==> r is Ok,
            match r {
                Ok(b) => {
                    &&& (self.cache_duration is None ==> b == false)
                    &&& (self.cache_duration is Some && spec_stored_ts(self.store.contents())
                        == Some(None::<Timestamp>) ==> b == true)
                    &&& (match (self.cache_duration, spec_stored_ts(self.store.contents())) {
                        (Some(d), Some(Some(ts))) => exists|now: Timestamp|
                            now.wf() && b == time::spec_expired(ts, d, now),
                        _ => true,
                    })
                },
                Err(StoreError::Corrupt) => self.cache_duration is Some && spec_stored_ts(
                    self.store.contents(),
                ) is None,
                Err(StoreError::Db(_)) => true,
            },
    {
        let now = time::now_utc();
        self.cache_expired_at(now)
    }

    /// Persists the catalog portion of the given snapshot, stamping it with
    /// the present call's time; the rest of the engine is untouched. A
    /// failure is the database's own and leaves the persisted contents
    /// unchanged.
    pub fn update_cache(&mut self, state: &State) -> (r: Result<(), StoreError>)
        requires
            state.formulae.all.wf(),
            state.casks.all.wf(),
            fstore_values_wf(state.formulae.all),
            cstore_values_wf(state.casks.all),
        ensures
            final(self).brew == old(self).brew,
            final(self).cache_duration == old(self).cache_duration,
            r is Ok ==> spec_stored_state(final(self).store.contents()) == Some(
                Some((state.formulae.all.deep_view(), state.casks.all.deep_view())),
            ),
            r is Ok ==> exists|ts: Timestamp|
                ts.wf() && spec_stored_ts(final(self).store.contents()) == Some(Some(ts)),
            r is Err ==> r matches Err(StoreError::Db(_)),
            r is Err ==> final(self).store.contents() == old(self).store.contents(),
    {
        self.store.set_state(&state.formulae.all, &state.casks.all)
    }

    /// The freshly fetched catalog and evidence, merged without reading or
    /// writing the persisted cache. The catalog sides of the result are fit
    /// for persisting.
    pub fn fetch_latest(
        &self,
        all_formulae: &Vec<formula::base::Formula>,
        all_casks: &Vec<cask::base::Cask>,
        executables: &formula::Executables,
        receipts: &formula::receipt::Store,
        cask_versions: &cask::installed::VersionsStore,
    ) -> (r: State)
        requires
            executables.wf(),
            receipts.wf(),
            cask_versions.wf(),
            forall|i: int|
                0 <= i < all_formulae@.len() ==> (#[trigger] all_formulae@[i]).aliases.wf(),
            forall|i: int| 0 <= i < all_casks@.len() ==> (#[trigger] all_casks@[i]).names.wf(),
            forall|k: Seq<char>|
                executables@.contains_key(k) ==> (#[trigger] executables@[k]).wf(),
        ensures
            r.formulae.all.wf(),
            r.formulae.installed.wf(),
            r.casks.all.wf(),
            r.casks.installed.wf(),
            fstore_values_wf(r.formulae.all),
            cstore_values_wf(r.casks.all),
            r.formulae.all@.dom() == crate::brew::indexed_formulae(
                all_formulae.deep_view(),
            ).dom(),
            forall|k: Seq<char>|
                r.formulae.all@.contains_key(k) ==> r.formulae.all.deep_view()[k]
                    == crate::brew::enriched_formula(
                    k,
                    crate::brew::indexed_formulae(all_formulae.deep_view())[k],
                    executables.deep_view(),
                ),
            r.casks.all@.dom() == crate::brew::indexed_casks(all_casks.deep_view()).dom(),
            forall|k: Seq<char>|
                r.casks.all@.contains_key(k) ==> r.casks.all.deep_view()[k] == (cask::CaskModel {
                    base: crate::brew::indexed_casks(all_casks.deep_view())[k],
                }),
            r.formulae.installed@.dom() == r.formulae.all@.dom().intersect(receipts@.dom()),
            forall|k: Seq<char>|
                r.formulae.installed@.contains_key(k) ==> r.formulae.installed.deep_view()[k] == (
                formula::installed::FormulaModel {
                    upstream: r.formulae.all.deep_view()[k],
                    receipt: receipts.deep_view()[k],
                }),
            r.casks.installed@.dom() == r.casks.all@.dom().intersect(cask_versions@.dom()),
            forall|k: Seq<char>|
                r.casks.installed@.contains_key(k) ==> r.casks.installed.deep_view()[k] == (
                cask::installed::CaskModel {
                    upstream: r.casks.all.deep_view()[k],
                    versions: cask_versions.deep_view()[k],
                }),
    {
        self.brew.state(all_formulae, all_casks, executables, receipts, cask_versions)
    }

    /// The cached snapshot, provided one exists and has not expired as of
    /// the given instant; absent exactly where no catalog was ever persisted
    /// or the persisted one is stale at that instant. The caller performs
    /// the full fetch in the stale case and hands the result to
    /// `update_cache`.
    pub fn cached_if_fresh_at(
        &self,
        receipts: &formula::receipt::Store,
        cask_versions: &cask::installed::VersionsStore,
        now: Timestamp,
    ) -> (r: Result<Option<State>, StoreError>)
        requires
            receipts.wf(),
            cask_versions.wf(),
        ensures
            match r {
                Ok(Some(st)) => {
                    &&& (match (self.cache_duration, spec_stored_ts(self.store.contents())) {
                        (None, _) => true,
                        (Some(d), Some(Some(ts))) => !time::spec_expired(ts, d, now),
                        (Some(_), Some(None)) => false,
                        (Some(_), None) => false,
                    })
                    &&& spec_stored_state(self.store.contents()) == Some(
                        Some((st.formulae.all.deep_view(), st.casks.all.deep_view())),
                    )
                    &&& st.formulae.all.wf()
                    &&& st.casks.all.wf()
                    &&& st.formulae.installed.wf()
                    &&& st.casks.installed.wf()
                    &&& st.formulae.installed@.dom() == st.formulae.all@.dom().intersect(
                        receipts@.dom(),
                    )
                    &&& st.casks.installed@.dom() == st.casks.all@.dom().intersect(
                        cask_versions@.dom(),
                    )
                    &&& forall|k: Seq<char>|
                        st.formulae.installed@.contains_key(k)
                            ==> st.formulae.installed.deep_view()[k] == (
                        formula::installed::FormulaModel {
                            upstream: st.formulae.all.deep_view()[k],
                            receipt: receipts.deep_view()[k],
                        })
                    &&& forall|k: Seq<char>|
                        st.casks.installed@.contains_key(k) ==> st.casks.installed.deep_view()[k]
                            == (cask::installed::CaskModel {
                            upstream: st.casks.all.deep_view()[k],
                            versions: cask_versions.deep_view()[k],
                        })
                },
                Ok(None) => {
                    ||| spec_stored_state(self.store.contents()) == Some(
                        None::<
                            (
                                Map<Seq<char>, formula::FormulaModel>,
                                Map<Seq<char>, cask::CaskModel>,
                            ),
                        >,
                    )
                    ||| (match (self.cache_duration, spec_stored_ts(self.store.contents())) {
                        (Some(d), Some(Some(ts))) => time::spec_expired(ts, d, now),
                        (Some(_), Some(None)) => true,
                        _ => false,
                    })
                },
                Err(StoreError::Corrupt) => spec_stored_state(self.store.contents()) is None
                    || spec_stored_ts(self.store.contents()) is None,
                Err(StoreError::Db(_)) => true,
            },
    {
        let expired = match self.cache_expired_at(now) {
            Ok(b) => b,
            Err(e) => {
                return Err(e);
            },
        };
        if expired {
            return Ok(None);
        }
        self.cache(receipts, cask_versions)
    }

    /// The cached snapshot, provided one exists and has not expired as of
    /// the present call; absent where a full fetch is needed. The freshness
    /// decision is `cached_if_fresh_at` at the instant the clock read.
    pub fn cached_if_fresh(
        &self,
        receipts: &formula::receipt::Store,
        cask_versions: &cask::installed::VersionsStore,
    ) -> (r: Result<Option<State>, StoreError>)
        requires
            receipts.wf(),
            cask_versions.wf(),
        ensures
            match r {
                Ok(Some(st)) => {
                    &&& (match (self.cache_duration, spec_stored_ts(self.store.contents())) {
                        (Some(d), Some(Some(ts))) => exists|now: Timestamp|
                            now.wf() && !time::spec_expired(ts, d, now),
                        (Some(_), Some(None)) => false,
                        (Some(_), None) => false,
                        (None, _) => true,
                    })
                    &&& spec_stored_state(self.store.contents()) == Some(
                        Some((st.formulae.all.deep_view(), st.casks.all.deep_view())),
                    )
                    &&& st.formulae.all.wf()
                    &&& st.casks.all.wf()
                    &&& st.formulae.installed.wf()
                    &&& st.casks.installed.wf()
                    &&& st.formulae.installed@.dom() == st.formulae.all@.dom().intersect(
                        receipts@.dom(),
                    )
                    &&& st.casks.installed@.dom() == st.casks.all@.dom().intersect(
                        cask_versions@.dom(),
                    )
                    &&& forall|k: Seq<char>|
                        st.formulae.installed@.contains_key(k)
                            ==> st.formulae.installed.deep_view()[k] == (
                        formula::installed::FormulaModel {
                            upstream: st.formulae.all.deep_view()[k],
                            receipt: receipts.deep_view()[k],
                        })
                    &&& forall|k: Seq<char>|
                        st.casks.installed@.contains_key(k) ==> st.casks.installed.deep_view()[k]
                            == (cask::installed::CaskModel {
                            upstream: st.casks.all.deep_view()[k],
                            versions: cask_versions.deep_view()[k],
                        })
                },
                Ok(None) => {
                    ||| spec_stored_state(self.store.contents()) == Some(
                        None::<
                            (
                                Map<Seq<char>, formula::FormulaModel>,
                                Map<Seq<char>, cask::CaskModel>,
                            ),
                        >,
                    )
                    ||| self.cache_duration is Some
                },
                Err(StoreError::Corrupt) => spec_stored_state(self.store.contents()) is None
                    || spec_stored_ts(self.store.contents()) is None,
                Err(StoreError::Db(_)) => true,
            },
    {
        let now = time::now_utc();
        self.cached_if_fresh_at(receipts, cask_versions, now)
    }
}

} // verus!
