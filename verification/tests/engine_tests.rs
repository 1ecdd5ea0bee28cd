use std::time::{SystemTime, UNIX_EPOCH};

use brewer::brew::Brew;
use brewer::engine::Engine;
use brewer::models::cask;
use brewer::models::formula;
use brewer::models::keg::{Store as KegStore, StringSet};
use brewer::store::Store;
use brewer::time::{Duration, Timestamp};

fn fresh_path(tag: &str) -> String {
    let nanos = SystemTime::now().duration_since(UNIX_EPOCH).unwrap().as_nanos();
    format!("/tmp/brewer_engine_{tag}_{nanos}.db")
}

fn brew() -> Brew {
    Brew::new("brew".to_string(), "/opt/homebrew".to_string())
}

fn base_formula(name: &str) -> formula::base::Formula {
    formula::base::Formula {
        name: name.to_string(),
        tap: "homebrew/core".to_string(),
        desc: None,
        homepage: None,
        caveats: None,
        build_dependencies: vec![],
        dependencies: vec![],
        deprecated: false,
        deprecation_reason: None,
        disabled: false,
        disable_reason: None,
        aliases: StringSet::new(),
        versions: formula::base::Versions { stable: "1.0".to_string(), head: None },
    }
}

fn receipt(on_request: bool) -> formula::receipt::Receipt {
    formula::receipt::Receipt {
        source: formula::receipt::Source {
            spec: formula::receipt::Spec::Stable,
            versions: formula::receipt::Versions { stable: "1.0".to_string(), head: None },
        },
        installed_as_dependency: !on_request,
        installed_on_request: on_request,
    }
}

#[test]
fn empty_catalog_and_evidence_yield_empty_state() {
    // Scenario: with an empty catalog and no evidence, the primary entry
    // point produces the all-empty snapshot and persists it.
    let store = Store::open(&fresh_path("empty")).unwrap();
    let mut engine = Engine::new(store, brew());
    let receipts: formula::receipt::Store = KegStore::new();
    let cask_versions: cask::installed::VersionsStore = KegStore::new();
    // No cache yet: a full fetch is needed.
    let cached = engine.cached_if_fresh(&receipts, &cask_versions).unwrap();
    assert!(cached.is_none());
    let exec_index: formula::Executables = KegStore::new();
    let latest = engine.fetch_latest(&vec![], &vec![], &exec_index, &receipts, &cask_versions);
    assert_eq!(latest.formulae.all.len(), 0);
    assert_eq!(latest.formulae.installed.len(), 0);
    assert_eq!(latest.casks.all.len(), 0);
    assert_eq!(latest.casks.installed.len(), 0);
    engine.update_cache(&latest).unwrap();
    // The snapshot is persisted and comes back on the cached path.
    let got = engine.cache(&receipts, &cask_versions).unwrap().expect("cache present");
    assert_eq!(got.formulae.all.len(), 0);
    assert_eq!(got.casks.all.len(), 0);
    assert!(engine.store.last_update().unwrap().is_some());
}

#[test]
fn formula_without_receipt_is_not_installed() {
    // Scenario: the catalog has "wget" but no receipt was observed, so the
    // merged state lists it only on the catalog side.
    let engine = Engine::new(Store::open(&fresh_path("wget")).unwrap(), brew());
    let receipts: formula::receipt::Store = KegStore::new();
    let cask_versions: cask::installed::VersionsStore = KegStore::new();
    let exec_index: formula::Executables = KegStore::new();
    let state = engine.fetch_latest(
        &vec![base_formula("wget")],
        &vec![],
        &exec_index,
        &receipts,
        &cask_versions,
    );
    assert!(state.formulae.all.get(&"wget".to_string()).is_some());
    assert!(state.formulae.installed.get(&"wget".to_string()).is_none());
}

#[test]
fn matching_receipt_carries_its_flags() {
    // Scenario: the catalog has "jq" and a matching receipt installed on
    // request, so "jq" appears installed with that flag set.
    let engine = Engine::new(Store::open(&fresh_path("jq")).unwrap(), brew());
    let mut receipts: formula::receipt::Store = KegStore::new();
    receipts.insert("jq".to_string(), receipt(true));
    let cask_versions: cask::installed::VersionsStore = KegStore::new();
    let exec_index: formula::Executables = KegStore::new();
    let state = engine.fetch_latest(
        &vec![base_formula("jq")],
        &vec![],
        &exec_index,
        &receipts,
        &cask_versions,
    );
    let jq = state.formulae.installed.get(&"jq".to_string()).expect("jq installed");
    assert!(jq.receipt.installed_on_request);
}

#[test]
fn never_expiring_cache_never_expires() {
    let path = fresh_path("never");
    let mut store = Store::open(&path).unwrap();
    let fs: formula::Store = KegStore::new();
    let cs: cask::Store = KegStore::new();
    // An ancient update time.
    store.set_state_at(&fs, &cs, Timestamp { secs: 0, nanos: 0 }).unwrap();
    let engine = Engine::new(store, brew());
    assert_eq!(engine.cache_expired().unwrap(), false);
    // Even with no update recorded at all.
    let engine2 = Engine::new(Store::open(&fresh_path("never2")).unwrap(), brew());
    assert_eq!(engine2.cache_expired().unwrap(), false);
}

#[test]
fn expiry_is_exactly_at_the_deadline() {
    let path = fresh_path("deadline");
    let mut store = Store::open(&path).unwrap();
    let fs: formula::Store = KegStore::new();
    let cs: cask::Store = KegStore::new();
    let written = Timestamp { secs: 1_000, nanos: 0 };
    store.set_state_at(&fs, &cs, written).unwrap();
    let ttl = Duration { secs: 3_600, nanos: 0 };
    let engine = Engine::with_policy(store, brew(), Some(ttl));
    // Strictly before the deadline: fresh.
    let just_before = Timestamp { secs: 4_599, nanos: 999_999_999 };
    assert_eq!(engine.cache_expired_at(just_before).unwrap(), false);
    // At the deadline and after: expired.
    let at = Timestamp { secs: 4_600, nanos: 0 };
    assert_eq!(engine.cache_expired_at(at).unwrap(), true);
    let after = Timestamp { secs: 5_000, nanos: 0 };
    assert_eq!(engine.cache_expired_at(after).unwrap(), true);
}

#[test]
fn missing_timestamp_counts_as_expired() {
    let engine = Engine::with_policy(
        Store::open(&fresh_path("no_ts")).unwrap(),
        brew(),
        Some(Duration { secs: 60, nanos: 0 }),
    );
    assert_eq!(engine.cache_expired().unwrap(), true);
}

#[test]
fn stale_cache_is_refetched_and_overwritten() {
    // Scenario: a stale cache with a reachable manager leads to a full
    // fetch, and the persisted snapshot and timestamp are replaced.
    let path = fresh_path("stale");
    let mut store = Store::open(&path).unwrap();
    let mut old_fs: formula::Store = KegStore::new();
    old_fs.insert("old-tool".to_string(), {
        let b = base_formula("old-tool");
        formula::Formula { base: b, executables: StringSet::new(), analytics: None }
    });
    let cs: cask::Store = KegStore::new();
    store.set_state_at(&old_fs, &cs, Timestamp { secs: 1_000, nanos: 0 }).unwrap();
    let ttl = Duration { secs: 60, nanos: 0 };
    let mut engine = Engine::with_policy(store, brew(), Some(ttl));
    let receipts: formula::receipt::Store = KegStore::new();
    let cask_versions: cask::installed::VersionsStore = KegStore::new();
    // The write above is far older than a minute, so the cached path yields
    // nothing and a full fetch follows, as the driver would do.
    let cached = engine.cached_if_fresh(&receipts, &cask_versions).unwrap();
    assert!(cached.is_none());
    let exec_index: formula::Executables = KegStore::new();
    let latest = engine.fetch_latest(
        &vec![base_formula("new-tool")],
        &vec![],
        &exec_index,
        &receipts,
        &cask_versions,
    );
    engine.update_cache(&latest).unwrap();
    let stored = engine.store.get_state().unwrap().expect("snapshot");
    assert!(stored.formulae.get(&"old-tool".to_string()).is_none());
    assert!(stored.formulae.get(&"new-tool".to_string()).is_some());
    let ts = engine.store.last_update().unwrap().expect("timestamp");
    assert!(ts.secs > 1_000);
}

#[test]
fn fresh_cache_is_served_without_fetching() {
    let path = fresh_path("fresh_served");
    let mut store = Store::open(&path).unwrap();
    let mut fs: formula::Store = KegStore::new();
    fs.insert("kept".to_string(), {
        let b = base_formula("kept");
        formula::Formula { base: b, executables: StringSet::new(), analytics: None }
    });
    let cs: cask::Store = KegStore::new();
    store.set_state(&fs, &cs).unwrap();
    let ttl = Duration { secs: 3_600, nanos: 0 };
    let engine = Engine::with_policy(store, brew(), Some(ttl));
    let mut receipts: formula::receipt::Store = KegStore::new();
    receipts.insert("kept".to_string(), receipt(false));
    let cask_versions: cask::installed::VersionsStore = KegStore::new();
    // Freshly written: the cached catalog is reused, merged against the
    // live evidence handed in.
    let state = engine.cached_if_fresh(&receipts, &cask_versions).unwrap().expect("fresh");
    assert!(state.formulae.all.get(&"kept".to_string()).is_some());
    let kept = state.formulae.installed.get(&"kept".to_string()).expect("merged");
    assert!(kept.receipt.installed_as_dependency);
}

#[test]
fn freshness_decision_follows_the_instant() {
    let path = fresh_path("at_instant");
    let mut store = Store::open(&path).unwrap();
    let mut fs: formula::Store = KegStore::new();
    fs.insert("kept".to_string(), {
        let b = base_formula("kept");
        formula::Formula { base: b, executables: StringSet::new(), analytics: None }
    });
    let cs: cask::Store = KegStore::new();
    let written = Timestamp { secs: 10_000, nanos: 0 };
    store.set_state_at(&fs, &cs, written).unwrap();
    let ttl = Duration { secs: 100, nanos: 0 };
    let engine = Engine::with_policy(store, brew(), Some(ttl));
    let receipts: formula::receipt::Store = KegStore::new();
    let cask_versions: cask::installed::VersionsStore = KegStore::new();
    // Just before the deadline the cached snapshot is served; at the
    // deadline it is refused.
    let before = Timestamp { secs: 10_099, nanos: 999_999_999 };
    let served = engine.cached_if_fresh_at(&receipts, &cask_versions, before).unwrap();
    assert!(served.expect("fresh at that instant").formulae.all.get(&"kept".to_string()).is_some());
    let at = Timestamp { secs: 10_100, nanos: 0 };
    assert!(engine.cached_if_fresh_at(&receipts, &cask_versions, at).unwrap().is_none());
}
