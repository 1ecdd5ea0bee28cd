use std::time::{SystemTime, UNIX_EPOCH};

use brewer::models::cask;
use brewer::models::formula;
use brewer::models::keg::{Store as KegStore, StringSet};
use brewer::store::{Store, StoreError};
use brewer::time::Timestamp;

fn fresh_path(tag: &str) -> String {
    let nanos = SystemTime::now().duration_since(UNIX_EPOCH).unwrap().as_nanos();
    format!("/tmp/brewer_test_{tag}_{nanos}.db")
}

fn formula(name: &str) -> formula::Formula {
    formula::Formula {
        base: formula::base::Formula {
            name: name.to_string(),
            tap: "homebrew/core".to_string(),
            desc: None,
            homepage: None,
            caveats: None,
            build_dependencies: vec![],
            dependencies: vec![],
            deprecated: false,
            deprecation_reason: None,
            disabled: false,
            disable_reason: None,
            aliases: StringSet::new(),
            versions: formula::base::Versions { stable: "1".to_string(), head: None },
        },
        executables: StringSet::new(),
        analytics: None,
    }
}

#[test]
fn fresh_store_is_empty() {
    let store = Store::open(&fresh_path("fresh")).unwrap();
    // A store never written to has no snapshot and no update time: both are
    // valid absences, not failures.
    assert!(matches!(store.last_update(), Ok(None)));
    assert!(matches!(store.get_state(), Ok(None)));
}

#[test]
fn set_state_then_get_state_round_trips() {
    let mut store = Store::open(&fresh_path("round")).unwrap();
    let mut fs: formula::Store = KegStore::new();
    fs.insert("curl".to_string(), formula("curl"));
    let cs: cask::Store = KegStore::new();
    let ts = Timestamp { secs: 1_700_000_000, nanos: 500 };
    store.set_state_at(&fs, &cs, ts).unwrap();
    let got = store.get_state().unwrap().expect("snapshot present");
    assert_eq!(got.formulae.len(), 1);
    let curl = got.formulae.get(&"curl".to_string()).unwrap();
    assert_eq!(curl.base.name, "curl".to_string());
    assert_eq!(curl.base.versions.stable, "1".to_string());
    assert_eq!(got.casks.len(), 0);
    assert_eq!(store.last_update().unwrap(), Some(ts));
}

#[test]
fn set_state_overwrites_wholesale() {
    let mut store = Store::open(&fresh_path("overwrite")).unwrap();
    let mut fs: formula::Store = KegStore::new();
    fs.insert("old".to_string(), formula("old"));
    let cs: cask::Store = KegStore::new();
    store.set_state_at(&fs, &cs, Timestamp { secs: 1, nanos: 0 }).unwrap();
    let mut fs2: formula::Store = KegStore::new();
    fs2.insert("new".to_string(), formula("new"));
    store.set_state_at(&fs2, &cs, Timestamp { secs: 2, nanos: 0 }).unwrap();
    let got = store.get_state().unwrap().unwrap();
    assert!(got.formulae.get(&"old".to_string()).is_none());
    assert!(got.formulae.get(&"new".to_string()).is_some());
    assert_eq!(store.last_update().unwrap(), Some(Timestamp { secs: 2, nanos: 0 }));
}

#[test]
fn set_state_stamps_within_call_window() {
    let mut store = Store::open(&fresh_path("window")).unwrap();
    let fs: formula::Store = KegStore::new();
    let cs: cask::Store = KegStore::new();
    let before = chrono::Utc::now().timestamp();
    store.set_state(&fs, &cs).unwrap();
    let after = chrono::Utc::now().timestamp();
    let ts = store.last_update().unwrap().expect("timestamp present");
    assert!(ts.secs >= before - 1);
    assert!(ts.secs <= after + 1);
}

#[test]
fn open_failure_reports_db_error() {
    let r = Store::open("/tmp/no_such_dir_for_brewer_tests/x/y/z.db");
    assert!(matches!(r, Err(StoreError::Db(_))));
}

#[test]
fn corrupt_state_is_an_error_not_absence() {
    let path = fresh_path("corrupt");
    {
        let db = jammdb::DB::open(&path).unwrap();
        let tx = db.tx(true).unwrap();
        let bucket = tx.get_or_create_bucket("state").unwrap();
        bucket.put("state", vec![9u8, 9, 9]).unwrap();
        tx.commit().unwrap();
    }
    let store = Store::open(&path).unwrap();
    assert!(matches!(store.get_state(), Err(StoreError::Corrupt)));
    // The timestamp side is untouched and still reads as absent.
    assert!(matches!(store.last_update(), Ok(None)));
}
