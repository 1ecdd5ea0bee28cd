use brewer::models::formula::receipt::{Receipt, Source, Spec, Versions};
use brewer::models::keg::{Store, StringSet};

fn set(items: &[&str]) -> StringSet {
    StringSet::from_items(items.iter().map(|s| s.to_string()).collect())
}

#[test]
fn store_insert_get_len() {
    let mut s: Store<u64> = Store::new();
    assert_eq!(s.len(), 0);
    assert!(s.is_empty());
    s.insert("a".to_string(), 1);
    s.insert("b".to_string(), 2);
    assert_eq!(s.len(), 2);
    assert!(!s.is_empty());
    assert_eq!(s.get(&"a".to_string()), Some(&1));
    assert_eq!(s.get(&"b".to_string()), Some(&2));
    assert_eq!(s.get(&"c".to_string()), None);
    assert!(s.contains_key(&"a".to_string()));
    assert!(!s.contains_key(&"c".to_string()));
}

#[test]
fn store_insert_overwrites() {
    let mut s: Store<u64> = Store::new();
    s.insert("a".to_string(), 1);
    s.insert("a".to_string(), 7);
    assert_eq!(s.len(), 1);
    assert_eq!(s.get(&"a".to_string()), Some(&7));
}

#[test]
fn store_remove() {
    let mut s: Store<u64> = Store::new();
    s.insert("a".to_string(), 1);
    s.insert("b".to_string(), 2);
    assert_eq!(s.remove(&"a".to_string()), Some(1));
    assert_eq!(s.remove(&"a".to_string()), None);
    assert_eq!(s.len(), 1);
    assert_eq!(s.get(&"b".to_string()), Some(&2));
}

#[test]
fn store_keys_in_order() {
    let mut s: Store<u64> = Store::new();
    s.insert("x".to_string(), 1);
    s.insert("y".to_string(), 2);
    assert_eq!(s.keys(), vec!["x".to_string(), "y".to_string()]);
}

#[test]
fn string_set_dedups() {
    let mut s = StringSet::new();
    assert!(s.is_empty());
    s.insert("curl".to_string());
    s.insert("curl".to_string());
    s.insert("wget".to_string());
    assert_eq!(s.len(), 2);
    assert!(s.contains(&"curl".to_string()));
    assert!(s.contains(&"wget".to_string()));
    assert!(!s.contains(&"jq".to_string()));
}

#[test]
fn string_set_from_items_keeps_first() {
    let s = set(&["b", "a", "b", "c", "a"]);
    assert_eq!(s.items, vec!["b".to_string(), "a".to_string(), "c".to_string()]);
}

#[test]
fn source_version_stable() {
    let src = Source {
        spec: Spec::Stable,
        versions: Versions { stable: "1.2.3".to_string(), head: Some("HEAD-9".to_string()) },
    };
    assert_eq!(src.version(), "1.2.3".to_string());
}

#[test]
fn source_version_head() {
    let src = Source {
        spec: Spec::Head,
        versions: Versions { stable: "1.2.3".to_string(), head: Some("HEAD-9".to_string()) },
    };
    assert_eq!(src.version(), "HEAD-9".to_string());
}

#[test]
fn source_version_head_missing() {
    let src = Source {
        spec: Spec::Head,
        versions: Versions { stable: "1.2.3".to_string(), head: None },
    };
    assert_eq!(src.version(), "HEAD".to_string());
}

#[test]
fn receipt_flags_carry() {
    let r = Receipt {
        source: Source {
            spec: Spec::Stable,
            versions: Versions { stable: "1".to_string(), head: None },
        },
        installed_as_dependency: false,
        installed_on_request: true,
    };
    assert!(r.installed_on_request);
    assert!(!r.installed_as_dependency);
}
