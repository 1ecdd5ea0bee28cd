use brewer::codec;
use brewer::codec::records;
use brewer::codec::snapshot;
use brewer::models;
use brewer::models::cask;
use brewer::models::formula;
use brewer::models::keg::{Store, StringSet};
use brewer::time::Timestamp;

fn rich_formula(name: &str, count: i64) -> formula::Formula {
    formula::Formula {
        base: formula::base::Formula {
            name: name.to_string(),
            tap: "homebrew/core".to_string(),
            desc: Some("desc".to_string()),
            homepage: None,
            caveats: Some("careful".to_string()),
            build_dependencies: vec!["cmake".to_string()],
            dependencies: vec!["openssl".to_string(), "zlib".to_string()],
            deprecated: true,
            deprecation_reason: Some("old".to_string()),
            disabled: false,
            disable_reason: None,
            aliases: StringSet::from_items(vec!["alias1".to_string(), "alias2".to_string()]),
            versions: formula::base::Versions {
                stable: "3.1".to_string(),
                head: Some("HEAD".to_string()),
            },
        },
        executables: StringSet::from_items(vec![name.to_string()]),
        analytics: Some(formula::analytics::Formula { number: count, formula: name.to_string() }),
    }
}

fn rich_cask(token: &str) -> cask::Cask {
    cask::Cask {
        base: cask::base::Cask {
            token: token.to_string(),
            tap: "homebrew/cask".to_string(),
            desc: None,
            version: "7.7".to_string(),
            caveats: None,
            homepage: Some("https://example.org".to_string()),
            deprecated: false,
            deprecation_reason: None,
            disabled: true,
            disable_reason: Some("gone".to_string()),
            names: StringSet::from_items(vec!["Example".to_string()]),
        },
    }
}

#[test]
fn u64_round_trip() {
    let mut out = Vec::new();
    codec::encode_u64(0, &mut out);
    codec::encode_u64(1, &mut out);
    codec::encode_u64(u64::MAX, &mut out);
    let (a, p1) = codec::decode_u64(&out, 0).unwrap();
    let (b, p2) = codec::decode_u64(&out, p1).unwrap();
    let (c, _) = codec::decode_u64(&out, p2).unwrap();
    assert_eq!(a, 0);
    assert_eq!(b, 1);
    assert_eq!(c, u64::MAX);
    assert!(codec::decode_u64(&out, 17).is_none());
}

#[test]
fn i64_round_trip() {
    let mut out = Vec::new();
    codec::encode_i64(-42, &mut out);
    codec::encode_i64(i64::MIN, &mut out);
    codec::encode_i64(i64::MAX, &mut out);
    let (a, p1) = codec::decode_i64(&out, 0).unwrap();
    let (b, p2) = codec::decode_i64(&out, p1).unwrap();
    let (c, _) = codec::decode_i64(&out, p2).unwrap();
    assert_eq!(a, -42);
    assert_eq!(b, i64::MIN);
    assert_eq!(c, i64::MAX);
}

#[test]
fn bool_rejects_junk() {
    let mut out = Vec::new();
    codec::encode_bool(true, &mut out);
    assert_eq!(codec::decode_bool(&out, 0), Some((true, 1)));
    let junk = vec![2u8];
    assert!(codec::decode_bool(&junk, 0).is_none());
}

#[test]
fn str_round_trip_unicode() {
    let mut out = Vec::new();
    codec::encode_str("héllo ✔ wörld", &mut out);
    let (s, p) = codec::decode_str(&out, 0).unwrap();
    assert_eq!(s, "héllo ✔ wörld".to_string());
    assert_eq!(p, out.len());
}

#[test]
fn str_rejects_bad_utf8() {
    let mut out = Vec::new();
    codec::encode_u64(2, &mut out);
    out.push(0xff);
    out.push(0xfe);
    assert!(codec::decode_str(&out, 0).is_none());
}

#[test]
fn opt_str_round_trip() {
    let mut out = Vec::new();
    codec::encode_opt_str(&Some("x".to_string()), &mut out);
    codec::encode_opt_str(&None, &mut out);
    let (a, p1) = codec::decode_opt_str(&out, 0).unwrap();
    let (b, _) = codec::decode_opt_str(&out, p1).unwrap();
    assert_eq!(a, Some("x".to_string()));
    assert_eq!(b, None);
}

#[test]
fn string_vec_round_trip() {
    let v = vec!["a".to_string(), "".to_string(), "ccc".to_string()];
    let mut out = Vec::new();
    codec::encode_string_vec(&v, &mut out);
    let (r, p) = codec::decode_string_vec(&out, 0).unwrap();
    assert_eq!(r, v);
    assert_eq!(p, out.len());
}

#[test]
fn formula_round_trip() {
    let f = rich_formula("curl", 1000);
    let mut out = Vec::new();
    records::encode_formula(&f, &mut out);
    let (g, p) = records::decode_formula(&out, 0).unwrap();
    assert_eq!(p, out.len());
    assert_eq!(g.base.name, f.base.name);
    assert_eq!(g.base.desc, f.base.desc);
    assert_eq!(g.base.caveats, f.base.caveats);
    assert_eq!(g.base.dependencies, f.base.dependencies);
    assert_eq!(g.base.deprecated, f.base.deprecated);
    assert_eq!(g.base.deprecation_reason, f.base.deprecation_reason);
    assert_eq!(g.base.aliases.items, f.base.aliases.items);
    assert_eq!(g.base.versions.stable, f.base.versions.stable);
    assert_eq!(g.base.versions.head, f.base.versions.head);
    assert_eq!(g.executables.items, f.executables.items);
    let ga = g.analytics.unwrap();
    assert_eq!(ga.number, 1000);
    assert_eq!(ga.formula, "curl".to_string());
}

#[test]
fn state_round_trip() {
    let mut fs: formula::Store = Store::new();
    fs.insert("curl".to_string(), rich_formula("curl", 5));
    fs.insert("wget".to_string(), rich_formula("wget", -1));
    let mut cs: cask::Store = Store::new();
    cs.insert("firefox".to_string(), rich_cask("firefox"));
    let mut out = Vec::new();
    snapshot::encode_state(&fs, &cs, &mut out);
    let (st, p) = snapshot::decode_state(&out, 0).unwrap();
    assert_eq!(p, out.len());
    let st: models::State<formula::Store, cask::Store> = st;
    assert_eq!(st.formulae.len(), 2);
    assert_eq!(st.casks.len(), 1);
    let curl = st.formulae.get(&"curl".to_string()).unwrap();
    assert_eq!(curl.base.name, "curl".to_string());
    assert_eq!(curl.analytics.as_ref().unwrap().number, 5);
    let wget = st.formulae.get(&"wget".to_string()).unwrap();
    assert_eq!(wget.analytics.as_ref().unwrap().number, -1);
    let ff = st.casks.get(&"firefox".to_string()).unwrap();
    assert_eq!(ff.base.version, "7.7".to_string());
    assert_eq!(ff.base.disable_reason, Some("gone".to_string()));
    assert_eq!(ff.base.names.items, vec!["Example".to_string()]);
}

#[test]
fn empty_state_round_trip() {
    let fs: formula::Store = Store::new();
    let cs: cask::Store = Store::new();
    let mut out = Vec::new();
    snapshot::encode_state(&fs, &cs, &mut out);
    let (st, _) = snapshot::decode_state(&out, 0).unwrap();
    assert_eq!(st.formulae.len(), 0);
    assert_eq!(st.casks.len(), 0);
}

#[test]
fn state_rejects_garbage() {
    let junk = vec![9u8, 9, 9];
    assert!(snapshot::decode_state(&junk, 0).is_none());
}

#[test]
fn timestamp_round_trip() {
    let ts = Timestamp { secs: -123456, nanos: 999_999_999 };
    let mut out = Vec::new();
    brewer::time::encode_ts(ts, &mut out);
    let (r, p) = brewer::time::decode_ts(&out, 0).unwrap();
    assert_eq!(r, ts);
    assert_eq!(p, out.len());
}
