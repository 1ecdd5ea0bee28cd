use brewer::brew::Brew;
use brewer::models;
use brewer::models::cask;
use brewer::models::formula;
use brewer::models::keg::{Store, StringSet};

fn brew() -> Brew {
    Brew::new("brew".to_string(), "/opt/homebrew".to_string())
}

fn base_formula(name: &str) -> formula::base::Formula {
    formula::base::Formula {
        name: name.to_string(),
        tap: "homebrew/core".to_string(),
        desc: Some("a tool".to_string()),
        homepage: Some("https://example.org".to_string()),
        caveats: None,
        build_dependencies: vec![],
        dependencies: vec![],
        deprecated: false,
        deprecation_reason: None,
        disabled: false,
        disable_reason: None,
        aliases: StringSet::new(),
        versions: formula::base::Versions { stable: "1.0".to_string(), head: None },
    }
}

fn base_cask(token: &str) -> cask::base::Cask {
    cask::base::Cask {
        token: token.to_string(),
        tap: "homebrew/cask".to_string(),
        desc: None,
        version: "2.0".to_string(),
        caveats: None,
        homepage: Some("https://example.org".to_string()),
        deprecated: false,
        deprecation_reason: None,
        disabled: false,
        disable_reason: None,
        names: StringSet::new(),
    }
}

#[test]
fn is_dotfile_cases() {
    assert!(Brew::is_dotfile(".git"));
    assert!(Brew::is_dotfile("."));
    assert!(!Brew::is_dotfile("wget"));
    assert!(!Brew::is_dotfile(""));
}

#[test]
fn executables_index_basic_line() {
    let store = brew().executables("curl(1): curl");
    let s = store.get(&"curl".to_string()).expect("curl entry");
    assert_eq!(s.items, vec!["curl".to_string()]);
}

#[test]
fn executables_index_line_without_colon_skipped() {
    let store = brew().executables("justtext\ncurl(1): curl\n");
    assert_eq!(store.len(), 1);
    assert!(store.get(&"justtext".to_string()).is_none());
    assert!(store.get(&"curl".to_string()).is_some());
}

#[test]
fn executables_index_line_without_paren_skipped() {
    let store = brew().executables("curl: curl\n");
    assert_eq!(store.len(), 0);
}

#[test]
fn executables_index_empty_lines_skipped() {
    let store = brew().executables("\n\nwget(1): wget wget2\n\n");
    assert_eq!(store.len(), 1);
    let s = store.get(&"wget".to_string()).expect("wget entry");
    assert_eq!(s.items, vec!["wget".to_string(), "wget2".to_string()]);
}

#[test]
fn executables_index_dedups_and_crlf() {
    let store = brew().executables("git(1): git git\r\ncurl(1): curl\r\n");
    let g = store.get(&"git".to_string()).expect("git entry");
    assert_eq!(g.items, vec!["git".to_string()]);
    let c = store.get(&"curl".to_string()).expect("curl entry");
    assert_eq!(c.items, vec!["curl".to_string()]);
}

#[test]
fn executables_index_later_line_overrides() {
    let store = brew().executables("x(1): a\nx(1): b\n");
    let s = store.get(&"x".to_string()).expect("x entry");
    assert_eq!(s.items, vec!["b".to_string()]);
}

#[test]
fn eval_all_keys_by_name_and_token() {
    let state = brew().eval_all(
        &vec![base_formula("wget"), base_formula("curl")],
        &vec![base_cask("firefox")],
    );
    assert_eq!(state.formulae.len(), 2);
    assert!(state.formulae.get(&"wget".to_string()).is_some());
    assert!(state.formulae.get(&"curl".to_string()).is_some());
    assert_eq!(state.casks.len(), 1);
    assert!(state.casks.get(&"firefox".to_string()).is_some());
}

#[test]
fn merged_installed_is_key_intersection() {
    let b = brew();
    let bases = b.eval_all(&vec![base_formula("wget"), base_formula("jq")], &vec![]);
    let exec_index: formula::Executables = Store::new();
    let all = b.enrich_formulae(&bases.formulae, &exec_index);
    let mut receipts: formula::receipt::Store = Store::new();
    receipts.insert(
        "jq".to_string(),
        formula::receipt::Receipt {
            source: formula::receipt::Source {
                spec: formula::receipt::Spec::Stable,
                versions: formula::receipt::Versions { stable: "1.7".to_string(), head: None },
            },
            installed_as_dependency: false,
            installed_on_request: true,
        },
    );
    receipts.insert(
        "ghost".to_string(),
        formula::receipt::Receipt {
            source: formula::receipt::Source {
                spec: formula::receipt::Spec::Stable,
                versions: formula::receipt::Versions { stable: "0".to_string(), head: None },
            },
            installed_as_dependency: true,
            installed_on_request: false,
        },
    );
    let installed = b.eval_installed_formulae(&all, &receipts);
    // "jq" is in both the catalog and the evidence; "wget" has no receipt and
    // "ghost" is unknown to the catalog, so neither appears.
    assert_eq!(installed.len(), 1);
    let jq = installed.get(&"jq".to_string()).expect("jq installed");
    assert!(jq.receipt.installed_on_request);
    assert_eq!(jq.upstream.base.name, "jq".to_string());
}

#[test]
fn state_enriches_executables_and_merges() {
    let b = brew();
    let exec_index = b.executables("curl(1): curl\nwget(1): wget\n");
    let mut cask_versions: cask::installed::VersionsStore = Store::new();
    cask_versions.insert(
        "firefox".to_string(),
        StringSet::from_items(vec!["2.0".to_string()]),
    );
    let mut receipts: formula::receipt::Store = Store::new();
    receipts.insert(
        "curl".to_string(),
        formula::receipt::Receipt {
            source: formula::receipt::Source {
                spec: formula::receipt::Spec::Stable,
                versions: formula::receipt::Versions { stable: "1.0".to_string(), head: None },
            },
            installed_as_dependency: false,
            installed_on_request: true,
        },
    );
    let state: models::State<formula::State, cask::State> = b.state(
        &vec![base_formula("curl"), base_formula("jq")],
        &vec![base_cask("firefox")],
        &exec_index,
        &receipts,
        &cask_versions,
    );
    // Scenario: the index line `curl(1): curl` gives the catalog formula
    // named "curl" the executables set {"curl"}; "jq" is not in the index
    // and gets the empty set, never an absent one.
    let curl = state.formulae.all.get(&"curl".to_string()).expect("curl");
    assert_eq!(curl.executables.items, vec!["curl".to_string()]);
    let jq = state.formulae.all.get(&"jq".to_string()).expect("jq");
    assert!(jq.executables.is_empty());
    assert!(curl.analytics.is_none());
    // Installed sides merged.
    assert!(state.formulae.installed.get(&"curl".to_string()).is_some());
    assert!(state.formulae.installed.get(&"jq".to_string()).is_none());
    let ff = state.casks.installed.get(&"firefox".to_string()).expect("firefox");
    assert_eq!(ff.versions.items, vec!["2.0".to_string()]);
}
