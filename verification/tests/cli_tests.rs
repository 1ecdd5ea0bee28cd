use brewer::cli::install::{Install, SelectError, Skip};
use brewer::cli::search::{Keg as SearchKeg, Search};
use brewer::cli::uninstall::{upstream_kegs, Keg as UninstallKeg, Uninstall};
use brewer::cli::which::Which;
use brewer::cli::{Exists, Found, Info, List};
use brewer::engine::State;
use brewer::models;
use brewer::models::cask;
use brewer::models::formula;
use brewer::models::keg::{State as KindState, Store as KegStore, StringSet};
use brewer::pretty;

fn formula_with(name: &str, executables: &[&str], count: Option<i64>) -> formula::Formula {
    formula::Formula {
        base: formula::base::Formula {
            name: name.to_string(),
            tap: "homebrew/core".to_string(),
            desc: None,
            homepage: None,
            caveats: None,
            build_dependencies: vec![],
            dependencies: vec![],
            deprecated: false,
            deprecation_reason: None,
            disabled: false,
            disable_reason: None,
            aliases: StringSet::new(),
            versions: formula::base::Versions { stable: "1.0".to_string(), head: None },
        },
        executables: StringSet::from_items(
            executables.iter().map(|s| s.to_string()).collect(),
        ),
        analytics: count.map(|number| formula::analytics::Formula {
            number,
            formula: name.to_string(),
        }),
    }
}

fn installed_formula(name: &str, on_request: bool) -> formula::installed::Formula {
    formula::installed::Formula {
        upstream: formula_with(name, &[], None),
        receipt: formula::receipt::Receipt {
            source: formula::receipt::Source {
                spec: formula::receipt::Spec::Stable,
                versions: formula::receipt::Versions {
                    stable: "1.0".to_string(),
                    head: None,
                },
            },
            installed_as_dependency: !on_request,
            installed_on_request: on_request,
        },
    }
}

fn cask_with(token: &str) -> cask::Cask {
    cask::Cask {
        base: cask::base::Cask {
            token: token.to_string(),
            tap: "homebrew/cask".to_string(),
            desc: None,
            version: "2.0".to_string(),
            caveats: None,
            homepage: None,
            deprecated: false,
            deprecation_reason: None,
            disabled: false,
            disable_reason: None,
            names: StringSet::new(),
        },
    }
}

fn installed_cask(token: &str) -> cask::installed::Cask {
    cask::installed::Cask {
        upstream: cask_with(token),
        versions: StringSet::from_items(vec!["2.0".to_string()]),
    }
}

fn sample_state() -> State {
    let mut f_all: formula::Store = KegStore::new();
    f_all.insert("wget".to_string(), formula_with("wget", &["wget"], Some(50)));
    f_all.insert("curl".to_string(), formula_with("curl", &["curl"], Some(900)));
    f_all.insert("aria2".to_string(), formula_with("aria2", &["aria2c", "wget"], None));
    let mut f_inst: formula::installed::Store = KegStore::new();
    f_inst.insert("curl".to_string(), installed_formula("curl", true));
    let mut c_all: cask::Store = KegStore::new();
    c_all.insert("firefox".to_string(), cask_with("firefox"));
    let mut c_inst: cask::installed::Store = KegStore::new();
    c_inst.insert("firefox".to_string(), installed_cask("firefox"));
    models::State {
        formulae: KindState { all: f_all, installed: f_inst },
        casks: KindState { all: c_all, installed: c_inst },
    }
}

#[test]
fn exists_checks_the_right_catalogs() {
    let state = sample_state();
    let any = Exists { name: "wget".to_string(), formula: false, cask: false };
    assert!(any.run(&state));
    let as_cask = Exists { name: "wget".to_string(), formula: false, cask: true };
    assert!(!as_cask.run(&state));
    let as_formula = Exists { name: "firefox".to_string(), formula: true, cask: false };
    assert!(!as_formula.run(&state));
    let missing = Exists { name: "nope".to_string(), formula: false, cask: false };
    assert!(!missing.run(&state));
}

#[test]
fn info_prefers_formulae_then_casks() {
    let state = sample_state();
    let info = Info {
        name: "curl".to_string(),
        cask: false,
        formula: false,
        open_homepage: false,
    };
    match info.find(&state) {
        Some(Found::Formula(f, inst)) => {
            assert_eq!(f.base.name, "curl".to_string());
            assert!(inst.is_some());
        },
        _ => panic!("expected a formula"),
    }
    let info = Info {
        name: "firefox".to_string(),
        cask: false,
        formula: false,
        open_homepage: false,
    };
    match info.find(&state) {
        Some(Found::Cask(c, inst)) => {
            assert_eq!(c.base.token, "firefox".to_string());
            assert!(inst.is_some());
        },
        _ => panic!("expected a cask"),
    }
    let info = Info {
        name: "firefox".to_string(),
        cask: false,
        formula: true,
        open_homepage: false,
    };
    assert!(info.find(&state).is_none());
}

#[test]
fn list_formulae_filters_and_sorts() {
    let mut installed: formula::installed::Store = KegStore::new();
    installed.insert("zsh".to_string(), installed_formula("zsh", true));
    installed.insert("bash".to_string(), installed_formula("bash", false));
    installed.insert("curl".to_string(), installed_formula("curl", true));
    let all = List {
        casks: false,
        formulae: true,
        installed_on_request: false,
        installed_as_dependency: false,
    };
    assert_eq!(
        all.list_formulae(&installed),
        vec!["bash".to_string(), "curl".to_string(), "zsh".to_string()],
    );
    let requested = List {
        casks: false,
        formulae: true,
        installed_on_request: true,
        installed_as_dependency: false,
    };
    assert_eq!(
        requested.list_formulae(&installed),
        vec!["curl".to_string(), "zsh".to_string()],
    );
    let deps = List {
        casks: false,
        formulae: true,
        installed_on_request: false,
        installed_as_dependency: true,
    };
    assert_eq!(deps.list_formulae(&installed), vec!["bash".to_string()]);
}

#[test]
fn list_casks_sorts_tokens() {
    let mut installed: cask::installed::Store = KegStore::new();
    installed.insert("zoom".to_string(), installed_cask("zoom"));
    installed.insert("alacritty".to_string(), installed_cask("alacritty"));
    let l = List {
        casks: true,
        formulae: false,
        installed_on_request: false,
        installed_as_dependency: false,
    };
    assert_eq!(
        l.list_casks(&installed),
        vec!["alacritty".to_string(), "zoom".to_string()],
    );
}

#[test]
fn which_ranks_providers_by_popularity() {
    let state = sample_state();
    let which = Which { name: None, all: true };
    let provided = which.formulae_providing(&state, &"wget".to_string());
    // Both "wget" and "aria2" provide a "wget" executable; the unranked
    // "aria2" counts as zero and comes first.
    assert_eq!(provided.len(), 2);
    assert_eq!(provided[0].base.name, "aria2".to_string());
    assert_eq!(provided[1].base.name, "wget".to_string());
    let none = which.formulae_providing(&state, &"nothing".to_string());
    assert!(none.is_empty());
}

#[test]
fn search_finds_matches_in_both_catalogs() {
    let state = sample_state();
    let search = Search { name: Some("curl".to_string()) };
    let hits = search.matched_kegs(&state, &"curl".to_string());
    assert_eq!(hits.len(), 1);
    match &hits[0] {
        SearchKeg::Formula(f, inst) => {
            assert_eq!(f.base.name, "curl".to_string());
            assert!(inst.is_some());
        },
        _ => panic!("expected a formula hit"),
    }
    let hits = search.matched_kegs(&state, &"fire".to_string());
    assert_eq!(hits.len(), 1);
    assert!(matches!(&hits[0], SearchKeg::Cask(_, _)));
    // An empty pattern matches the whole catalog.
    let hits = search.matched_kegs(&state, &"".to_string());
    assert_eq!(hits.len(), 4);
}

#[test]
fn install_selection_skips_and_takes() {
    let mut state = sample_state();
    let cmd = Install {
        names: vec!["curl".to_string(), "wget".to_string()],
        formula: false,
        cask: false,
        yes: true,
    };
    let (kegs, skips) = cmd.get_kegs_from_args(&mut state).unwrap();
    // "curl" is already installed and is skipped; "wget" is taken out of
    // the catalog.
    assert_eq!(kegs.len(), 1);
    assert!(matches!(&kegs[0], models::Keg::Formula(f) if f.base.name == "wget"));
    assert_eq!(skips.len(), 1);
    assert!(matches!(&skips[0], Skip::Formula(n) if n == "curl"));
    assert!(state.formulae.all.get(&"wget".to_string()).is_none());
}

#[test]
fn install_selection_unknown_name_fails() {
    let mut state = sample_state();
    let cmd = Install {
        names: vec!["nope".to_string()],
        formula: false,
        cask: false,
        yes: true,
    };
    match cmd.get_kegs_from_args(&mut state) {
        Err(SelectError::KegNotFound(n)) => assert_eq!(n, "nope".to_string()),
        _ => panic!("expected a missing keg"),
    }
}

#[test]
fn uninstall_selection_takes_installed() {
    let mut state = sample_state();
    let cmd = Uninstall {
        names: vec!["firefox".to_string()],
        formula: false,
        cask: false,
        yes: true,
    };
    let kegs = cmd.get_kegs_from_args(&mut state).unwrap();
    assert_eq!(kegs.len(), 1);
    assert!(matches!(&kegs[0], UninstallKeg::Cask(c) if c.upstream.base.token == "firefox"));
    assert!(state.casks.installed.get(&"firefox".to_string()).is_none());
    let upstreams = upstream_kegs(kegs);
    assert!(matches!(&upstreams[0], models::Keg::Cask(c) if c.base.token == "firefox"));
}

#[test]
fn uninstall_selection_not_installed_fails() {
    let mut state = sample_state();
    let cmd = Uninstall {
        names: vec!["wget".to_string()],
        formula: false,
        cask: false,
        yes: true,
    };
    match cmd.get_kegs_from_args(&mut state) {
        Err(SelectError::NotInstalled(n)) => assert_eq!(n, "wget".to_string()),
        _ => panic!("expected a not-installed error"),
    }
}

#[test]
fn plan_lists_provided_executables() {
    let kegs = vec![
        models::Keg::Formula(formula_with("aria2", &["aria2c", "wget"], None)),
        models::Keg::Cask(cask_with("firefox")),
    ];
    let exes = brewer::cli::install::plan_executables(&kegs);
    assert_eq!(exes, vec!["aria2c".to_string(), "wget".to_string()]);
}

#[test]
fn pretty_bool_marks() {
    assert_eq!(pretty::bool(true), "✔".to_string());
    assert_eq!(pretty::bool(false), "✗".to_string());
}

#[test]
fn chunk_size_counts_greedily() {
    let values = vec!["aa".to_string(), "bbb".to_string()];
    // Lengths sorted falling: [3, 2]; the row starts at 3; 3+3+2 < 10 adds
    // one, 8+2+2 < 10 fails: two names per row.
    assert_eq!(pretty::calculate_chunk_size(&values, 2, 10), 2);
    // Nothing fits a tiny row beyond the first name.
    assert_eq!(pretty::calculate_chunk_size(&values, 2, 4), 1);
    // An empty listing keeps the minimum of one per row.
    let empty: Vec<String> = vec![];
    assert_eq!(pretty::calculate_chunk_size(&empty, 2, 80), 1);
}
