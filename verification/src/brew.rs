use vstd::prelude::*;

use crate::codec::snapshot::{cstore_values_wf, fstore_values_wf};
use crate::models;
use crate::models::cask;
use crate::models::formula;
use crate::models::keg;
use crate::models::keg::StringSet;

verus! {

/// Where the external manager lives: the command to invoke and the prefix
/// under which it keeps installed units. The invocations themselves, and the
/// filesystem walks that gather installation evidence, happen outside this
/// library; the merge steps below take their results as plain values.
#[derive(Debug)]
pub struct Brew {
    pub path: String,
    pub prefix: String,
}

/// The keyed map a bulk formula listing collects into: each record under its
/// name, later records overriding earlier ones.
pub open spec fn indexed_formulae(s: Seq<formula::base::FormulaModel>) -> Map<
    Seq<char>,
    formula::base::FormulaModel,
>
    decreases s.len(),
{
    if s.len() == 0 {
        Map::empty()
    } else {
        indexed_formulae(s.drop_last()).insert(s.last().name, s.last())
    }
}

/// The keyed map a bulk cask listing collects into, keyed by token.
pub open spec fn indexed_casks(s: Seq<cask::base::CaskModel>) -> Map<
    Seq<char>,
    cask::base::CaskModel,
>
    decreases s.len(),
{
    if s.len() == 0 {
        Map::empty()
    } else {
        indexed_casks(s.drop_last()).insert(s.last().token, s.last())
    }
}

/// A catalog formula as built from a base record and the executable index:
/// the executables known for its name, or the empty set where the index is
/// silent; no analytics record comes from the bulk listing.
pub open spec fn enriched_formula(
    key: Seq<char>,
    base: formula::base::FormulaModel,
    executables: Map<Seq<char>, Seq<Seq<char>>>,
) -> formula::FormulaModel {
    formula::FormulaModel {
        base: base,
        executables: if executables.contains_key(key) {
            executables[key]
        } else {
            Seq::empty()
        },
        analytics: None,
    }
}

impl Brew {
    pub fn new(path: String, prefix: String) -> (r: Brew)
        ensures
            r.path@ == path@,
            r.prefix@ == prefix@,
    {
        Brew { path, prefix }
    }

    /// Whether a directory entry name is a dotfile, which evidence scans skip.
    pub fn is_dotfile(name: &str) -> (r: bool)
        ensures
            r == (name@.len() > 0 && name@[0] == '.'),
    {
        if name.is_empty() {
            false
        } else {
            name.get_char(0) == '.'
        }
    }

    /// Merges installation receipts against a catalog: every receipt whose
    /// key the catalog holds becomes an installed formula, combining the
    /// catalog entry with the receipt; a receipt for a key the catalog lacks
    /// is discarded. The result's keys are exactly the keys present in both.
    pub fn eval_installed_formulae(
        &self,
        store: &formula::Store,
        receipts: &formula::receipt::Store,
    ) -> (r: formula::installed::Store)
        requires
            store.wf(),
            receipts.wf(),
        ensures
            r.wf(),
            r@.dom() == store@.dom().intersect(receipts@.dom()),
            forall|k: Seq<char>|
                r@.contains_key(k) ==> r.deep_view()[k] == (formula::installed::FormulaModel {
                    upstream: store.deep_view()[k],
                    receipt: receipts.deep_view()[k],
                }),
    {
        let mut installed = formula::installed::Store::new();
        let n = receipts.entries.len();
        for i in 0..n
            invariant
                n == receipts.entries@.len(),
                store.wf(),
                receipts.wf(),
                installed.wf(),
                installed@.dom() =~= store@.dom().intersect(
                    keg::key_set_upto(receipts.entries@, i as int),
                ),
                forall|k: Seq<char>|
                    installed@.contains_key(k) ==> installed.deep_view()[k] == (
                    formula::installed::FormulaModel {
                        upstream: store.deep_view()[k],
                        receipt: receipts.deep_view()[k],
                    }),
        {
            let name = &receipts.entries[i].0;
            let receipt = &receipts.entries[i].1;
            let ghost dv0 = installed.deep_view();
            match store.get(name) {
                Some(f) => {
                    proof {
                        keg::lemma_entries_map_index(receipts.entries@, i as int);
                    }
                    installed.insert(
                        name.clone(),
                        formula::installed::Formula {
                            upstream: f.clone(),
                            receipt: receipt.clone(),
                        },
                    );
                    proof {
                        assert forall|k: Seq<char>| installed@.contains_key(k) implies installed
                            .deep_view()[k] == (formula::installed::FormulaModel {
                            upstream: store.deep_view()[k],
                            receipt: receipts.deep_view()[k],
                        }) by {
                            if k != name@ {
                                assert(dv0[k] == installed.deep_view()[k]);
                            }
                        }
                        assert(installed@.dom() =~= store@.dom().intersect(
                            keg::key_set_upto(receipts.entries@, i + 1),
                        ));
                    }
                },
                None => {
                    proof {
                        assert(installed@.dom() =~= store@.dom().intersect(
                            keg::key_set_upto(receipts.entries@, i + 1),
                        ));
                    }
                },
            }
        }
        proof {
            keg::lemma_key_set_full(receipts.entries@);
        }
        installed
    }

    /// Merges observed cask version directories against a catalog, the same
    /// way receipts merge: evidence under a key the catalog lacks is dropped,
    /// and the rest combines catalog entry with the observed version set.
    pub fn eval_installed_casks(
        &self,
        store: &cask::Store,
        versions: &cask::installed::VersionsStore,
    ) -> (r: cask::installed::Store)
        requires
            store.wf(),
            versions.wf(),
        ensures
            r.wf(),
            r@.dom() == store@.dom().intersect(versions@.dom()),
            forall|k: Seq<char>|
                r@.contains_key(k) ==> r.deep_view()[k] == (cask::installed::CaskModel {
                    upstream: store.deep_view()[k],
                    versions: versions.deep_view()[k],
                }),
    {
        let mut installed = cask::installed::Store::new();
        let n = versions.entries.len();
        for i in 0..n
            invariant
                n == versions.entries@.len(),
                store.wf(),
                versions.wf(),
                installed.wf(),
                installed@.dom() =~= store@.dom().intersect(
                    keg::key_set_upto(versions.entries@, i as int),
                ),
                forall|k: Seq<char>|
                    installed@.contains_key(k) ==> installed.deep_view()[k] == (
                    cask::installed::CaskModel {
                        upstream: store.deep_view()[k],
                        versions: versions.deep_view()[k],
                    }),
        {
            let name = &versions.entries[i].0;
            let vset = &versions.entries[i].1;
            let ghost dv0 = installed.deep_view();
            match store.get(name) {
                Some(c) => {
                    proof {
                        keg::lemma_entries_map_index(versions.entries@, i as int);
                    }
                    installed.insert(
                        name.clone(),
                        cask::installed::Cask { upstream: c.clone(), versions: vset.clone() },
                    );
                    proof {
                        assert forall|k: Seq<char>| installed@.contains_key(k) implies installed
                            .deep_view()[k] == (cask::installed::CaskModel {
                            upstream: store.deep_view()[k],
                            versions: versions.deep_view()[k],
                        }) by {
                            if k != name@ {
                                assert(dv0[k] == installed.deep_view()[k]);
                            }
                        }
                        assert(installed@.dom() =~= store@.dom().intersect(
                            keg::key_set_upto(versions.entries@, i + 1),
                        ));
                    }
                },
                None => {
                    proof {
                        assert(installed@.dom() =~= store@.dom().intersect(
                            keg::key_set_upto(versions.entries@, i + 1),
                        ));
                    }
                },
            }
        }
        proof {
            keg::lemma_key_set_full(versions.entries@);
        }
        installed
    }

    /// Keys a bulk catalog listing: each formula under its name, each cask
    /// under its token; a later record under the same key overrides an
    /// earlier one, as collecting into a keyed map would.
    pub fn eval_all(
        &self,
        formulae: &Vec<formula::base::Formula>,
        casks: &Vec<cask::base::Cask>,
    ) -> (r: models::State<formula::base::Store, cask::base::Store>)
        requires
            forall|i: int|
                0 <= i < formulae@.len() ==> (#[trigger] formulae@[i]).aliases.wf(),
            forall|i: int| 0 <= i < casks@.len() ==> (#[trigger] casks@[i]).names.wf(),
        ensures
            r.formulae.wf(),
            r.casks.wf(),
            r.formulae.deep_view() == indexed_formulae(formulae.deep_view()),
            r.casks.deep_view() == indexed_casks(casks.deep_view()),
            forall|k: Seq<char>|
                r.formulae@.contains_key(k) ==> (#[trigger] r.formulae@[k]).aliases.wf(),
            forall|k: Seq<char>|
                r.casks@.contains_key(k) ==> (#[trigger] r.casks@[k]).names.wf(),
    {
        let mut fs = formula::base::Store::new();
        let n = formulae.len();
        for i in 0..n
            invariant
                n == formulae@.len(),
                fs.wf(),
                fs.deep_view() =~= indexed_formulae(formulae.deep_view().take(i as int)),
                forall|i: int|
                    0 <= i < formulae@.len() ==> (#[trigger] formulae@[i]).aliases.wf(),
                forall|k: Seq<char>|
                    fs@.contains_key(k) ==> (#[trigger] fs@[k]).aliases.wf(),
        {
            let f = &formulae[i];
            let ghost dv0 = fs.deep_view();
            let ghost m0 = fs@;
            let fc = f.clone();
            proof {
                assert(fc.deep_view() == formulae@[i as int].deep_view());
                assert(fc.aliases@ == formulae@[i as int].aliases@);
                assert(fc.aliases.wf());
            }
            let ghost fcg = fc;
            fs.insert(f.name.clone(), fc);
            proof {
                assert forall|k: Seq<char>| fs@.contains_key(k) implies (
                #[trigger] fs@[k]).aliases.wf() by {
                    if k != formulae@[i as int].name@ {
                        assert(fs@[k] == m0[k]);
                    } else {
                        assert(fs@[k] == fcg);
                    }
                }
            }
            proof {
                assert(formulae.deep_view().take(i + 1).drop_last() =~= formulae.deep_view().take(
                    i as int,
                ));
                assert(formulae.deep_view().take(i + 1).last() == formulae@[i as int].deep_view());
                assert forall|k: Seq<char>|
                    #[trigger] fs.deep_view().contains_key(k)
                        == indexed_formulae(formulae.deep_view().take(i + 1)).contains_key(k)
                        && (fs.deep_view().contains_key(k) ==> fs.deep_view()[k]
                        == indexed_formulae(formulae.deep_view().take(i + 1))[k]) by {
                    if k != formulae@[i as int].deep_view().name {
                        if fs@.contains_key(k) {
                            assert(fs.deep_view()[k] == dv0[k]);
                        }
                    }
                }
                assert(fs.deep_view() =~= indexed_formulae(formulae.deep_view().take(i + 1)));
            }
        }
        let mut cs = cask::base::Store::new();
        let m = casks.len();
        for i in 0..m
            invariant
                m == casks@.len(),
                cs.wf(),
                cs.deep_view() =~= indexed_casks(casks.deep_view().take(i as int)),
                forall|i: int| 0 <= i < casks@.len() ==> (#[trigger] casks@[i]).names.wf(),
                forall|k: Seq<char>|
                    cs@.contains_key(k) ==> (#[trigger] cs@[k]).names.wf(),
        {
            let c = &casks[i];
            let ghost dv0 = cs.deep_view();
            let ghost m0 = cs@;
            let cc = c.clone();
            proof {
                assert(cc.deep_view() == casks@[i as int].deep_view());
                assert(cc.names@ == casks@[i as int].names@);
                assert(cc.names.wf());
            }
            let ghost ccg = cc;
            cs.insert(c.token.clone(), cc);
            proof {
                assert forall|k: Seq<char>| cs@.contains_key(k) implies (
                #[trigger] cs@[k]).names.wf() by {
                    if k != casks@[i as int].token@ {
                        assert(cs@[k] == m0[k]);
                    } else {
                        assert(cs@[k] == ccg);
                    }
                }
            }
            proof {
                assert(casks.deep_view().take(i + 1).drop_last() =~= casks.deep_view().take(
                    i as int,
                ));
                assert(casks.deep_view().take(i + 1).last() == casks@[i as int].deep_view());
                assert forall|k: Seq<char>|
                    #[trigger] cs.deep_view().contains_key(k)
                        == indexed_casks(casks.deep_view().take(i + 1)).contains_key(k)
                        && (cs.deep_view().contains_key(k) ==> cs.deep_view()[k]
                        == indexed_casks(casks.deep_view().take(i + 1))[k]) by {
                    if k != casks@[i as int].deep_view().token {
                        if cs@.contains_key(k) {
                            assert(cs.deep_view()[k] == dv0[k]);
                        }
                    }
                }
                assert(cs.deep_view() =~= indexed_casks(casks.deep_view().take(i + 1)));
            }
        }
        proof {
            assert(formulae.deep_view().take(n as int) =~= formulae.deep_view());
            assert(casks.deep_view().take(m as int) =~= casks.deep_view());
        }
        models::State { formulae: fs, casks: cs }
    }

    /// Associates each base formula with the set of executables the index
    /// knows for its name; a formula the index does not mention gets an empty
    /// set, never an absent one. No analytics record comes from the bulk
    /// listing.
    pub fn enrich_formulae(
        &self,
        bases: &formula::base::Store,
        executables: &formula::Executables,
    ) -> (r: formula::Store)
        requires
            bases.wf(),
            executables.wf(),
            forall|k: Seq<char>|
                bases@.contains_key(k) ==> (#[trigger] bases@[k]).aliases.wf(),
            forall|k: Seq<char>|
                executables@.contains_key(k) ==> (#[trigger] executables@[k]).wf(),
        ensures
            r.wf(),
            fstore_values_wf(r),
            r@.dom() == bases@.dom(),
            forall|k: Seq<char>|
                r@.contains_key(k) ==> r.deep_view()[k] == enriched_formula(
                    k,
                    bases.deep_view()[k],
                    executables.deep_view(),
                ),
    {
        let mut out = formula::Store::new();
        let n = bases.entries.len();
        for i in 0..n
            invariant
                n == bases.entries@.len(),
                bases.wf(),
                executables.wf(),
                forall|k: Seq<char>|
                    bases@.contains_key(k) ==> (#[trigger] bases@[k]).aliases.wf(),
                forall|k: Seq<char>|
                    executables@.contains_key(k) ==> (#[trigger] executables@[k]).wf(),
                out.wf(),
                fstore_values_wf(out),
                out@.dom() =~= keg::key_set_upto(bases.entries@, i as int),
                forall|k: Seq<char>|
                    out@.contains_key(k) ==> out.deep_view()[k] == enriched_formula(
                        k,
                        bases.deep_view()[k],
                        executables.deep_view(),
                    ),
        {
            let name = &bases.entries[i].0;
            let base = &bases.entries[i].1;
            let ghost in_index = executables@.contains_key(name@);
            let exes = match executables.get(name) {
                Some(e) => e.clone(),
                None => StringSet::new(),
            };
            proof {
                assert(exes@ == if in_index {
                    executables@[name@]@
                } else {
                    Seq::<Seq<char>>::empty()
                });
            }
            proof {
                keg::lemma_entries_map_index(bases.entries@, i as int);
                if in_index {
                    assert(executables@[name@].wf());
                }
                assert(exes.wf());
            }
            let bc = base.clone();
            proof {
                assert(bc.deep_view() == bases@[name@].deep_view());
                assert(bc.aliases@ == bases@[name@].aliases@);
                assert(bc.aliases.wf());
            }
            let f_new = formula::Formula { base: bc, executables: exes, analytics: None };
            let ghost fm = f_new.deep_view();
            let ghost dv0 = out.deep_view();
            proof {
                assert(fm.base == bases.deep_view()[name@]);
                assert(fm == enriched_formula(
                    name@,
                    bases.deep_view()[name@],
                    executables.deep_view(),
                ));
                assert(f_new.base.aliases.wf() && f_new.executables.wf());
            }
            let ghost m0 = out@;
            let ghost f_new_g = f_new;
            out.insert(name.clone(), f_new);
            proof {
                assert forall|k: Seq<char>| out@.contains_key(k) implies out.deep_view()[k]
                    == enriched_formula(k, bases.deep_view()[k], executables.deep_view()) by {
                    if k != name@ {
                        assert(out.deep_view()[k] == dv0[k]);
                    } else {
                        assert(out@[k] == f_new);
                        assert(out.deep_view()[k] == fm);
                    }
                }
                assert forall|k: Seq<char>| out@.contains_key(k) implies ((
                #[trigger] out@[k]).base.aliases.wf() && out@[k].executables.wf()) by {
                    if k != name@ {
                        assert(out@[k] == m0[k]);
                    } else {
                        assert(out@[k] == f_new_g);
                    }
                }
                assert(out@.dom() =~= keg::key_set_upto(bases.entries@, i + 1));
            }
        }
        proof {
            keg::lemma_key_set_full(bases.entries@);
            assert(out@.dom() =~= bases@.dom());
        }
        out
    }

    /// Wraps base cask records as catalog casks; a cask has no enrichment.
    pub fn wrap_casks(&self, bases: &cask::base::Store) -> (r: cask::Store)
        requires
            bases.wf(),
            forall|k: Seq<char>|
                bases@.contains_key(k) ==> (#[trigger] bases@[k]).names.wf(),
        ensures
            r.wf(),
            cstore_values_wf(r),
            r@.dom() == bases@.dom(),
            forall|k: Seq<char>|
                r@.contains_key(k) ==> r.deep_view()[k] == (cask::CaskModel {
                    base: bases.deep_view()[k],
                }),
    {
        let mut out = cask::Store::new();
        let n = bases.entries.len();
        for i in 0..n
            invariant
                n == bases.entries@.len(),
                bases.wf(),
                forall|k: Seq<char>|
                    bases@.contains_key(k) ==> (#[trigger] bases@[k]).names.wf(),
                out.wf(),
                cstore_values_wf(out),
                out@.dom() =~= keg::key_set_upto(bases.entries@, i as int),
                forall|k: Seq<char>|
                    out@.contains_key(k) ==> out.deep_view()[k] == (cask::CaskModel {
                        base: bases.deep_view()[k],
                    }),
        {
            let name = &bases.entries[i].0;
            let base = &bases.entries[i].1;
            let ghost dv0 = out.deep_view();
            proof {
                keg::lemma_entries_map_index(bases.entries@, i as int);
            }
            let bc = base.clone();
            proof {
                keg::lemma_entries_map_index(bases.entries@, i as int);
                assert(bc.deep_view() == bases@[name@].deep_view());
                assert(bc.names@ == bases@[name@].names@);
                assert(bc.names.wf());
            }
            let c_new = cask::Cask { base: bc };
            let ghost m0 = out@;
            let ghost c_new_g = c_new;
            out.insert(name.clone(), c_new);
            proof {
                assert forall|k: Seq<char>| out@.contains_key(k) implies out.deep_view()[k] == (
                cask::CaskModel { base: bases.deep_view()[k] }) by {
                    if k != name@ {
                        assert(out.deep_view()[k] == dv0[k]);
                    }
                }
                assert forall|k: Seq<char>| out@.contains_key(k) implies (
                #[trigger] out@[k]).base.names.wf() by {
                    if k != name@ {
                        assert(out@[k] == m0[k]);
                    } else {
                        assert(out@[k] == c_new_g);
                    }
                }
                assert(out@.dom() =~= keg::key_set_upto(bases.entries@, i + 1));
            }
        }
        proof {
            keg::lemma_key_set_full(bases.entries@);
            assert(out@.dom() =~= bases@.dom());
        }
        out
    }

    /// Builds the full merged snapshot from a bulk catalog listing, the
    /// executable index, and the locally observed installation evidence:
    /// keys the listing, enriches formulae with their executables, and merges
    /// the evidence against the resulting catalog.
    pub fn state(
        &self,
        all_formulae: &Vec<formula::base::Formula>,
        all_casks: &Vec<cask::base::Cask>,
        executables: &formula::Executables,
        receipts: &formula::receipt::Store,
        cask_versions: &cask::installed::VersionsStore,
    ) -> (r: models::State<formula::State, cask::State>)
        requires
            executables.wf(),
            receipts.wf(),
            cask_versions.wf(),
            forall|i: int|
                0 <= i < all_formulae@.len() ==> (#[trigger] all_formulae@[i]).aliases.wf(),
            forall|i: int| 0 <= i < all_casks@.len() ==> (#[trigger] all_casks@[i]).names.wf(),
            forall|k: Seq<char>|
                executables@.contains_key(k) ==> (#[trigger] executables@[k]).wf(),
        ensures
            r.formulae.all.wf(),
            r.formulae.installed.wf(),
            r.casks.all.wf(),
            r.casks.installed.wf(),
            fstore_values_wf(r.formulae.all),
            cstore_values_wf(r.casks.all),
            r.formulae.all@.dom() == indexed_formulae(all_formulae.deep_view()).dom(),
            forall|k: Seq<char>|
                r.formulae.all@.contains_key(k) ==> r.formulae.all.deep_view()[k]
                    == enriched_formula(
                    k,
                    indexed_formulae(all_formulae.deep_view())[k],
                    executables.deep_view(),
                ),
            r.casks.all@.dom() == indexed_casks(all_casks.deep_view()).dom(),
            forall|k: Seq<char>|
                r.casks.all@.contains_key(k) ==> r.casks.all.deep_view()[k] == (cask::CaskModel {
                    base: indexed_casks(all_casks.deep_view())[k],
                }),
            r.formulae.installed@.dom() == r.formulae.all@.dom().intersect(receipts@.dom()),
            forall|k: Seq<char>|
                r.formulae.installed@.contains_key(k) ==> r.formulae.installed.deep_view()[k] == (
                formula::installed::FormulaModel {
                    upstream: r.formulae.all.deep_view()[k],
                    receipt: receipts.deep_view()[k],
                }),
            r.casks.installed@.dom() == r.casks.all@.dom().intersect(cask_versions@.dom()),
            forall|k: Seq<char>|
                r.casks.installed@.contains_key(k) ==> r.casks.installed.deep_view()[k] == (
                cask::installed::CaskModel {
                    upstream: r.casks.all.deep_view()[k],
                    versions: cask_versions.deep_view()[k],
                }),
    {
        let bases = self.eval_all(all_formulae, all_casks);
        let all_f = self.enrich_formulae(&bases.formulae, executables);
        let all_c = self.wrap_casks(&bases.casks);
        let all = models::State { formulae: all_f, casks: all_c };
        let installed = self.eval_installed(&all, receipts, cask_versions);
        proof {
            assert(bases.formulae@.dom() =~= bases.formulae.deep_view().dom());
            assert(bases.casks@.dom() =~= bases.casks.deep_view().dom());
        }
        models::State {
            formulae: keg::State { all: all.formulae, installed: installed.formulae },
            casks: keg::State { all: all.casks, installed: installed.casks },
        }
    }

    /// Merges both kinds of installation evidence against a catalog snapshot.
    pub fn eval_installed(
        &self,
        all: &models::State<formula::Store, cask::Store>,
        receipts: &formula::receipt::Store,
        cask_versions: &cask::installed::VersionsStore,
    ) -> (r: models::State<formula::installed::Store, cask::installed::Store>)
        requires
            all.formulae.wf(),
            all.casks.wf(),
            receipts.wf(),
            cask_versions.wf(),
        ensures
            r.formulae.wf(),
            r.casks.wf(),
            r.formulae@.dom() == all.formulae@.dom().intersect(receipts@.dom()),
            r.casks@.dom() == all.casks@.dom().intersect(cask_versions@.dom()),
            forall|k: Seq<char>|
                r.formulae@.contains_key(k) ==> r.formulae.deep_view()[k] == (
                formula::installed::FormulaModel {
                    upstream: all.formulae.deep_view()[k],
                    receipt: receipts.deep_view()[k],
                }),
            forall|k: Seq<char>|
                r.casks@.contains_key(k) ==> r.casks.deep_view()[k] == (
                cask::installed::CaskModel {
                    upstream: all.casks.deep_view()[k],
                    versions: cask_versions.deep_view()[k],
                }),
    {
        let formulae = self.eval_installed_formulae(&all.formulae, receipts);
        let casks = self.eval_installed_casks(&all.casks, cask_versions);
        models::State { formulae, casks }
    }
}

// ---------------------------------------------------------------------------
// The executable index: a line-oriented text where each useful line reads
// `name(section): executable ...`. A line without a colon, or without an
// opening parenthesis before the colon, is skipped rather than an error, and
// so is an empty line.

/// The characters with the Unicode white-space property, written out: the
/// control whitespace, the space, the next line, and the fixed set of
/// typographic spaces and separators.
pub open spec fn is_unicode_ws(c: char) -> bool {
    let u = c as u32;
    ||| (9 <= u && u <= 13)
    ||| u == 32
    ||| u == 0x85
    ||| u == 0xA0
    ||| u == 0x1680
    ||| (0x2000 <= u && u <= 0x200A)
    ||| u == 0x2028
    ||| u == 0x2029
    ||| u == 0x202F
    ||| u == 0x205F
    ||| u == 0x3000
}

/// Relies on char::is_whitespace: by its documentation it is exactly the
/// Unicode white-space property, the character set written out above.
#[verifier::external_body]
fn char_is_ws(c: char) -> (r: bool)
    ensures
        r == is_unicode_ws(c),
{
    c.is_whitespace()
}

/// Relies on String: FromIterator<char>: collecting characters yields the
/// string of exactly those characters, in order.
#[verifier::external_body]
fn string_from_chars(chars: &Vec<char>) -> (r: String)
    ensures
        r@ == chars@,
{
    chars.iter().collect()
}

/// The characters of a string, as a vector.
pub fn chars_of(s: &str) -> (r: Vec<char>)
    ensures
        r@ == s@,
{
    let mut v: Vec<char> = Vec::new();
    for c in it: s.chars()
        invariant
            v@ == it.seq().take(it.index() as int),
    {
        v.push(c);
        proof {
            assert(v@ =~= it.seq().take(it.index() as int + 1));
        }
    }
    proof {
        assert(v@ =~= s@);
    }
    v
}

/// The first position of `c` in `s` at or after `i`, if any.
pub open spec fn find_from(s: Seq<char>, c: char, i: int) -> Option<int>
    decreases s.len() - i,
{
    if i < 0 || i >= s.len() {
        None
    } else if s[i] == c {
        Some(i)
    } else {
        find_from(s, c, i + 1)
    }
}

pub proof fn lemma_find_from_bounds(s: Seq<char>, c: char, i: int)
    ensures
        match find_from(s, c, i) {
            Some(j) => i <= j < s.len() && s[j] == c,
            None => true,
        },
    decreases s.len() - i,
{
    if i < 0 || i >= s.len() {
    } else if s[i] == c {
    } else {
        lemma_find_from_bounds(s, c, i + 1);
    }
}

/// A line with one trailing carriage return dropped, as a line ending of
/// either kind leaves it.
pub open spec fn strip_cr(l: Seq<char>) -> Seq<char> {
    if l.len() > 0 && l.last() == '\r' {
        l.drop_last()
    } else {
        l
    }
}

/// The lines of a text: split at newlines, a carriage return before each
/// newline dropped, and no final empty line after a trailing newline.
pub open spec fn lines_scan(s: Seq<char>, i: int, cur: Seq<char>, acc: Seq<Seq<char>>) -> Seq<
    Seq<char>,
>
    decreases s.len() - i,
{
    if i < 0 || i >= s.len() {
        if cur.len() > 0 {
            acc.push(cur)
        } else {
            acc
        }
    } else if s[i] == '\n' {
        lines_scan(s, i + 1, Seq::empty(), acc.push(strip_cr(cur)))
    } else {
        lines_scan(s, i + 1, cur.push(s[i]), acc)
    }
}

pub open spec fn spec_lines(s: Seq<char>) -> Seq<Seq<char>> {
    lines_scan(s, 0, Seq::empty(), Seq::empty())
}

/// The white-space-separated tokens of a sequence, in order.
pub open spec fn ws_scan(s: Seq<char>, i: int, cur: Seq<char>, acc: Seq<Seq<char>>) -> Seq<
    Seq<char>,
>
    decreases s.len() - i,
{
    if i < 0 || i >= s.len() {
        if cur.len() > 0 {
            acc.push(cur)
        } else {
            acc
        }
    } else if is_unicode_ws(s[i]) {
        if cur.len() > 0 {
            ws_scan(s, i + 1, Seq::empty(), acc.push(cur))
        } else {
            ws_scan(s, i + 1, Seq::empty(), acc)
        }
    } else {
        ws_scan(s, i + 1, cur.push(s[i]), acc)
    }
}

pub open spec fn spec_tokens(s: Seq<char>) -> Seq<Seq<char>> {
    ws_scan(s, 0, Seq::empty(), Seq::empty())
}

/// What one index line says: the name before the parenthesis, and the
/// executables after the colon. Nothing, for a line that is empty, has no
/// colon, or has no parenthesis before the colon.
pub open spec fn spec_parse_line(l: Seq<char>) -> Option<(Seq<char>, Seq<Seq<char>>)> {
    if l.len() == 0 {
        None
    } else {
        match find_from(l, ':', 0) {
            Some(ci) => match find_from(l.take(ci), '(', 0) {
                Some(pi) => Some((l.take(pi), spec_tokens(l.skip(ci + 1)))),
                None => None,
            },
            None => None,
        }
    }
}

/// The index the whole text describes: each useful line filed under its
/// name, its executables as a set; a later line under the same name
/// overrides an earlier one.
pub open spec fn index_fold(
    lines: Seq<Seq<char>>,
    i: int,
    acc: Map<Seq<char>, Seq<Seq<char>>>,
) -> Map<Seq<char>, Seq<Seq<char>>>
    decreases lines.len() - i,
{
    if i < 0 || i >= lines.len() {
        acc
    } else {
        match spec_parse_line(lines[i]) {
            Some((name, toks)) => index_fold(lines, i + 1, acc.insert(name, keg::dedup(toks))),
            None => index_fold(lines, i + 1, acc),
        }
    }
}

pub open spec fn spec_executables_index(body: Seq<char>) -> Map<Seq<char>, Seq<Seq<char>>> {
    index_fold(spec_lines(body), 0, Map::empty())
}

/// Splits a text into its lines.
fn lines_of(chars: &Vec<char>) -> (r: Vec<Vec<char>>)
    ensures
        r.deep_view() == spec_lines(chars@),
{
    let n = chars.len();
    let mut out: Vec<Vec<char>> = Vec::new();
    let mut cur: Vec<char> = Vec::new();
    let mut i: usize = 0;
    proof {
        assert(out.deep_view() =~= Seq::<Seq<char>>::empty());
    }
    while i < n
        invariant
            n == chars@.len(),
            i <= n,
            spec_lines(chars@) == lines_scan(chars@, i as int, cur@, out.deep_view()),
        decreases n - i,
    {
        let c = chars[i];
        if c == '\n' {
            let ghost out0 = out.deep_view();
            let ghost cur0 = cur@;
            if cur.len() > 0 && cur[cur.len() - 1] == '\r' {
                let _ = cur.pop();
                proof {
                    assert(cur@ =~= strip_cr(cur0));
                }
            }
            let ghost cur1 = cur@;
            proof {
                assert(cur1 == strip_cr(cur0));
            }
            out.push(cur);
            proof {
                let dv = out.deep_view();
                let target = out0.push(strip_cr(cur0));
                assert(dv.len() == target.len());
                assert forall|k: int| 0 <= k < dv.len() implies dv[k] == target[k] by {
                    if k < dv.len() - 1 {
                        assert(dv[k] == out0[k]);
                    } else {
                        assert(out@[k] == out@.last());
                        assert(dv[k] == cur1);
                    }
                }
                assert(dv =~= target);
            }
            cur = Vec::new();
        } else {
            cur.push(c);
        }
        i = i + 1;
    }
    if cur.len() > 0 {
        let ghost out0 = out.deep_view();
        let ghost cur1 = cur@;
        out.push(cur);
        proof {
            let dv = out.deep_view();
            let target = out0.push(cur1);
            assert(dv.len() == target.len());
            assert forall|k: int| 0 <= k < dv.len() implies dv[k] == target[k] by {
                if k < dv.len() - 1 {
                    assert(dv[k] == out0[k]);
                } else {
                    assert(out@[k] == out@.last());
                    assert(dv[k] == cur1);
                }
            }
            assert(dv =~= target);
        }
    }
    out
}

/// Splits a line's tail into its white-space-separated tokens.
fn tokens_of(line: &Vec<char>, from: usize) -> (r: Vec<String>)
    requires
        from <= line@.len(),
    ensures
        r.deep_view() == ws_scan(line@.skip(from as int), 0, Seq::empty(), Seq::empty()),
{
    let n = line.len();
    let ghost tail = line@.skip(from as int);
    let mut out: Vec<String> = Vec::new();
    let mut cur: Vec<char> = Vec::new();
    let mut i: usize = from;
    proof {
        assert(out.deep_view() =~= Seq::<Seq<char>>::empty());
    }
    while i < n
        invariant
            n == line@.len(),
            from <= i <= n,
            tail == line@.skip(from as int),
            ws_scan(tail, 0, Seq::empty(), Seq::empty()) == ws_scan(
                tail,
                i - from,
                cur@,
                out.deep_view(),
            ),
        decreases n - i,
    {
        let c = line[i];
        proof {
            assert(tail[i - from] == line@[i as int]);
        }
        if char_is_ws(c) {
            if cur.len() > 0 {
                let ghost out0 = out.deep_view();
                let ghost cur0 = cur@;
                let token = string_from_chars(&cur);
                let ghost tv = token@;
                out.push(token);
                proof {
                    let dv = out.deep_view();
                    let target = out0.push(cur0);
                    assert(dv.len() == target.len());
                    assert forall|k: int| 0 <= k < dv.len() implies dv[k] == target[k] by {
                        if k < dv.len() - 1 {
                            assert(dv[k] == out0[k]);
                        } else {
                            assert(out@[k] == out@.last());
                            assert(dv[k] == tv);
                        }
                    }
                    assert(dv =~= target);
                }
                cur = Vec::new();
            } else {
                proof {
                    assert(cur@ =~= Seq::<char>::empty());
                }
            }
        } else {
            cur.push(c);
        }
        i = i + 1;
    }
    if cur.len() > 0 {
        let ghost out0 = out.deep_view();
        let ghost cur0 = cur@;
        let token = string_from_chars(&cur);
        let ghost tv = token@;
        out.push(token);
        proof {
            let dv = out.deep_view();
            let target = out0.push(cur0);
            assert(dv.len() == target.len());
            assert forall|k: int| 0 <= k < dv.len() implies dv[k] == target[k] by {
                if k < dv.len() - 1 {
                    assert(dv[k] == out0[k]);
                } else {
                    assert(out@[k] == out@.last());
                    assert(dv[k] == tv);
                }
            }
            assert(dv =~= target);
        }
    }
    out
}

/// Finds the first position of `c` in the first `upto` characters.
fn find_char_upto(line: &Vec<char>, c: char, upto: usize) -> (r: Option<usize>)
    requires
        upto <= line@.len(),
    ensures
        match r {
            Some(i) => find_from(line@.take(upto as int), c, 0) == Some(i as int),
            None => find_from(line@.take(upto as int), c, 0) is None,
        },
{
    let ghost pre = line@.take(upto as int);
    let mut i: usize = 0;
    while i < upto
        invariant
            upto <= line@.len(),
            i <= upto,
            pre == line@.take(upto as int),
            find_from(pre, c, 0) == find_from(pre, c, i as int),
        decreases upto - i,
    {
        proof {
            assert(pre[i as int] == line@[i as int]);
        }
        if line[i] == c {
            return Some(i);
        }
        i = i + 1;
    }
    None
}

/// Parses one index line, or skips it.
fn parse_index_line(line: &Vec<char>) -> (r: Option<(String, StringSet)>)
    ensures
        match r {
            Some((name, exes)) => {
                &&& spec_parse_line(line@) matches Some((n, toks))
                &&& name@ == n
                &&& exes@ == keg::dedup(toks)
                &&& exes.wf()
            },
            None => spec_parse_line(line@) is None,
        },
{
    let n = line.len();
    if n == 0 {
        return None;
    }
    let ci = match find_char_upto(line, ':', n) {
        Some(i) => i,
        None => {
            proof {
                assert(line@.take(n as int) =~= line@);
            }
            return None;
        },
    };
    proof {
        assert(line@.take(n as int) =~= line@);
        lemma_find_from_bounds(line@, ':', 0);
    }
    let pi = match find_char_upto(line, '(', ci) {
        Some(i) => i,
        None => {
            return None;
        },
    };
    let mut name_chars: Vec<char> = Vec::new();
    let mut j: usize = 0;
    proof {
        assert(find_from(line@, ':', 0) == Some(ci as int));
        assert(ci < n);
        lemma_find_from_bounds(line@.take(ci as int), '(', 0);
        assert(pi < ci);
    }
    while j < pi
        invariant
            pi <= line@.len(),
            j <= pi,
            name_chars@ == line@.take(pi as int).take(j as int),
        decreases pi - j,
    {
        name_chars.push(line[j]);
        proof {
            assert(name_chars@ =~= line@.take(pi as int).take(j + 1));
        }
        j = j + 1;
    }
    proof {
        assert(line@.take(pi as int).take(pi as int) =~= line@.take(pi as int));
    }
    let name = string_from_chars(&name_chars);
    let toks = tokens_of(line, ci + 1);
    let exes = StringSet::from_items(toks);
    proof {
        assert(pi < ci);
        assert(line@.take(ci as int).take(pi as int) =~= line@.take(pi as int));
    }
    Some((name, exes))
}

impl Brew {
    /// The name-to-executables index parsed from the registry text: each
    /// useful line filed under its name, malformed lines skipped.
    pub fn executables(&self, body: &str) -> (r: formula::Executables)
        ensures
            r.wf(),
            r.deep_view() == spec_executables_index(body@),
            forall|k: Seq<char>| r@.contains_key(k) ==> (#[trigger] r@[k]).wf(),
    {
        let chars = chars_of(body);
        let lines = lines_of(&chars);
        let ghost lseq = spec_lines(body@);
        let mut store = formula::Executables::new();
        proof {
            assert(store.deep_view() =~= Map::<Seq<char>, Seq<Seq<char>>>::empty());
        }
        let m = lines.len();
        let mut j: usize = 0;
        while j < m
            invariant
                m == lines@.len(),
                j <= m,
                lines.deep_view() == lseq,
                store.wf(),
                forall|k: Seq<char>| store@.contains_key(k) ==> (#[trigger] store@[k]).wf(),
                spec_executables_index(body@) == index_fold(lseq, j as int, store.deep_view()),
            decreases m - j,
        {
            let ghost dv0 = store.deep_view();
            proof {
                assert(lseq[j as int] == lines@[j as int]@);
            }
            match parse_index_line(&lines[j]) {
                Some((name, exes)) => {
                    let ghost namev = name@;
                    let ghost exesv = exes@;
                    let ghost exw = exes.wf();
                    store.insert(name, exes);
                    proof {
                        assert(store.deep_view() =~= dv0.insert(namev, exesv));
                        assert forall|k: Seq<char>| store@.contains_key(k) implies (
                        #[trigger] store@[k]).wf() by {
                            if k != namev {
                            } else {
                                assert(store@[k] == store@[namev]);
                            }
                        }
                    }
                },
                None => {
                },
            }
            j = j + 1;
        }
        store
    }
}


} // verus!
