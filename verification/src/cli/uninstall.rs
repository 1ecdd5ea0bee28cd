use vstd::prelude::*;

use crate::cli::install::SelectError;
use crate::engine::State;
use crate::models;
use crate::models::cask;
use crate::models::formula;

verus! {

/// Uninstalls the named units after showing a plan.
pub struct Uninstall {
    pub names: Vec<String>,
    pub formula: bool,
    pub cask: bool,
    pub yes: bool,
}

/// An installed unit selected for removal.
pub enum Keg {
    Formula(formula::installed::Formula),
    Cask(cask::installed::Cask),
}

/// What selecting units for removal leaves: the installed units taken, and
/// the installed views with them removed.
pub struct Removal {
    pub kegs: Seq<Keg>,
    pub formulae_installed: Map<Seq<char>, formula::installed::Formula>,
    pub casks_installed: Map<Seq<char>, cask::installed::Cask>,
}

/// Selecting installed units name by name: a name no consulted installed
/// view holds fails with that name; otherwise the unit moves out of its
/// view. One flag narrows the search to a single kind; without either,
/// formulae are consulted before casks.
pub open spec fn spec_remove(
    names: Seq<String>,
    formula_flag: bool,
    cask_flag: bool,
    acc: Removal,
) -> Result<Removal, Seq<char>>
    decreases names.len(),
{
    if names.len() == 0 {
        Ok(acc)
    } else {
        let k = names[0]@;
        let rest = names.drop_first();
        if formula_flag {
            if acc.formulae_installed.contains_key(k) {
                spec_remove(
                    rest,
                    formula_flag,
                    cask_flag,
                    Removal {
                        kegs: acc.kegs.push(Keg::Formula(acc.formulae_installed[k])),
                        formulae_installed: acc.formulae_installed.remove(k),
                        ..acc
                    },
                )
            } else {
                Err(k)
            }
        } else if cask_flag {
            if acc.casks_installed.contains_key(k) {
                spec_remove(
                    rest,
                    formula_flag,
                    cask_flag,
                    Removal {
                        kegs: acc.kegs.push(Keg::Cask(acc.casks_installed[k])),
                        casks_installed: acc.casks_installed.remove(k),
                        ..acc
                    },
                )
            } else {
                Err(k)
            }
        } else {
            if acc.formulae_installed.contains_key(k) {
                spec_remove(
                    rest,
                    formula_flag,
                    cask_flag,
                    Removal {
                        kegs: acc.kegs.push(Keg::Formula(acc.formulae_installed[k])),
                        formulae_installed: acc.formulae_installed.remove(k),
                        ..acc
                    },
                )
            } else if acc.casks_installed.contains_key(k) {
                spec_remove(
                    rest,
                    formula_flag,
                    cask_flag,
                    Removal {
                        kegs: acc.kegs.push(Keg::Cask(acc.casks_installed[k])),
                        casks_installed: acc.casks_installed.remove(k),
                        ..acc
                    },
                )
            } else {
                Err(k)
            }
        }
    }
}

impl Uninstall {
    /// Resolves the requested names against the installed views, as
    /// `spec_remove` says: a name that is not installed fails, and each
    /// selected unit is taken out so that no name is selected twice.
    pub fn get_kegs_from_args(&self, state: &mut State) -> (r: Result<Vec<Keg>, SelectError>)
        requires
            old(state).formulae.installed.wf(),
            old(state).casks.installed.wf(),
        ensures
            final(state).formulae.all == old(state).formulae.all,
            final(state).casks.all == old(state).casks.all,
            final(state).formulae.installed.wf(),
            final(state).casks.installed.wf(),
            match r {
                Ok(kegs) => spec_remove(
                    self.names@,
                    self.formula,
                    self.cask,
                    Removal {
                        kegs: Seq::empty(),
                        formulae_installed: old(state).formulae.installed@,
                        casks_installed: old(state).casks.installed@,
                    },
                ) == Ok::<Removal, Seq<char>>(
                    Removal {
                        kegs: kegs@,
                        formulae_installed: final(state).formulae.installed@,
                        casks_installed: final(state).casks.installed@,
                    },
                ),
                Err(SelectError::NotInstalled(nm)) => spec_remove(
                    self.names@,
                    self.formula,
                    self.cask,
                    Removal {
                        kegs: Seq::empty(),
                        formulae_installed: old(state).formulae.installed@,
                        casks_installed: old(state).casks.installed@,
                    },
                ) == Err::<Removal, Seq<char>>(nm@),
                Err(SelectError::KegNotFound(_)) => false,
            },
    {
        let ghost init = Removal {
            kegs: Seq::empty(),
            formulae_installed: state.formulae.installed@,
            casks_installed: state.casks.installed@,
        };
        let mut kegs: Vec<Keg> = Vec::new();
        let n = self.names.len();
        let mut i: usize = 0;
        proof {
            assert(self.names@.skip(0) =~= self.names@);
            assert(kegs@ =~= Seq::<Keg>::empty());
        }
        while i < n
            invariant
                n == self.names@.len(),
                i <= n,
                state.formulae.all == old(state).formulae.all,
                state.casks.all == old(state).casks.all,
                state.formulae.installed.wf(),
                state.casks.installed.wf(),
                init == (Removal {
                    kegs: Seq::<Keg>::empty(),
                    formulae_installed: old(state).formulae.installed@,
                    casks_installed: old(state).casks.installed@,
                }),
                spec_remove(self.names@, self.formula, self.cask, init) == spec_remove(
                    self.names@.skip(i as int),
                    self.formula,
                    self.cask,
                    Removal {
                        kegs: kegs@,
                        formulae_installed: state.formulae.installed@,
                        casks_installed: state.casks.installed@,
                    },
                ),
            decreases n - i,
        {
            let name = &self.names[i];
            let ghost acc0 = Removal {
                kegs: kegs@,
                formulae_installed: state.formulae.installed@,
                casks_installed: state.casks.installed@,
            };
            proof {
                assert(self.names@.skip(i as int)[0] == self.names@[i as int]);
                assert(self.names@.skip(i as int).drop_first() =~= self.names@.skip(i + 1));
            }
            let take_formula = if self.formula {
                true
            } else if self.cask {
                false
            } else {
                state.formulae.installed.contains_key(name)
            };
            if take_formula {
                if state.formulae.installed.contains_key(name) {
                    match state.formulae.installed.remove(name) {
                        Some(f) => {
                            kegs.push(Keg::Formula(f));
                        },
                        None => {
                            proof {
                                assert(false);
                            }
                        },
                    }
                    proof {
                        assert(spec_remove(
                            self.names@.skip(i as int),
                            self.formula,
                            self.cask,
                            acc0,
                        ) == spec_remove(
                            self.names@.skip(i + 1),
                            self.formula,
                            self.cask,
                            Removal {
                                kegs: kegs@,
                                formulae_installed: state.formulae.installed@,
                                casks_installed: state.casks.installed@,
                            },
                        ));
                    }
                } else {
                    proof {
                        assert(spec_remove(
                            self.names@.skip(i as int),
                            self.formula,
                            self.cask,
                            acc0,
                        ) == Err::<Removal, Seq<char>>(name@));
                        assert(spec_remove(self.names@, self.formula, self.cask, init)
                            == Err::<Removal, Seq<char>>(name@));
                    }
                    let nm_ret = name.clone();
                    return Err(SelectError::NotInstalled(nm_ret));
                }
            } else {
                if state.casks.installed.contains_key(name) {
                    match state.casks.installed.remove(name) {
                        Some(c) => {
                            kegs.push(Keg::Cask(c));
                        },
                        None => {
                            proof {
                                assert(false);
                            }
                        },
                    }
                    proof {
                        assert(spec_remove(
                            self.names@.skip(i as int),
                            self.formula,
                            self.cask,
                            acc0,
                        ) == spec_remove(
                            self.names@.skip(i + 1),
                            self.formula,
                            self.cask,
                            Removal {
                                kegs: kegs@,
                                formulae_installed: state.formulae.installed@,
                                casks_installed: state.casks.installed@,
                            },
                        ));
                    }
                } else {
                    proof {
                        assert(spec_remove(
                            self.names@.skip(i as int),
                            self.formula,
                            self.cask,
                            acc0,
                        ) == Err::<Removal, Seq<char>>(name@));
                        assert(spec_remove(self.names@, self.formula, self.cask, init)
                            == Err::<Removal, Seq<char>>(name@));
                    }
                    let nm_ret = name.clone();
                    return Err(SelectError::NotInstalled(nm_ret));
                }
            }
            i = i + 1;
        }
        proof {
            assert(self.names@.skip(n as int).len() == 0);
        }
        Ok(kegs)
    }
}

/// The catalog-side units the selected installed units wrap, in order: what
/// an uninstall request hands the manager.
pub open spec fn spec_upstreams(kegs: Seq<Keg>) -> Seq<models::Keg>
    decreases kegs.len(),
{
    if kegs.len() == 0 {
        Seq::empty()
    } else {
        spec_upstreams(kegs.drop_last()).push(
            match kegs.last() {
                Keg::Formula(f) => models::Keg::Formula(f.upstream),
                Keg::Cask(c) => models::Keg::Cask(c.upstream),
            },
        )
    }
}

/// Unwraps selected installed units to their catalog-side views.
pub fn upstream_kegs(kegs: Vec<Keg>) -> (r: Vec<models::Keg>)
    ensures
        r@ == spec_upstreams(kegs@),
{
    let mut out: Vec<models::Keg> = Vec::new();
    let n = kegs.len();
    let mut rest = kegs;
    let ghost orig = rest@;
    let mut i: usize = 0;
    proof {
        assert(out@ =~= spec_upstreams(orig.take(0)));
    }
    while i < n
        invariant
            n == orig.len(),
            i <= n,
            rest@ == orig.skip(i as int),
            out@ == spec_upstreams(orig.take(i as int)),
        decreases n - i,
    {
        let k = rest.remove(0);
        proof {
            assert(orig.skip(i as int)[0] == orig[i as int]);
            assert(rest@ =~= orig.skip(i + 1));
        }
        let ghost o0 = out@;
        match k {
            Keg::Formula(f) => {
                out.push(models::Keg::Formula(f.upstream));
            },
            Keg::Cask(c) => {
                out.push(models::Keg::Cask(c.upstream));
            },
        }
        proof {
            assert(orig.take(i + 1).drop_last() =~= orig.take(i as int));
            assert(orig.take(i + 1).last() == orig[i as int]);
            assert(out@ =~= spec_upstreams(orig.take(i + 1)));
        }
        i = i + 1;
    }
    proof {
        assert(orig.take(n as int) =~= orig);
    }
    out
}

} // verus!
