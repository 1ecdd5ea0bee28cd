use vstd::prelude::*;

use crate::engine::State;
use crate::models;
use crate::models::cask;
use crate::models::formula;

verus! {

/// Installs the named units after showing a plan.
pub struct Install {
    pub names: Vec<String>,
    pub formula: bool,
    pub cask: bool,
    pub yes: bool,
}

/// A unit skipped because it is already installed, named for the report.
#[derive(Debug)]
pub enum Skip {
    Formula(String),
    Cask(String),
}

/// Why a selection failed: the first name no consulted catalog holds, or the
/// first that is not installed.
#[derive(Debug)]
pub enum SelectError {
    KegNotFound(String),
    NotInstalled(String),
}

/// What selecting units for installation leaves: the kegs taken out of the
/// catalogs, the names skipped as already installed, and the catalogs with
/// the taken units removed.
pub struct Selection {
    pub kegs: Seq<models::Keg>,
    pub skips: Seq<Skip>,
    pub formulae_all: Map<Seq<char>, formula::Formula>,
    pub casks_all: Map<Seq<char>, cask::Cask>,
}

/// Selecting units name by name: an already-installed unit is skipped; an
/// unknown name fails with that name; otherwise the unit moves from its
/// catalog into the kegs. One flag narrows the search to a single kind;
/// without either, formulae are consulted before casks.
pub open spec fn spec_select(
    names: Seq<String>,
    formula_flag: bool,
    cask_flag: bool,
    f_inst: Map<Seq<char>, formula::installed::Formula>,
    c_inst: Map<Seq<char>, cask::installed::Cask>,
    acc: Selection,
) -> Result<Selection, Seq<char>>
    decreases names.len(),
{
    if names.len() == 0 {
        Ok(acc)
    } else {
        let nm = names[0];
        let k = nm@;
        let rest = names.drop_first();
        if formula_flag {
            if f_inst.contains_key(k) {
                spec_select(
                    rest,
                    formula_flag,
                    cask_flag,
                    f_inst,
                    c_inst,
                    Selection { skips: acc.skips.push(Skip::Formula(nm)), ..acc },
                )
            } else if acc.formulae_all.contains_key(k) {
                spec_select(
                    rest,
                    formula_flag,
                    cask_flag,
                    f_inst,
                    c_inst,
                    Selection {
                        kegs: acc.kegs.push(models::Keg::Formula(acc.formulae_all[k])),
                        formulae_all: acc.formulae_all.remove(k),
                        ..acc
                    },
                )
            } else {
                Err(k)
            }
        } else if cask_flag {
            if c_inst.contains_key(k) {
                spec_select(
                    rest,
                    formula_flag,
                    cask_flag,
                    f_inst,
                    c_inst,
                    Selection { skips: acc.skips.push(Skip::Cask(nm)), ..acc },
                )
            } else if acc.casks_all.contains_key(k) {
                spec_select(
                    rest,
                    formula_flag,
                    cask_flag,
                    f_inst,
                    c_inst,
                    Selection {
                        kegs: acc.kegs.push(models::Keg::Cask(acc.casks_all[k])),
                        casks_all: acc.casks_all.remove(k),
                        ..acc
                    },
                )
            } else {
                Err(k)
            }
        } else {
            if f_inst.contains_key(k) {
                spec_select(
                    rest,
                    formula_flag,
                    cask_flag,
                    f_inst,
                    c_inst,
                    Selection { skips: acc.skips.push(Skip::Formula(nm)), ..acc },
                )
            } else if c_inst.contains_key(k) {
                spec_select(
                    rest,
                    formula_flag,
                    cask_flag,
                    f_inst,
                    c_inst,
                    Selection { skips: acc.skips.push(Skip::Cask(nm)), ..acc },
                )
            } else if acc.formulae_all.contains_key(k) {
                spec_select(
                    rest,
                    formula_flag,
                    cask_flag,
                    f_inst,
                    c_inst,
                    Selection {
                        kegs: acc.kegs.push(models::Keg::Formula(acc.formulae_all[k])),
                        formulae_all: acc.formulae_all.remove(k),
                        ..acc
                    },
                )
            } else if acc.casks_all.contains_key(k) {
                spec_select(
                    rest,
                    formula_flag,
                    cask_flag,
                    f_inst,
                    c_inst,
                    Selection {
                        kegs: acc.kegs.push(models::Keg::Cask(acc.casks_all[k])),
                        casks_all: acc.casks_all.remove(k),
                        ..acc
                    },
                )
            } else {
                Err(k)
            }
        }
    }
}

impl Install {
    /// Resolves the requested names against the snapshot, as `spec_select`
    /// says: already-installed units are reported as skips, unknown names
    /// fail, and each selected unit is taken out of the catalog so that no
    /// name is selected twice.
    pub fn get_kegs_from_args(&self, state: &mut State) -> (r: Result<
        (Vec<models::Keg>, Vec<Skip>),
        SelectError,
    >)
        requires
            old(state).formulae.all.wf(),
            old(state).casks.all.wf(),
            old(state).formulae.installed.wf(),
            old(state).casks.installed.wf(),
        ensures
            final(state).formulae.installed == old(state).formulae.installed,
            final(state).casks.installed == old(state).casks.installed,
            final(state).formulae.all.wf(),
            final(state).casks.all.wf(),
            match r {
                Ok((kegs, skips)) => spec_select(
                    self.names@,
                    self.formula,
                    self.cask,
                    old(state).formulae.installed@,
                    old(state).casks.installed@,
                    Selection {
                        kegs: Seq::empty(),
                        skips: Seq::empty(),
                        formulae_all: old(state).formulae.all@,
                        casks_all: old(state).casks.all@,
                    },
                ) == Ok::<Selection, Seq<char>>(
                    Selection {
                        kegs: kegs@,
                        skips: skips@,
                        formulae_all: final(state).formulae.all@,
                        casks_all: final(state).casks.all@,
                    },
                ),
                Err(SelectError::KegNotFound(nm)) => spec_select(
                    self.names@,
                    self.formula,
                    self.cask,
                    old(state).formulae.installed@,
                    old(state).casks.installed@,
                    Selection {
                        kegs: Seq::empty(),
                        skips: Seq::empty(),
                        formulae_all: old(state).formulae.all@,
                        casks_all: old(state).casks.all@,
                    },
                ) == Err::<Selection, Seq<char>>(nm@),
                Err(SelectError::NotInstalled(_)) => false,
            },
    {
        let ghost init = Selection {
            kegs: Seq::empty(),
            skips: Seq::empty(),
            formulae_all: state.formulae.all@,
            casks_all: state.casks.all@,
        };
        let mut kegs: Vec<models::Keg> = Vec::new();
        let mut skips: Vec<Skip> = Vec::new();
        let n = self.names.len();
        let mut i: usize = 0;
        proof {
            assert(self.names@.skip(0) =~= self.names@);
            assert(kegs@ =~= Seq::<models::Keg>::empty());
            assert(skips@ =~= Seq::<Skip>::empty());
        }
        while i < n
            invariant
                n == self.names@.len(),
                i <= n,
                state.formulae.installed == old(state).formulae.installed,
                state.casks.installed == old(state).casks.installed,
                state.formulae.all.wf(),
                state.casks.all.wf(),
                state.formulae.installed.wf(),
                state.casks.installed.wf(),
                init == (Selection {
                    kegs: Seq::<models::Keg>::empty(),
                    skips: Seq::<Skip>::empty(),
                    formulae_all: old(state).formulae.all@,
                    casks_all: old(state).casks.all@,
                }),
                spec_select(
                    self.names@,
                    self.formula,
                    self.cask,
                    old(state).formulae.installed@,
                    old(state).casks.installed@,
                    init,
                ) == spec_select(
                    self.names@.skip(i as int),
                    self.formula,
                    self.cask,
                    old(state).formulae.installed@,
                    old(state).casks.installed@,
                    Selection {
                        kegs: kegs@,
                        skips: skips@,
                        formulae_all: state.formulae.all@,
                        casks_all: state.casks.all@,
                    },
                ),
            decreases n - i,
        {
            let name = &self.names[i];
            let ghost acc0 = Selection {
                kegs: kegs@,
                skips: skips@,
                formulae_all: state.formulae.all@,
                casks_all: state.casks.all@,
            };
            proof {
                assert(self.names@.skip(i as int)[0] == self.names@[i as int]);
                assert(self.names@.skip(i as int).drop_first() =~= self.names@.skip(i + 1));
            }
            if self.formula {
                if state.formulae.installed.contains_key(name) {
                    skips.push(Skip::Formula(name.clone()));
                proof {
                    assert(spec_select(
                        self.names@.skip(i as int),
                        self.formula,
                        self.cask,
                        old(state).formulae.installed@,
                        old(state).casks.installed@,
                        acc0,
                    ) == spec_select(
                        self.names@.skip(i + 1),
                        self.formula,
                        self.cask,
                        old(state).formulae.installed@,
                        old(state).casks.installed@,
                        Selection {
                            kegs: kegs@,
                            skips: skips@,
                            formulae_all: state.formulae.all@,
                            casks_all: state.casks.all@,
                        },
                    ));
                }
                } else if state.formulae.all.contains_key(name) {
                    match state.formulae.all.remove(name) {
                        Some(f) => {
                            kegs.push(models::Keg::Formula(f));
                        },
                        None => {
                            proof {
                                assert(false);
                            }
                        },
                    }
                proof {
                    assert(spec_select(
                        self.names@.skip(i as int),
                        self.formula,
                        self.cask,
                        old(state).formulae.installed@,
                        old(state).casks.installed@,
                        acc0,
                    ) == spec_select(
                        self.names@.skip(i + 1),
                        self.formula,
                        self.cask,
                        old(state).formulae.installed@,
                        old(state).casks.installed@,
                        Selection {
                            kegs: kegs@,
                            skips: skips@,
                            formulae_all: state.formulae.all@,
                            casks_all: state.casks.all@,
                        },
                    ));
                }
                } else {
                proof {
                    assert(spec_select(
                        self.names@.skip(i as int),
                        self.formula,
                        self.cask,
                        old(state).formulae.installed@,
                        old(state).casks.installed@,
                        acc0,
                    ) == Err::<Selection, Seq<char>>(name@));
                    assert(spec_select(
                        self.names@,
                        self.formula,
                        self.cask,
                        old(state).formulae.installed@,
                        old(state).casks.installed@,
                        Selection {
                            kegs: Seq::empty(),
                            skips: Seq::empty(),
                            formulae_all: old(state).formulae.all@,
                            casks_all: old(state).casks.all@,
                        },
                    ) == Err::<Selection, Seq<char>>(name@));
                }
                let nm_ret = name.clone();
                proof {
                    assert(nm_ret@ == name@);
                }
                return Err(SelectError::KegNotFound(nm_ret));
                }
            } else if self.cask {
                if state.casks.installed.contains_key(name) {
                    skips.push(Skip::Cask(name.clone()));
                proof {
                    assert(spec_select(
                        self.names@.skip(i as int),
                        self.formula,
                        self.cask,
                        old(state).formulae.installed@,
                        old(state).casks.installed@,
                        acc0,
                    ) == spec_select(
                        self.names@.skip(i + 1),
                        self.formula,
                        self.cask,
                        old(state).formulae.installed@,
                        old(state).casks.installed@,
                        Selection {
                            kegs: kegs@,
                            skips: skips@,
                            formulae_all: state.formulae.all@,
                            casks_all: state.casks.all@,
                        },
                    ));
                }
                } else if state.casks.all.contains_key(name) {
                    match state.casks.all.remove(name) {
                        Some(c) => {
                            kegs.push(models::Keg::Cask(c));
                        },
                        None => {
                            proof {
                                assert(false);
                            }
                        },
                    }
                proof {
                    assert(spec_select(
                        self.names@.skip(i as int),
                        self.formula,
                        self.cask,
                        old(state).formulae.installed@,
                        old(state).casks.installed@,
                        acc0,
                    ) == spec_select(
                        self.names@.skip(i + 1),
                        self.formula,
                        self.cask,
                        old(state).formulae.installed@,
                        old(state).casks.installed@,
                        Selection {
                            kegs: kegs@,
                            skips: skips@,
                            formulae_all: state.formulae.all@,
                            casks_all: state.casks.all@,
                        },
                    ));
                }
                } else {
                proof {
                    assert(spec_select(
                        self.names@.skip(i as int),
                        self.formula,
                        self.cask,
                        old(state).formulae.installed@,
                        old(state).casks.installed@,
                        acc0,
                    ) == Err::<Selection, Seq<char>>(name@));
                    assert(spec_select(
                        self.names@,
                        self.formula,
                        self.cask,
                        old(state).formulae.installed@,
                        old(state).casks.installed@,
                        Selection {
                            kegs: Seq::empty(),
                            skips: Seq::empty(),
                            formulae_all: old(state).formulae.all@,
                            casks_all: old(state).casks.all@,
                        },
                    ) == Err::<Selection, Seq<char>>(name@));
                }
                let nm_ret = name.clone();
                proof {
                    assert(nm_ret@ == name@);
                }
                return Err(SelectError::KegNotFound(nm_ret));
                }
            } else {
                if state.formulae.installed.contains_key(name) {
                    skips.push(Skip::Formula(name.clone()));
                proof {
                    assert(spec_select(
                        self.names@.skip(i as int),
                        self.formula,
                        self.cask,
                        old(state).formulae.installed@,
                        old(state).casks.installed@,
                        acc0,
                    ) == spec_select(
                        self.names@.skip(i + 1),
                        self.formula,
                        self.cask,
                        old(state).formulae.installed@,
                        old(state).casks.installed@,
                        Selection {
                            kegs: kegs@,
                            skips: skips@,
                            formulae_all: state.formulae.all@,
                            casks_all: state.casks.all@,
                        },
                    ));
                }
                } else if state.casks.installed.contains_key(name) {
                    skips.push(Skip::Cask(name.clone()));
                proof {
                    assert(spec_select(
                        self.names@.skip(i as int),
                        self.formula,
                        self.cask,
                        old(state).formulae.installed@,
                        old(state).casks.installed@,
                        acc0,
                    ) == spec_select(
                        self.names@.skip(i + 1),
                        self.formula,
                        self.cask,
                        old(state).formulae.installed@,
                        old(state).casks.installed@,
                        Selection {
                            kegs: kegs@,
                            skips: skips@,
                            formulae_all: state.formulae.all@,
                            casks_all: state.casks.all@,
                        },
                    ));
                }
                } else if state.formulae.all.contains_key(name) {
                    match state.formulae.all.remove(name) {
                        Some(f) => {
                            kegs.push(models::Keg::Formula(f));
                        },
                        None => {
                            proof {
                                assert(false);
                            }
                        },
                    }
                proof {
                    assert(spec_select(
                        self.names@.skip(i as int),
                        self.formula,
                        self.cask,
                        old(state).formulae.installed@,
                        old(state).casks.installed@,
                        acc0,
                    ) == spec_select(
                        self.names@.skip(i + 1),
                        self.formula,
                        self.cask,
                        old(state).formulae.installed@,
                        old(state).casks.installed@,
                        Selection {
                            kegs: kegs@,
                            skips: skips@,
                            formulae_all: state.formulae.all@,
                            casks_all: state.casks.all@,
                        },
                    ));
                }
                } else if state.casks.all.contains_key(name) {
                    match state.casks.all.remove(name) {
                        Some(c) => {
                            kegs.push(models::Keg::Cask(c));
                        },
                        None => {
                            proof {
                                assert(false);
                            }
                        },
                    }
                proof {
                    assert(spec_select(
                        self.names@.skip(i as int),
                        self.formula,
                        self.cask,
                        old(state).formulae.installed@,
                        old(state).casks.installed@,
                        acc0,
                    ) == spec_select(
                        self.names@.skip(i + 1),
                        self.formula,
                        self.cask,
                        old(state).formulae.installed@,
                        old(state).casks.installed@,
                        Selection {
                            kegs: kegs@,
                            skips: skips@,
                            formulae_all: state.formulae.all@,
                            casks_all: state.casks.all@,
                        },
                    ));
                }
                } else {
                proof {
                    assert(spec_select(
                        self.names@.skip(i as int),
                        self.formula,
                        self.cask,
                        old(state).formulae.installed@,
                        old(state).casks.installed@,
                        acc0,
                    ) == Err::<Selection, Seq<char>>(name@));
                    assert(spec_select(
                        self.names@,
                        self.formula,
                        self.cask,
                        old(state).formulae.installed@,
                        old(state).casks.installed@,
                        Selection {
                            kegs: Seq::empty(),
                            skips: Seq::empty(),
                            formulae_all: old(state).formulae.all@,
                            casks_all: old(state).casks.all@,
                        },
                    ) == Err::<Selection, Seq<char>>(name@));
                }
                let nm_ret = name.clone();
                proof {
                    assert(nm_ret@ == name@);
                }
                return Err(SelectError::KegNotFound(nm_ret));
                }
            }
            i = i + 1;
        }
        proof {
            assert(self.names@.skip(n as int).len() == 0);
        }
        Ok((kegs, skips))
    }
}

/// The executables the planned formula kegs provide, in plan order.
pub open spec fn spec_plan_executables(kegs: Seq<models::Keg>) -> Seq<Seq<char>>
    decreases kegs.len(),
{
    if kegs.len() == 0 {
        Seq::empty()
    } else {
        spec_plan_executables(kegs.drop_last()) + (match kegs.last() {
            models::Keg::Formula(f) => f.executables@,
            models::Keg::Cask(_) => Seq::<Seq<char>>::empty(),
        })
    }
}

/// Collects the executables that installing the kegs would provide.
pub fn plan_executables(kegs: &Vec<models::Keg>) -> (r: Vec<String>)
    ensures
        r.deep_view() == spec_plan_executables(kegs@),
{
    let mut out: Vec<String> = Vec::new();
    let n = kegs.len();
    proof {
        assert(out.deep_view() =~= Seq::<Seq<char>>::empty());
        assert(spec_plan_executables(kegs@.take(0)) =~= Seq::<Seq<char>>::empty());
    }
    for i in 0..n
        invariant
            n == kegs@.len(),
            out.deep_view() == spec_plan_executables(kegs@.take(i as int)),
    {
        let ghost out_before = out.deep_view();
        match &kegs[i] {
            models::Keg::Formula(f) => {
                let m = f.executables.items.len();
                for j in 0..m
                    invariant
                        m == f.executables.items@.len(),
                        out.deep_view() == out_before + f.executables@.take(j as int),
                {
                    let ghost o0 = out.deep_view();
                    out.push(f.executables.items[j].clone());
                    proof {
                        assert(out.deep_view() =~= o0.push(f.executables@[j as int]));
                        assert(out_before + f.executables@.take(j + 1) =~= o0.push(
                            f.executables@[j as int],
                        ));
                    }
                }
                proof {
                    assert(f.executables@.take(m as int) =~= f.executables@);
                }
            },
            models::Keg::Cask(_) => {
            },
        }
        proof {
            assert(kegs@.take(i + 1).drop_last() =~= kegs@.take(i as int));
            assert(kegs@.take(i + 1).last() == kegs@[i as int]);
            match kegs@[i as int] {
                models::Keg::Formula(f) => {
                    assert(out.deep_view() =~= spec_plan_executables(kegs@.take(i + 1)));
                },
                models::Keg::Cask(_) => {
                    assert(out.deep_view() =~= spec_plan_executables(kegs@.take(i + 1)));
                },
            }
        }
    }
    proof {
        assert(kegs@.take(n as int) =~= kegs@);
    }
    out
}

} // verus!
