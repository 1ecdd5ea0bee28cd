use vstd::prelude::*;

use crate::engine::State;
use crate::models::cask;
use crate::models::formula;
use crate::models::keg;

verus! {

/// Searches both catalogs for a pattern; without one, the whole catalog is
/// the result.
pub struct Search {
    pub name: Option<String>,
}

/// A search hit of either kind, with its installed view where present.
pub enum Keg {
    Formula(formula::Formula, Option<formula::installed::Formula>),
    Cask(cask::Cask, Option<cask::installed::Cask>),
}

pub uninterp spec fn fuzzy_matched(pattern: Seq<char>, names: Seq<Seq<char>>) -> Seq<Seq<char>>;

/// Relies on nucleo-matcher's Atom::match_list: the names that match the
/// pattern, best score first; every returned name is one of the given ones,
/// and the outcome depends on the pattern and the names alone.
#[verifier::external_body]
fn fuzzy_match(pattern: &str, names: Vec<String>) -> (r: Vec<String>)
    ensures
        r.deep_view() == fuzzy_matched(pattern@, names.deep_view()),
        forall|i: int|
            0 <= i < r.deep_view().len() ==> names.deep_view().contains(#[trigger] r.deep_view()[i]),
{
    let mut matcher = nucleo_matcher::Matcher::new(nucleo_matcher::Config::DEFAULT);
    let atom = nucleo_matcher::pattern::Atom::new(
        pattern,
        nucleo_matcher::pattern::CaseMatching::Ignore,
        nucleo_matcher::pattern::Normalization::Smart,
        nucleo_matcher::pattern::AtomKind::Substring,
        false,
    );
    let matched = atom.match_list(names, &mut matcher);
    matched.into_iter().map(|(name, _)| name).collect()
}

/// The keys of a snapshot's formula side, in store order.
pub open spec fn key_views<V>(s: Seq<(String, V)>) -> Seq<Seq<char>> {
    s.map_values(|p: (String, V)| p.0@)
}

impl Search {
    /// The catalog entries matching the pattern: the matching formulae in
    /// match order, then the matching casks, each paired with its installed
    /// view exactly where the installed side holds its key.
    pub fn matched_kegs(&self, state: &State, pattern: &String) -> (r: Vec<Keg>)
        requires
            state.formulae.all.wf(),
            state.formulae.installed.wf(),
            state.casks.all.wf(),
            state.casks.installed.wf(),
        ensures
            ({
                let fnames = fuzzy_matched(pattern@, key_views(state.formulae.all.entries@));
                let cnames = fuzzy_matched(pattern@, key_views(state.casks.all.entries@));
                &&& r@.len() == fnames.len() + cnames.len()
                &&& forall|i: int|
                    0 <= i < fnames.len() ==> {
                        &&& #[trigger] r@[i] matches Keg::Formula(f, inst)
                        &&& state.formulae.all@.contains_key(fnames[i])
                        &&& f.deep_view() == state.formulae.all@[fnames[i]].deep_view()
                        &&& match inst {
                            Some(g) => state.formulae.installed@.contains_key(fnames[i])
                                && g.deep_view() == state.formulae.installed@[fnames[i]].deep_view(),
                            None => !state.formulae.installed@.contains_key(fnames[i]),
                        }
                    }
                &&& forall|i: int|
                    fnames.len() <= i < fnames.len() + cnames.len() ==> {
                        &&& #[trigger] r@[i] matches Keg::Cask(c, inst)
                        &&& state.casks.all@.contains_key(cnames[i - fnames.len()])
                        &&& c.deep_view() == state.casks.all@[cnames[i - fnames.len()]].deep_view()
                        &&& match inst {
                            Some(g) => state.casks.installed@.contains_key(cnames[i - fnames.len()])
                                && g.deep_view() == state.casks.installed@[cnames[i
                                - fnames.len()]].deep_view(),
                            None => !state.casks.installed@.contains_key(cnames[i - fnames.len()]),
                        }
                    }
            }),
    {
        let ghost fnames = fuzzy_matched(pattern@, key_views(state.formulae.all.entries@));
        let ghost cnames = fuzzy_matched(pattern@, key_views(state.casks.all.entries@));
        let fkeys = state.formulae.all.keys();
        let fmatched = fuzzy_match(pattern.as_str(), fkeys);
        let mut out: Vec<Keg> = Vec::new();
        let n = fmatched.len();
        for j in 0..n
            invariant
                n == fmatched@.len(),
                fmatched.deep_view() == fnames,
                state.formulae.all.wf(),
                state.formulae.installed.wf(),
                forall|i: int|
                    0 <= i < fmatched.deep_view().len() ==> key_views(
                        state.formulae.all.entries@,
                    ).contains(#[trigger] fmatched.deep_view()[i]),
                out@.len() == j,
                forall|i: int|
                    0 <= i < j ==> {
                        &&& #[trigger] out@[i] matches Keg::Formula(f, inst)
                        &&& state.formulae.all@.contains_key(fnames[i])
                        &&& f.deep_view() == state.formulae.all@[fnames[i]].deep_view()
                        &&& match inst {
                            Some(g) => state.formulae.installed@.contains_key(fnames[i])
                                && g.deep_view() == state.formulae.installed@[fnames[i]].deep_view(),
                            None => !state.formulae.installed@.contains_key(fnames[i]),
                        }
                    },
        {
            let name = &fmatched[j];
            proof {
                assert(fmatched.deep_view()[j as int] == name@);
                let ki = choose|ki: int|
                    0 <= ki < key_views(state.formulae.all.entries@).len() && key_views(
                        state.formulae.all.entries@,
                    )[ki] == name@;
                assert(state.formulae.all.entries@[ki].0@ == name@);
                keg::lemma_entries_map_contains(state.formulae.all.entries@, name@);
            }
            match state.formulae.all.get(name) {
                Some(f) => {
                    let inst = match state.formulae.installed.get(name) {
                        Some(g) => Some(g.clone()),
                        None => None,
                    };
                    out.push(Keg::Formula(f.clone(), inst));
                },
                None => {
                    proof {
                        assert(false);
                    }
                },
            }
        }
        let ckeys = state.casks.all.keys();
        let cmatched = fuzzy_match(pattern.as_str(), ckeys);
        let m = cmatched.len();
        for j in 0..m
            invariant
                m == cmatched@.len(),
                n == fnames.len(),
                cmatched.deep_view() == cnames,
                state.casks.all.wf(),
                state.casks.installed.wf(),
                forall|i: int|
                    0 <= i < cmatched.deep_view().len() ==> key_views(
                        state.casks.all.entries@,
                    ).contains(#[trigger] cmatched.deep_view()[i]),
                out@.len() == n + j,
                forall|i: int|
                    0 <= i < n ==> {
                        &&& #[trigger] out@[i] matches Keg::Formula(f, inst)
                        &&& state.formulae.all@.contains_key(fnames[i])
                        &&& f.deep_view() == state.formulae.all@[fnames[i]].deep_view()
                        &&& match inst {
                            Some(g) => state.formulae.installed@.contains_key(fnames[i])
                                && g.deep_view() == state.formulae.installed@[fnames[i]].deep_view(),
                            None => !state.formulae.installed@.contains_key(fnames[i]),
                        }
                    },
                forall|i: int|
                    n <= i < n + j ==> {
                        &&& #[trigger] out@[i] matches Keg::Cask(c, inst)
                        &&& state.casks.all@.contains_key(cnames[i - n])
                        &&& c.deep_view() == state.casks.all@[cnames[i - n]].deep_view()
                        &&& match inst {
                            Some(g) => state.casks.installed@.contains_key(cnames[i - n])
                                && g.deep_view() == state.casks.installed@[cnames[i - n]].deep_view(),
                            None => !state.casks.installed@.contains_key(cnames[i - n]),
                        }
                    },
        {
            let name = &cmatched[j];
            proof {
                assert(cmatched.deep_view()[j as int] == name@);
                let ki = choose|ki: int|
                    0 <= ki < key_views(state.casks.all.entries@).len() && key_views(
                        state.casks.all.entries@,
                    )[ki] == name@;
                assert(state.casks.all.entries@[ki].0@ == name@);
                keg::lemma_entries_map_contains(state.casks.all.entries@, name@);
            }
            match state.casks.all.get(name) {
                Some(c) => {
                    let inst = match state.casks.installed.get(name) {
                        Some(g) => Some(g.clone()),
                        None => None,
                    };
                    out.push(Keg::Cask(c.clone(), inst));
                },
                None => {
                    proof {
                        assert(false);
                    }
                },
            }
        }
        out
    }
}

} // verus!
