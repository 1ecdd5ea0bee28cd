use vstd::prelude::*;

use vstd::seq_lib::group_to_multiset_ensures;
use vstd::utf8::encode_utf8;

use crate::engine::State;
use crate::models::cask;
use crate::models::formula;

pub mod install;
pub mod paths;
pub mod search;
pub mod uninstall;
pub mod which;

verus! {

broadcast use group_to_multiset_ensures;

/// The command-line surface: one subcommand per action. Parsing the actual
/// arguments, and everything printed, lives outside the library; these carry
/// the parsed choices into the decision logic below.
pub struct Cli {
    pub command: Commands,
}

pub enum Commands {
    Which(which::Which),
    Update(Update),
    List(List),
    Info(Info),
    Search(search::Search),
    Paths(paths::Paths),
    Exists(Exists),
    Install(install::Install),
    Uninstall(uninstall::Uninstall),
}

pub struct Update {}

// Ordering of names as the terminal lists them: byte-wise over the UTF-8
// form, the order Rust's own string comparison uses.

/// Lexicographic order on byte sequences.
pub open spec fn bytes_le(a: Seq<u8>, b: Seq<u8>) -> bool
    decreases a.len(),
{
    if a.len() == 0 {
        true
    } else if b.len() == 0 {
        false
    } else if a[0] < b[0] {
        true
    } else if a[0] > b[0] {
        false
    } else {
        bytes_le(a.drop_first(), b.drop_first())
    }
}

/// Order on strings: byte-wise over their UTF-8 forms.
pub open spec fn str_le(a: Seq<char>, b: Seq<char>) -> bool {
    bytes_le(encode_utf8(a), encode_utf8(b))
}

pub proof fn lemma_bytes_le_total(a: Seq<u8>, b: Seq<u8>)
    ensures
        bytes_le(a, b) || bytes_le(b, a),
    decreases a.len(),
{
    if a.len() == 0 || b.len() == 0 {
    } else if a[0] == b[0] {
        lemma_bytes_le_total(a.drop_first(), b.drop_first());
    }
}

pub proof fn lemma_bytes_le_trans(a: Seq<u8>, b: Seq<u8>, c: Seq<u8>)
    requires
        bytes_le(a, b),
        bytes_le(b, c),
    ensures
        bytes_le(a, c),
    decreases a.len(),
{
    if a.len() == 0 {
    } else if b.len() == 0 {
    } else if c.len() == 0 {
    } else {
        if a[0] == b[0] && b[0] == c[0] {
            lemma_bytes_le_trans(a.drop_first(), b.drop_first(), c.drop_first());
        }
    }
}

/// Byte-wise comparison of two strings.
pub fn str_le_exec(a: &String, b: &String) -> (r: bool)
    ensures
        r == str_le(a@, b@),
{
    let ab = a.as_str().as_bytes();
    let bb = b.as_str().as_bytes();
    let n = ab.len();
    let m = bb.len();
    let mut i: usize = 0;
    proof {
        assert(ab@.skip(0) =~= ab@);
        assert(bb@.skip(0) =~= bb@);
    }
    while i < n && i < m
        invariant
            i <= n,
            i <= m,
            n == ab@.len(),
            m == bb@.len(),
            ab@ == encode_utf8(a@),
            bb@ == encode_utf8(b@),
            bytes_le(ab@, bb@) == bytes_le(ab@.skip(i as int), bb@.skip(i as int)),
        decreases n - i,
    {
        proof {
            assert(ab@.skip(i as int)[0] == ab@[i as int]);
            assert(bb@.skip(i as int)[0] == bb@[i as int]);
        }
        if ab[i] < bb[i] {
            return true;
        }
        if ab[i] > bb[i] {
            return false;
        }
        proof {
            assert(ab@.skip(i as int).drop_first() =~= ab@.skip(i + 1));
            assert(bb@.skip(i as int).drop_first() =~= bb@.skip(i + 1));
        }
        i = i + 1;
    }
    if i >= n {
        proof {
            assert(ab@.skip(i as int).len() == 0);
        }
        true
    } else {
        proof {
            assert(bb@.skip(i as int).len() == 0);
            assert(ab@.skip(i as int).len() > 0);
        }
        false
    }
}

/// Sorts names into the listing order. The result holds the same names, as
/// many times each, in byte-wise order.
pub fn sort_strings(v: Vec<String>) -> (r: Vec<String>)
    ensures
        r.deep_view().to_multiset() == v.deep_view().to_multiset(),
        forall|i: int, j: int|
            0 <= i < j < r.deep_view().len() ==> str_le(
                #[trigger] r.deep_view()[i],
                #[trigger] r.deep_view()[j],
            ),
{
    let mut rest = v;
    let mut out: Vec<String> = Vec::new();
    proof {
        assert(out.deep_view() =~= Seq::<Seq<char>>::empty());
        assert(out.deep_view().to_multiset().add(rest.deep_view().to_multiset())
            =~= v.deep_view().to_multiset());
    }
    while rest.len() > 0
        invariant
            out.deep_view().to_multiset().add(rest.deep_view().to_multiset()) == v.deep_view()
                .to_multiset(),
            forall|i: int, j: int|
                0 <= i < j < out.deep_view().len() ==> str_le(
                    #[trigger] out.deep_view()[i],
                    #[trigger] out.deep_view()[j],
                ),
            forall|i: int, j: int|
                0 <= i < out.deep_view().len() && 0 <= j < rest.deep_view().len() ==> str_le(
                    #[trigger] out.deep_view()[i],
                    #[trigger] rest.deep_view()[j],
                ),
        decreases rest.len(),
    {
        let n = rest.len();
        let mut m: usize = 0;
        let mut k: usize = 1;
        proof {
            lemma_bytes_le_total(
                encode_utf8(rest.deep_view()[0]),
                encode_utf8(rest.deep_view()[0]),
            );
        }
        while k < n
            invariant
                n == rest@.len(),
                m < k <= n,
                forall|j: int|
                    0 <= j < k ==> str_le(rest.deep_view()[m as int], #[trigger] rest.deep_view()[j]),
            decreases n - k,
        {
            if str_le_exec(&rest[k], &rest[m]) {
                proof {
                    lemma_bytes_le_total(
                        encode_utf8(rest.deep_view()[m as int]),
                        encode_utf8(rest.deep_view()[k as int]),
                    );
                    assert forall|j: int|
                        0 <= j < k + 1 implies str_le(
                        rest.deep_view()[k as int],
                        #[trigger] rest.deep_view()[j],
                    ) by {
                        if j < k {
                            lemma_bytes_le_trans(
                                encode_utf8(rest.deep_view()[k as int]),
                                encode_utf8(rest.deep_view()[m as int]),
                                encode_utf8(rest.deep_view()[j]),
                            );
                        } else {
                            lemma_bytes_le_total(
                                encode_utf8(rest.deep_view()[k as int]),
                                encode_utf8(rest.deep_view()[k as int]),
                            );
                        }
                    }
                }
                m = k;
            } else {
                proof {
                    lemma_bytes_le_total(
                        encode_utf8(rest.deep_view()[m as int]),
                        encode_utf8(rest.deep_view()[k as int]),
                    );
                }
            }
            k = k + 1;
        }
        let ghost rest0 = rest.deep_view();
        let ghost out0 = out.deep_view();
        let x = rest.remove(m);
        let ghost xv = x@;
        proof {
            assert(rest.deep_view() =~= rest0.remove(m as int));
            assert(rest0.remove(m as int).to_multiset() =~= rest0.to_multiset().remove(xv));
        }
        out.push(x);
        proof {
            assert(out.deep_view() =~= out0.push(xv));
            assert(out0.push(xv).to_multiset() =~= out0.to_multiset().insert(xv));
            assert(out.deep_view().to_multiset().add(rest.deep_view().to_multiset())
                =~= v.deep_view().to_multiset());
            assert(rest0.to_multiset().contains(xv));
            assert forall|i: int, j: int|
                0 <= i < out.deep_view().len() && 0 <= j < rest.deep_view().len() implies str_le(
                #[trigger] out.deep_view()[i],
                #[trigger] rest.deep_view()[j],
            ) by {
                if j < m {
                    assert(rest.deep_view()[j] == rest0[j]);
                } else {
                    assert(rest.deep_view()[j] == rest0[j + 1]);
                }
                if i < out0.len() {
                    assert(out.deep_view()[i] == out0[i]);
                } else {
                    assert(out.deep_view()[i] == xv);
                }
            }
        }
    }
    proof {
        assert(rest.deep_view() =~= Seq::<Seq<char>>::empty());
        assert(out.deep_view().to_multiset() =~= v.deep_view().to_multiset());
    }
    out
}

/// Lists installed formulae and casks. One flag picks a single kind; the
/// receipt flags narrow formulae to those installed on request or only as
/// dependencies.
pub struct List {
    pub casks: bool,
    pub formulae: bool,
    pub installed_on_request: bool,
    pub installed_as_dependency: bool,
}

/// Whether the listing keeps an installed formula, by its receipt flags.
pub open spec fn spec_list_keeps(l: List, f: formula::installed::Formula) -> bool {
    if l.installed_as_dependency {
        f.receipt.installed_as_dependency
    } else if l.installed_on_request {
        f.receipt.installed_on_request
    } else {
        true
    }
}

/// The names the formula listing shows, before sorting, in store order.
pub open spec fn spec_listed_formulae(l: List, s: Seq<(String, formula::installed::Formula)>)
    -> Seq<Seq<char>>
    decreases s.len(),
{
    if s.len() == 0 {
        Seq::empty()
    } else {
        let rest = spec_listed_formulae(l, s.drop_last());
        if spec_list_keeps(l, s.last().1) {
            rest.push(s.last().1.upstream.base.name@)
        } else {
            rest
        }
    }
}

/// The tokens the cask listing shows, before sorting, in store order.
pub open spec fn spec_listed_casks(s: Seq<(String, cask::installed::Cask)>) -> Seq<Seq<char>>
    decreases s.len(),
{
    if s.len() == 0 {
        Seq::empty()
    } else {
        spec_listed_casks(s.drop_last()).push(s.last().1.upstream.base.token@)
    }
}

impl List {
    /// The names of the installed formulae the flags keep, sorted for the
    /// table: the same names the store holds, in byte-wise order.
    pub fn list_formulae(&self, installed: &formula::installed::Store) -> (r: Vec<String>)
        ensures
            r.deep_view().to_multiset() == spec_listed_formulae(
                *self,
                installed.entries@,
            ).to_multiset(),
            forall|i: int, j: int|
                0 <= i < j < r.deep_view().len() ==> str_le(
                    #[trigger] r.deep_view()[i],
                    #[trigger] r.deep_view()[j],
                ),
    {
        let mut names: Vec<String> = Vec::new();
        let n = installed.entries.len();
        proof {
            assert(names.deep_view() =~= Seq::<Seq<char>>::empty());
            assert(spec_listed_formulae(*self, installed.entries@.take(0)) =~= Seq::<
                Seq<char>,
            >::empty());
        }
        for i in 0..n
            invariant
                n == installed.entries@.len(),
                names.deep_view() == spec_listed_formulae(*self, installed.entries@.take(i as int)),
        {
            let f = &installed.entries[i].1;
            let keep = if self.installed_as_dependency {
                f.receipt.installed_as_dependency
            } else if self.installed_on_request {
                f.receipt.installed_on_request
            } else {
                true
            };
            let ghost names0 = names.deep_view();
            if keep {
                names.push(f.upstream.base.name.clone());
            }
            proof {
                assert(installed.entries@.take(i + 1).drop_last() =~= installed.entries@.take(
                    i as int,
                ));
                assert(installed.entries@.take(i + 1).last() == installed.entries@[i as int]);
                if keep {
                    assert(names.deep_view() =~= names0.push(
                        installed.entries@[i as int].1.upstream.base.name@,
                    ));
                }
            }
        }
        proof {
            assert(installed.entries@.take(n as int) =~= installed.entries@);
        }
        sort_strings(names)
    }

    /// The tokens of the installed casks, sorted the same way.
    pub fn list_casks(&self, installed: &cask::installed::Store) -> (r: Vec<String>)
        ensures
            r.deep_view().to_multiset() == spec_listed_casks(installed.entries@).to_multiset(),
            forall|i: int, j: int|
                0 <= i < j < r.deep_view().len() ==> str_le(
                    #[trigger] r.deep_view()[i],
                    #[trigger] r.deep_view()[j],
                ),
    {
        let mut names: Vec<String> = Vec::new();
        let n = installed.entries.len();
        proof {
            assert(names.deep_view() =~= Seq::<Seq<char>>::empty());
            assert(spec_listed_casks(installed.entries@.take(0)) =~= Seq::<Seq<char>>::empty());
        }
        for i in 0..n
            invariant
                n == installed.entries@.len(),
                names.deep_view() == spec_listed_casks(installed.entries@.take(i as int)),
        {
            let c = &installed.entries[i].1;
            let ghost names0 = names.deep_view();
            names.push(c.upstream.base.token.clone());
            proof {
                assert(installed.entries@.take(i + 1).drop_last() =~= installed.entries@.take(
                    i as int,
                ));
                assert(installed.entries@.take(i + 1).last() == installed.entries@[i as int]);
                assert(names.deep_view() =~= names0.push(
                    installed.entries@[i as int].1.upstream.base.token@,
                ));
            }
        }
        proof {
            assert(installed.entries@.take(n as int) =~= installed.entries@);
        }
        sort_strings(names)
    }
}

/// Shows one unit. The flags force a kind; without them formulae are looked
/// up first, then casks.
pub struct Info {
    pub name: String,
    pub cask: bool,
    pub formula: bool,
    pub open_homepage: bool,
}

/// What an info lookup found: the unit and, if present, its installed view.
pub enum Found {
    Formula(formula::Formula, Option<formula::installed::Formula>),
    Cask(cask::Cask, Option<cask::installed::Cask>),
}

impl Info {
    /// Resolves the name against the snapshot: the cask catalog under the
    /// cask flag, the formula catalog under the formula flag, and otherwise
    /// formulae first with casks as the fallback. Absent exactly when the
    /// consulted catalogs lack the name.
    pub fn find(&self, state: &State) -> (r: Option<Found>)
        requires
            state.formulae.all.wf(),
            state.formulae.installed.wf(),
            state.casks.all.wf(),
            state.casks.installed.wf(),
        ensures
            match r {
                Some(Found::Formula(f, inst)) => {
                    &&& !self.cask
                    &&& state.formulae.all@.contains_key(self.name@)
                    &&& f.deep_view() == state.formulae.all@[self.name@].deep_view()
                    &&& match inst {
                        Some(g) => state.formulae.installed@.contains_key(self.name@)
                            && g.deep_view() == state.formulae.installed@[self.name@].deep_view(),
                        None => !state.formulae.installed@.contains_key(self.name@),
                    }
                },
                Some(Found::Cask(c, inst)) => {
                    &&& (self.cask || !self.formula)
                    &&& state.casks.all@.contains_key(self.name@)
                    &&& (!self.cask ==> !state.formulae.all@.contains_key(self.name@))
                    &&& c.deep_view() == state.casks.all@[self.name@].deep_view()
                    &&& match inst {
                        Some(g) => state.casks.installed@.contains_key(self.name@)
                            && g.deep_view() == state.casks.installed@[self.name@].deep_view(),
                        None => !state.casks.installed@.contains_key(self.name@),
                    }
                },
                None => {
                    &&& (self.cask ==> !state.casks.all@.contains_key(self.name@))
                    &&& (!self.cask && self.formula ==> !state.formulae.all@.contains_key(
                        self.name@,
                    ))
                    &&& (!self.cask && !self.formula ==> !state.formulae.all@.contains_key(
                        self.name@,
                    ) && !state.casks.all@.contains_key(self.name@))
                },
            },
    {
        if self.cask {
            return match state.casks.all.get(&self.name) {
                Some(c) => {
                    let inst = match state.casks.installed.get(&self.name) {
                        Some(g) => Some(g.clone()),
                        None => None,
                    };
                    Some(Found::Cask(c.clone(), inst))
                },
                None => None,
            };
        }
        if self.formula {
            return match state.formulae.all.get(&self.name) {
                Some(f) => {
                    let inst = match state.formulae.installed.get(&self.name) {
                        Some(g) => Some(g.clone()),
                        None => None,
                    };
                    Some(Found::Formula(f.clone(), inst))
                },
                None => None,
            };
        }
        match state.formulae.all.get(&self.name) {
            Some(f) => {
                let inst = match state.formulae.installed.get(&self.name) {
                    Some(g) => Some(g.clone()),
                    None => None,
                };
                Some(Found::Formula(f.clone(), inst))
            },
            None => match state.casks.all.get(&self.name) {
                Some(c) => {
                    let inst = match state.casks.installed.get(&self.name) {
                        Some(g) => Some(g.clone()),
                        None => None,
                    };
                    Some(Found::Cask(c.clone(), inst))
                },
                None => None,
            },
        }
    }
}

/// Answers, by exit code, whether a unit of the chosen kind exists.
pub struct Exists {
    pub name: String,
    pub formula: bool,
    pub cask: bool,
}

impl Exists {
    /// Whether the name is in the cask catalog under the cask flag, in the
    /// formula catalog under the formula flag, and otherwise in either.
    pub fn run(&self, state: &State) -> (r: bool)
        requires
            state.formulae.all.wf(),
            state.casks.all.wf(),
        ensures
            r == if self.cask {
                state.casks.all@.contains_key(self.name@)
            } else if self.formula {
                state.formulae.all@.contains_key(self.name@)
            } else {
                state.formulae.all@.contains_key(self.name@) || state.casks.all@.contains_key(
                    self.name@,
                )
            },
    {
        if self.cask {
            return state.casks.all.contains_key(&self.name);
        }
        if self.formula {
            return state.formulae.all.contains_key(&self.name);
        }
        state.formulae.all.contains_key(&self.name) || state.casks.all.contains_key(&self.name)
    }
}

} // verus!
