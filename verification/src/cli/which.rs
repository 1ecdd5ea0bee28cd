use vstd::prelude::*;

use vstd::seq_lib::group_to_multiset_ensures;

use crate::engine::State;
use crate::models::formula;

verus! {

broadcast use group_to_multiset_ensures;

/// Locates the formulae that provide a given executable; without the flag,
/// only the most popular match is shown.
pub struct Which {
    pub name: Option<String>,
    pub all: bool,
}

/// The catalog formulae whose executables include the name, in store order.
pub open spec fn spec_providers(s: Seq<(String, formula::Formula)>, name: Seq<char>) -> Seq<
    formula::FormulaModel,
>
    decreases s.len(),
{
    if s.len() == 0 {
        Seq::empty()
    } else {
        let rest = spec_providers(s.drop_last(), name);
        if s.last().1.executables@.contains(name) {
            rest.push(s.last().1.deep_view())
        } else {
            rest
        }
    }
}

impl Which {
    /// The formulae providing the executable, least popular last overridden:
    /// the providers of the name, sorted by rising popularity count.
    pub fn formulae_providing(&self, state: &State, name: &String) -> (r: Vec<formula::Formula>)
        ensures
            r.deep_view().to_multiset() == spec_providers(
                state.formulae.all.entries@,
                name@,
            ).to_multiset(),
            forall|i: int, j: int|
                0 <= i < j < r.deep_view().len() ==> (#[trigger] r.deep_view()[i]).rank()
                    <= (#[trigger] r.deep_view()[j]).rank(),
    {
        let mut found: Vec<formula::Formula> = Vec::new();
        let n = state.formulae.all.entries.len();
        proof {
            assert(found.deep_view() =~= Seq::<formula::FormulaModel>::empty());
            assert(spec_providers(state.formulae.all.entries@.take(0), name@) =~= Seq::<
                formula::FormulaModel,
            >::empty());
        }
        for i in 0..n
            invariant
                n == state.formulae.all.entries@.len(),
                found.deep_view() == spec_providers(
                    state.formulae.all.entries@.take(i as int),
                    name@,
                ),
        {
            let f = &state.formulae.all.entries[i].1;
            let ghost found0 = found.deep_view();
            if f.executables.contains(name) {
                found.push(f.clone());
                proof {
                    assert(state.formulae.all.entries@[i as int].1.executables@.contains(name@));
                    assert(found.deep_view() =~= found0.push(
                        state.formulae.all.entries@[i as int].1.deep_view(),
                    ));
                }
            } else {
                proof {
                    assert(!state.formulae.all.entries@[i as int].1.executables@.contains(name@));
                }
            }
            proof {
                assert(state.formulae.all.entries@.take(i + 1).drop_last()
                    =~= state.formulae.all.entries@.take(i as int));
                assert(state.formulae.all.entries@.take(i + 1).last()
                    == state.formulae.all.entries@[i as int]);
            }
        }
        proof {
            assert(state.formulae.all.entries@.take(n as int) =~= state.formulae.all.entries@);
        }
        sort_by_rank(found)
    }
}

/// Sorts formulae by rising popularity count; the collection is kept, as a
/// multiset of values.
pub fn sort_by_rank(v: Vec<formula::Formula>) -> (r: Vec<formula::Formula>)
    ensures
        r.deep_view().to_multiset() == v.deep_view().to_multiset(),
        forall|i: int, j: int|
            0 <= i < j < r.deep_view().len() ==> (#[trigger] r.deep_view()[i]).rank() <= (
            #[trigger] r.deep_view()[j]).rank(),
{
    let mut rest = v;
    let mut out: Vec<formula::Formula> = Vec::new();
    proof {
        assert(out.deep_view() =~= Seq::<formula::FormulaModel>::empty());
        assert(out.deep_view().to_multiset().add(rest.deep_view().to_multiset())
            =~= v.deep_view().to_multiset());
    }
    while rest.len() > 0
        invariant
            out.deep_view().to_multiset().add(rest.deep_view().to_multiset()) == v.deep_view()
                .to_multiset(),
            forall|i: int, j: int|
                0 <= i < j < out.deep_view().len() ==> (#[trigger] out.deep_view()[i]).rank()
                    <= (#[trigger] out.deep_view()[j]).rank(),
            forall|i: int, j: int|
                0 <= i < out.deep_view().len() && 0 <= j < rest.deep_view().len() ==> (
                #[trigger] out.deep_view()[i]).rank() <= (#[trigger] rest.deep_view()[j]).rank(),
        decreases rest.len(),
    {
        let n = rest.len();
        let mut m: usize = 0;
        let mut k: usize = 1;
        while k < n
            invariant
                n == rest@.len(),
                m < k <= n,
                forall|j: int|
                    0 <= j < k ==> rest.deep_view()[m as int].rank() <= (
                    #[trigger] rest.deep_view()[j]).rank(),
            decreases n - k,
        {
            if rest[k].rank() < rest[m].rank() {
                m = k;
            }
            k = k + 1;
        }
        let ghost rest0 = rest.deep_view();
        let ghost out0 = out.deep_view();
        let x = rest.remove(m);
        let ghost xv = x.deep_view();
        proof {
            assert(rest.deep_view() =~= rest0.remove(m as int));
            assert(rest0.remove(m as int).to_multiset() =~= rest0.to_multiset().remove(xv));
        }
        out.push(x);
        proof {
            assert(out.deep_view() =~= out0.push(xv));
            assert(out0.push(xv).to_multiset() =~= out0.to_multiset().insert(xv));
            assert(out.deep_view().to_multiset().add(rest.deep_view().to_multiset())
                =~= v.deep_view().to_multiset());
            assert(rest0.to_multiset().contains(xv));
            assert forall|i: int, j: int|
                0 <= i < out.deep_view().len() && 0 <= j < rest.deep_view().len() implies (
            #[trigger] out.deep_view()[i]).rank() <= (#[trigger] rest.deep_view()[j]).rank() by {
                if j < m {
                    assert(rest.deep_view()[j] == rest0[j]);
                } else {
                    assert(rest.deep_view()[j] == rest0[j + 1]);
                }
                if i < out0.len() {
                    assert(out.deep_view()[i] == out0[i]);
                } else {
                    assert(out.deep_view()[i] == xv);
                }
            }
        }
    }
    proof {
        assert(rest.deep_view() =~= Seq::<formula::FormulaModel>::empty());
        assert(out.deep_view().to_multiset() =~= v.deep_view().to_multiset());
    }
    out
}

} // verus!
