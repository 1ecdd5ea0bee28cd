use vstd::prelude::*;

use crate::models;
use crate::models::cask;
use crate::models::formula;
use crate::models::keg;

use super::dec_str;
use super::dec_u64;
use super::decode_str;
use super::decode_u64;
use super::enc_str;
use super::enc_u64;
use super::encode_str;
use super::encode_u64;
use super::lemma_split2;
use super::lemma_str_round;
use super::lemma_u64_round;
use super::records::cask_encodable;
use super::records::dec_cask;
use super::records::dec_formula;
use super::records::decode_cask;
use super::records::decode_formula;
use super::records::enc_cask;
use super::records::enc_formula;
use super::records::encode_cask;
use super::records::encode_formula;
use super::records::formula_encodable;
use super::records::lemma_cask_round;
use super::records::lemma_formula_round;
use super::str_encodable;

verus! {

// A store is laid down as its entry count followed by each key/value pair in
// order. Reading the pairs back and inserting each in turn rebuilds the
// mapping; for a store whose keys are distinct, that is exactly the store
// that was written.

/// The mapping described by a sequence of model key/value pairs; a later pair
/// under the same key overrides an earlier one.
pub open spec fn entries_map_deep<M>(s: Seq<(Seq<char>, M)>) -> Map<Seq<char>, M>
    decreases s.len(),
{
    if s.len() == 0 {
        Map::empty()
    } else {
        entries_map_deep(s.drop_last()).insert(s.last().0, s.last().1)
    }
}

/// Inserting each pair in turn, left to right, into an accumulator.
pub open spec fn fold_entries<M>(acc: Map<Seq<char>, M>, s: Seq<(Seq<char>, M)>) -> Map<
    Seq<char>,
    M,
>
    decreases s.len(),
{
    if s.len() == 0 {
        acc
    } else {
        fold_entries(acc.insert(s[0].0, s[0].1), s.drop_first())
    }
}

pub proof fn lemma_fold_entries_upr<M>(acc: Map<Seq<char>, M>, s: Seq<(Seq<char>, M)>)
    ensures
        fold_entries(acc, s) == acc.union_prefer_right(entries_map_deep(s)),
    decreases s.len(),
{
    if s.len() == 0 {
        assert(acc.union_prefer_right(entries_map_deep(s)) =~= acc);
    } else {
        lemma_fold_entries_upr(acc.insert(s[0].0, s[0].1), s.drop_first());
        assert(fold_entries(acc, s) == acc.insert(s[0].0, s[0].1).union_prefer_right(
            entries_map_deep(s.drop_first()),
        ));
        lemma_emd_cons(s);
        assert(acc.insert(s[0].0, s[0].1).union_prefer_right(entries_map_deep(s.drop_first()))
            =~= acc.union_prefer_right(entries_map_deep(s)));
    }
}

/// The mapping of a non-empty pair list: its first pair, overridden by the
/// mapping of the rest.
pub proof fn lemma_emd_cons<M>(s: Seq<(Seq<char>, M)>)
    requires
        s.len() > 0,
    ensures
        entries_map_deep(s) == Map::empty().insert(s[0].0, s[0].1).union_prefer_right(
            entries_map_deep(s.drop_first()),
        ),
    decreases s.len(),
{
    if s.len() == 1 {
        assert(s.drop_first() =~= Seq::<(Seq<char>, M)>::empty());
        assert(entries_map_deep(s.drop_first()) =~= Map::<Seq<char>, M>::empty());
        assert(s.drop_last() =~= Seq::<(Seq<char>, M)>::empty());
        assert(entries_map_deep(s) =~= Map::empty().insert(
            s[0].0,
            s[0].1,
        ).union_prefer_right(entries_map_deep(s.drop_first())));
    } else {
        lemma_emd_cons(s.drop_last());
        assert(s.drop_last()[0] == s[0]);
        assert(s.drop_first().drop_last() =~= s.drop_last().drop_first());
        assert(s.drop_first().last() == s.last());
        assert(entries_map_deep(s.drop_first()) == entries_map_deep(
            s.drop_last().drop_first(),
        ).insert(s.last().0, s.last().1));
        assert(entries_map_deep(s) =~= Map::empty().insert(s[0].0, s[0].1).union_prefer_right(
            entries_map_deep(s.drop_first()),
        ));
    }
}

/// The model pairs a store's entries stand for.
pub open spec fn pairs_deep<V: DeepView>(s: Seq<(String, V)>) -> Seq<(Seq<char>, V::V)> {
    s.map_values(|p: (String, V)| (p.0@, p.1.deep_view()))
}

/// The written pair list maps back to the store's own mapping.
pub proof fn lemma_emd_matches_store<V: DeepView>(s: Seq<(String, V)>)
    ensures
        entries_map_deep(pairs_deep(s)).dom() == keg::entries_map(s).dom(),
        forall|k: Seq<char>|
            #[trigger] keg::entries_map(s).contains_key(k) ==> entries_map_deep(pairs_deep(s))[k]
                == keg::entries_map(s)[k].deep_view(),
    decreases s.len(),
{
    if s.len() == 0 {
        assert(pairs_deep(s) =~= Seq::<(Seq<char>, V::V)>::empty());
        assert(entries_map_deep(pairs_deep(s)).dom() =~= keg::entries_map(s).dom());
    } else {
        lemma_emd_matches_store(s.drop_last());
        assert(pairs_deep(s).drop_last() =~= pairs_deep(s.drop_last()));
        assert(pairs_deep(s).last() == (s.last().0@, s.last().1.deep_view()));
        assert(entries_map_deep(pairs_deep(s)) == entries_map_deep(
            pairs_deep(s.drop_last()),
        ).insert(s.last().0@, s.last().1.deep_view()));
        assert(entries_map_deep(pairs_deep(s)).dom() =~= keg::entries_map(s).dom());
    }
}

// The formula store.
pub open spec fn enc_fentries(s: Seq<(Seq<char>, formula::FormulaModel)>) -> Seq<u8>
    decreases s.len(),
{
    if s.len() == 0 {
        Seq::empty()
    } else {
        enc_str(s[0].0) + (enc_formula(s[0].1) + enc_fentries(s.drop_first()))
    }
}

pub open spec fn enc_fstore(s: Seq<(Seq<char>, formula::FormulaModel)>) -> Seq<u8> {
    enc_u64(s.len() as u64) + enc_fentries(s)
}

pub open spec fn fentries_encodable(s: Seq<(Seq<char>, formula::FormulaModel)>) -> bool {
    s.len() <= u64::MAX && (forall|i: int|
        0 <= i < s.len() ==> str_encodable(#[trigger] s[i].0) && formula_encodable(s[i].1))
}

pub open spec fn dec_fentries(
    b: Seq<u8>,
    pos: int,
    count: nat,
    acc: Map<Seq<char>, formula::FormulaModel>,
) -> Option<(Map<Seq<char>, formula::FormulaModel>, int)>
    decreases count,
{
    if count == 0 {
        Some((acc, pos))
    } else {
        match dec_str(b, pos) {
            Some((k, p1)) => match dec_formula(b, p1) {
                Some((m, p2)) => dec_fentries(b, p2, (count - 1) as nat, acc.insert(k, m)),
                None => None,
            },
            None => None,
        }
    }
}

pub open spec fn dec_fstore(b: Seq<u8>, pos: int) -> Option<
    (Map<Seq<char>, formula::FormulaModel>, int),
> {
    match dec_u64(b, pos) {
        Some((n, p)) => dec_fentries(b, p, n as nat, Map::empty()),
        None => None,
    }
}

pub proof fn lemma_fentries_round(
    s: Seq<(Seq<char>, formula::FormulaModel)>,
    b: Seq<u8>,
    pos: int,
    acc: Map<Seq<char>, formula::FormulaModel>,
)
    requires
        fentries_encodable(s),
        0 <= pos,
        pos + enc_fentries(s).len() <= b.len(),
        b.subrange(pos, pos + enc_fentries(s).len()) == enc_fentries(s),
    ensures
        dec_fentries(b, pos, s.len() as nat, acc) == Some(
            (fold_entries(acc, s), pos + enc_fentries(s).len()),
        ),
    decreases s.len(),
{
    if s.len() == 0 {
    } else {
        let e1 = enc_str(s[0].0);
        let e2 = enc_formula(s[0].1);
        let e3 = enc_fentries(s.drop_first());
        lemma_split2(b, pos, e1, e2 + e3);
        lemma_str_round(s[0].0, b, pos);
        let p1 = pos + e1.len();
        lemma_split2(b, p1, e2, e3);
        lemma_formula_round(s[0].1, b, p1);
        let p2 = p1 + e2.len();
        assert(fentries_encodable(s.drop_first())) by {
            assert(forall|i: int|
                0 <= i < s.drop_first().len() ==> #[trigger] s.drop_first()[i] == s[i + 1]);
        }
        lemma_fentries_round(s.drop_first(), b, p2, acc.insert(s[0].0, s[0].1));
    }
}

#[verifier::rlimit(80)]
pub proof fn lemma_fstore_round(s: Seq<(Seq<char>, formula::FormulaModel)>, b: Seq<u8>, pos: int)
    requires
        fentries_encodable(s),
        0 <= pos,
        pos + enc_fstore(s).len() <= b.len(),
        b.subrange(pos, pos + enc_fstore(s).len()) == enc_fstore(s),
    ensures
        dec_fstore(b, pos) == Some(
            (
                Map::<Seq<char>, formula::FormulaModel>::empty().union_prefer_right(
                    entries_map_deep(s),
                ),
                pos + enc_fstore(s).len(),
            ),
        ),
{
    lemma_split2(b, pos, enc_u64(s.len() as u64), enc_fentries(s));
    lemma_u64_round(s.len() as u64, b, pos);
    lemma_fentries_round(s, b, pos + 8, Map::empty());
    lemma_fold_entries_upr(Map::<Seq<char>, formula::FormulaModel>::empty(), s);
}

/// Every formula in a store has well-formed member sets.
pub open spec fn fstore_values_wf(s: formula::Store) -> bool {
    forall|k: Seq<char>|
        #[trigger] s@.contains_key(k) ==> (s@[k].base.aliases.wf() && s@[k].executables.wf())
}

/// The bytes of the first `n` pairs.
pub open spec fn enc_fentries_prefix(s: Seq<(Seq<char>, formula::FormulaModel)>, n: int) -> Seq<u8>
    decreases n,
{
    if n <= 0 {
        Seq::empty()
    } else {
        enc_fentries_prefix(s, n - 1) + (enc_str(s[n - 1].0) + enc_formula(s[n - 1].1))
    }
}

/// A prefix of the tail is the tail of a longer prefix: the first pair's
/// bytes, then the rest.
pub proof fn lemma_enc_fentries_prefix_shift(s: Seq<(Seq<char>, formula::FormulaModel)>, n: int)
    requires
        s.len() > 0,
        0 <= n <= s.len() - 1,
    ensures
        enc_fentries_prefix(s, n + 1) == (enc_str(s[0].0) + enc_formula(s[0].1))
            + enc_fentries_prefix(s.drop_first(), n),
    decreases n,
{
    if n == 0 {
        assert(enc_fentries_prefix(s, 0) =~= Seq::<u8>::empty());
        assert(enc_fentries_prefix(s.drop_first(), 0) =~= Seq::<u8>::empty());
        assert(enc_fentries_prefix(s, 1) =~= (enc_str(s[0].0) + enc_formula(s[0].1))
            + enc_fentries_prefix(s.drop_first(), 0));
    } else {
        lemma_enc_fentries_prefix_shift(s, n - 1);
        assert(s.drop_first()[n - 1] == s[n]);
        vstd::seq_lib::lemma_concat_associative(
            enc_str(s[0].0) + enc_formula(s[0].1),
            enc_fentries_prefix(s.drop_first(), n - 1),
            enc_str(s[n].0) + enc_formula(s[n].1),
        );
    }
}

pub proof fn lemma_enc_fentries_prefix_full(s: Seq<(Seq<char>, formula::FormulaModel)>)
    ensures
        enc_fentries_prefix(s, s.len() as int) == enc_fentries(s),
    decreases s.len(),
{
    if s.len() == 0 {
        assert(enc_fentries_prefix(s, 0) =~= enc_fentries(s));
    } else {
        lemma_enc_fentries_prefix_full(s.drop_first());
        lemma_enc_fentries_prefix_shift(s, s.len() as int - 1);
    }
}

#[verifier::rlimit(100)]
pub fn encode_fstore(s: &formula::Store, out: &mut Vec<u8>)
    requires
        s.wf(),
        fstore_values_wf(*s),
    ensures
        final(out)@ == old(out)@ + enc_fstore(s.entries.deep_view()),
        fentries_encodable(s.entries.deep_view()),
{
    let ghost o0 = out@;
    let ghost dve = s.entries.deep_view();
    let n = s.entries.len();
    encode_u64(n as u64, out);
    for i in 0..n
        invariant
            n == s.entries@.len(),
            dve == s.entries.deep_view(),
            s.wf(),
            fstore_values_wf(*s),
            out@ == o0 + enc_u64(n as u64) + enc_fentries_prefix(dve, i as int),
            forall|j: int|
                #![all_triggers]
                0 <= j < i ==> str_encodable(dve[j].0) && formula_encodable(dve[j].1),
    {
        proof {
            keg::lemma_entries_map_index(s.entries@, i as int);
            assert(s@[s.entries@[i as int].0@] == s.entries@[i as int].1);
        }
        encode_str(s.entries[i].0.as_str(), out);
        encode_formula(&s.entries[i].1, out);
        proof {
            assert(dve[i as int] == (s.entries@[i as int].0@, s.entries@[i as int].1.deep_view()));
            lemma_enc_fentries_prefix_step(dve, i as int);
            vstd::seq_lib::lemma_concat_associative(
                o0 + enc_u64(n as u64) + enc_fentries_prefix(dve, i as int),
                enc_str(dve[i as int].0),
                enc_formula(dve[i as int].1),
            );
            vstd::seq_lib::lemma_concat_associative(
                o0 + enc_u64(n as u64),
                enc_fentries_prefix(dve, i as int),
                enc_str(dve[i as int].0) + enc_formula(dve[i as int].1),
            );
            assert(out@ == o0 + enc_u64(n as u64) + enc_fentries_prefix(dve, i + 1));
            assert(str_encodable(dve[i as int].0));
            assert(formula_encodable(dve[i as int].1));
        }
    }
    proof {
        lemma_enc_fentries_prefix_full(dve);
        vstd::seq_lib::lemma_concat_associative(o0, enc_u64(n as u64), enc_fentries(dve));
        assert(out@ == o0 + enc_fstore(dve));
        assert(dve.len() == n);
    }
}

pub proof fn lemma_enc_fentries_prefix_step(s: Seq<(Seq<char>, formula::FormulaModel)>, i: int)
    requires
        0 <= i < s.len(),
    ensures
        enc_fentries_prefix(s, i + 1) == enc_fentries_prefix(s, i) + (enc_str(s[i].0) + enc_formula(
            s[i].1,
        )),
{
}

pub fn decode_fstore(b: &Vec<u8>, pos: usize) -> (r: Option<(formula::Store, usize)>)
    ensures
        match r {
            Some((s, p)) => {
                &&& dec_fstore(b@, pos as int) matches Some((m, pe))
                &&& s.deep_view() == m
                &&& pe == p as int
                &&& s.wf()
                &&& fstore_values_wf(s)
            },
            None => dec_fstore(b@, pos as int) is None,
        },
{
    let (n, start) = match decode_u64(b, pos) {
        Some(x) => x,
        None => {
            return None;
        },
    };
    let mut acc = formula::Store::new();
    let mut p = start;
    let mut i: u64 = 0;
    proof {
        assert(acc.deep_view() =~= Map::<Seq<char>, formula::FormulaModel>::empty());
    }
    while i < n
        invariant
            i <= n,
            acc.wf(),
            fstore_values_wf(acc),
            dec_u64(b@, pos as int) == Some((n, start as int)),
            dec_fentries(b@, start as int, n as nat, Map::empty()) == dec_fentries(
                b@,
                p as int,
                (n - i) as nat,
                acc.deep_view(),
            ),
        decreases n - i,
    {
        let (key, p1) = match decode_str(b, p) {
            Some(x) => x,
            None => {
                return None;
            },
        };
        let (f, p2) = match decode_formula(b, p1) {
            Some(x) => x,
            None => {
                return None;
            },
        };
        let ghost acc0 = acc@;
        let ghost accdv0 = acc.deep_view();
        let ghost fm = f.deep_view();
        let ghost kv = key@;
        acc.insert(key, f);
        proof {
            assert(acc.deep_view() =~= accdv0.insert(kv, fm));
            assert forall|k: Seq<char>| #[trigger] acc@.contains_key(k) implies (
            acc@[k].base.aliases.wf() && acc@[k].executables.wf()) by {
                if k != kv {
                    assert(acc0.contains_key(k) && acc@[k] == acc0[k]);
                } else {
                    assert(acc@[k] == f);
                }
            }
        }
        p = p2;
        i = i + 1;
    }
    Some((acc, p))
}

// The cask store.
pub open spec fn enc_centries(s: Seq<(Seq<char>, cask::CaskModel)>) -> Seq<u8>
    decreases s.len(),
{
    if s.len() == 0 {
        Seq::empty()
    } else {
        enc_str(s[0].0) + (enc_cask(s[0].1) + enc_centries(s.drop_first()))
    }
}

pub open spec fn enc_cstore(s: Seq<(Seq<char>, cask::CaskModel)>) -> Seq<u8> {
    enc_u64(s.len() as u64) + enc_centries(s)
}

pub open spec fn centries_encodable(s: Seq<(Seq<char>, cask::CaskModel)>) -> bool {
    s.len() <= u64::MAX && (forall|i: int|
        0 <= i < s.len() ==> str_encodable(#[trigger] s[i].0) && cask_encodable(s[i].1))
}

pub open spec fn dec_centries(
    b: Seq<u8>,
    pos: int,
    count: nat,
    acc: Map<Seq<char>, cask::CaskModel>,
) -> Option<(Map<Seq<char>, cask::CaskModel>, int)>
    decreases count,
{
    if count == 0 {
        Some((acc, pos))
    } else {
        match dec_str(b, pos) {
            Some((k, p1)) => match dec_cask(b, p1) {
                Some((m, p2)) => dec_centries(b, p2, (count - 1) as nat, acc.insert(k, m)),
                None => None,
            },
            None => None,
        }
    }
}

pub open spec fn dec_cstore(b: Seq<u8>, pos: int) -> Option<
    (Map<Seq<char>, cask::CaskModel>, int),
> {
    match dec_u64(b, pos) {
        Some((n, p)) => dec_centries(b, p, n as nat, Map::empty()),
        None => None,
    }
}

pub proof fn lemma_centries_round(
    s: Seq<(Seq<char>, cask::CaskModel)>,
    b: Seq<u8>,
    pos: int,
    acc: Map<Seq<char>, cask::CaskModel>,
)
    requires
        centries_encodable(s),
        0 <= pos,
        pos + enc_centries(s).len() <= b.len(),
        b.subrange(pos, pos + enc_centries(s).len()) == enc_centries(s),
    ensures
        dec_centries(b, pos, s.len() as nat, acc) == Some(
            (fold_entries(acc, s), pos + enc_centries(s).len()),
        ),
    decreases s.len(),
{
    if s.len() == 0 {
    } else {
        let e1 = enc_str(s[0].0);
        let e2 = enc_cask(s[0].1);
        let e3 = enc_centries(s.drop_first());
        lemma_split2(b, pos, e1, e2 + e3);
        lemma_str_round(s[0].0, b, pos);
        let p1 = pos + e1.len();
        lemma_split2(b, p1, e2, e3);
        lemma_cask_round(s[0].1, b, p1);
        let p2 = p1 + e2.len();
        assert(centries_encodable(s.drop_first())) by {
            assert(forall|i: int|
                0 <= i < s.drop_first().len() ==> #[trigger] s.drop_first()[i] == s[i + 1]);
        }
        lemma_centries_round(s.drop_first(), b, p2, acc.insert(s[0].0, s[0].1));
    }
}

#[verifier::rlimit(80)]
pub proof fn lemma_cstore_round(s: Seq<(Seq<char>, cask::CaskModel)>, b: Seq<u8>, pos: int)
    requires
        centries_encodable(s),
        0 <= pos,
        pos + enc_cstore(s).len() <= b.len(),
        b.subrange(pos, pos + enc_cstore(s).len()) == enc_cstore(s),
    ensures
        dec_cstore(b, pos) == Some(
            (
                Map::<Seq<char>, cask::CaskModel>::empty().union_prefer_right(
                    entries_map_deep(s),
                ),
                pos + enc_cstore(s).len(),
            ),
        ),
{
    lemma_split2(b, pos, enc_u64(s.len() as u64), enc_centries(s));
    lemma_u64_round(s.len() as u64, b, pos);
    lemma_centries_round(s, b, pos + 8, Map::empty());
    lemma_fold_entries_upr(Map::<Seq<char>, cask::CaskModel>::empty(), s);
}

/// Every cask in a store has well-formed member sets.
pub open spec fn cstore_values_wf(s: cask::Store) -> bool {
    forall|k: Seq<char>|
        #[trigger] s@.contains_key(k) ==> s@[k].base.names.wf()
}

/// The bytes of the first `n` pairs.
pub open spec fn enc_centries_prefix(s: Seq<(Seq<char>, cask::CaskModel)>, n: int) -> Seq<u8>
    decreases n,
{
    if n <= 0 {
        Seq::empty()
    } else {
        enc_centries_prefix(s, n - 1) + (enc_str(s[n - 1].0) + enc_cask(s[n - 1].1))
    }
}

/// A prefix of the tail is the tail of a longer prefix: the first pair's
/// bytes, then the rest.
pub proof fn lemma_enc_centries_prefix_shift(s: Seq<(Seq<char>, cask::CaskModel)>, n: int)
    requires
        s.len() > 0,
        0 <= n <= s.len() - 1,
    ensures
        enc_centries_prefix(s, n + 1) == (enc_str(s[0].0) + enc_cask(s[0].1))
            + enc_centries_prefix(s.drop_first(), n),
    decreases n,
{
    if n == 0 {
        assert(enc_centries_prefix(s, 0) =~= Seq::<u8>::empty());
        assert(enc_centries_prefix(s.drop_first(), 0) =~= Seq::<u8>::empty());
        assert(enc_centries_prefix(s, 1) =~= (enc_str(s[0].0) + enc_cask(s[0].1))
            + enc_centries_prefix(s.drop_first(), 0));
    } else {
        lemma_enc_centries_prefix_shift(s, n - 1);
        assert(s.drop_first()[n - 1] == s[n]);
        vstd::seq_lib::lemma_concat_associative(
            enc_str(s[0].0) + enc_cask(s[0].1),
            enc_centries_prefix(s.drop_first(), n - 1),
            enc_str(s[n].0) + enc_cask(s[n].1),
        );
    }
}

pub proof fn lemma_enc_centries_prefix_full(s: Seq<(Seq<char>, cask::CaskModel)>)
    ensures
        enc_centries_prefix(s, s.len() as int) == enc_centries(s),
    decreases s.len(),
{
    if s.len() == 0 {
        assert(enc_centries_prefix(s, 0) =~= enc_centries(s));
    } else {
        lemma_enc_centries_prefix_full(s.drop_first());
        lemma_enc_centries_prefix_shift(s, s.len() as int - 1);
    }
}

#[verifier::rlimit(100)]
pub fn encode_cstore(s: &cask::Store, out: &mut Vec<u8>)
    requires
        s.wf(),
        cstore_values_wf(*s),
    ensures
        final(out)@ == old(out)@ + enc_cstore(s.entries.deep_view()),
        centries_encodable(s.entries.deep_view()),
{
    let ghost o0 = out@;
    let ghost dve = s.entries.deep_view();
    let n = s.entries.len();
    encode_u64(n as u64, out);
    for i in 0..n
        invariant
            n == s.entries@.len(),
            dve == s.entries.deep_view(),
            s.wf(),
            cstore_values_wf(*s),
            out@ == o0 + enc_u64(n as u64) + enc_centries_prefix(dve, i as int),
            forall|j: int|
                #![all_triggers]
                0 <= j < i ==> str_encodable(dve[j].0) && cask_encodable(dve[j].1),
    {
        proof {
            keg::lemma_entries_map_index(s.entries@, i as int);
            assert(s@[s.entries@[i as int].0@] == s.entries@[i as int].1);
        }
        encode_str(s.entries[i].0.as_str(), out);
        encode_cask(&s.entries[i].1, out);
        proof {
            assert(dve[i as int] == (s.entries@[i as int].0@, s.entries@[i as int].1.deep_view()));
            lemma_enc_centries_prefix_step(dve, i as int);
            vstd::seq_lib::lemma_concat_associative(
                o0 + enc_u64(n as u64) + enc_centries_prefix(dve, i as int),
                enc_str(dve[i as int].0),
                enc_cask(dve[i as int].1),
            );
            vstd::seq_lib::lemma_concat_associative(
                o0 + enc_u64(n as u64),
                enc_centries_prefix(dve, i as int),
                enc_str(dve[i as int].0) + enc_cask(dve[i as int].1),
            );
            assert(out@ == o0 + enc_u64(n as u64) + enc_centries_prefix(dve, i + 1));
            assert(str_encodable(dve[i as int].0));
            assert(cask_encodable(dve[i as int].1));
        }
    }
    proof {
        lemma_enc_centries_prefix_full(dve);
        vstd::seq_lib::lemma_concat_associative(o0, enc_u64(n as u64), enc_centries(dve));
        assert(out@ == o0 + enc_cstore(dve));
        assert(dve.len() == n);
    }
}

pub proof fn lemma_enc_centries_prefix_step(s: Seq<(Seq<char>, cask::CaskModel)>, i: int)
    requires
        0 <= i < s.len(),
    ensures
        enc_centries_prefix(s, i + 1) == enc_centries_prefix(s, i) + (enc_str(s[i].0) + enc_cask(
            s[i].1,
        )),
{
}

pub fn decode_cstore(b: &Vec<u8>, pos: usize) -> (r: Option<(cask::Store, usize)>)
    ensures
        match r {
            Some((s, p)) => {
                &&& dec_cstore(b@, pos as int) matches Some((m, pe))
                &&& s.deep_view() == m
                &&& pe == p as int
                &&& s.wf()
                &&& cstore_values_wf(s)
            },
            None => dec_cstore(b@, pos as int) is None,
        },
{
    let (n, start) = match decode_u64(b, pos) {
        Some(x) => x,
        None => {
            return None;
        },
    };
    let mut acc = cask::Store::new();
    let mut p = start;
    let mut i: u64 = 0;
    proof {
        assert(acc.deep_view() =~= Map::<Seq<char>, cask::CaskModel>::empty());
    }
    while i < n
        invariant
            i <= n,
            acc.wf(),
            cstore_values_wf(acc),
            dec_u64(b@, pos as int) == Some((n, start as int)),
            dec_centries(b@, start as int, n as nat, Map::empty()) == dec_centries(
                b@,
                p as int,
                (n - i) as nat,
                acc.deep_view(),
            ),
        decreases n - i,
    {
        let (key, p1) = match decode_str(b, p) {
            Some(x) => x,
            None => {
                return None;
            },
        };
        let (f, p2) = match decode_cask(b, p1) {
            Some(x) => x,
            None => {
                return None;
            },
        };
        let ghost acc0 = acc@;
        let ghost accdv0 = acc.deep_view();
        let ghost fm = f.deep_view();
        let ghost kv = key@;
        acc.insert(key, f);
        proof {
            assert(acc.deep_view() =~= accdv0.insert(kv, fm));
            assert forall|k: Seq<char>| #[trigger] acc@.contains_key(k) implies acc@[k].base.names.wf() by {
                if k != kv {
                    assert(acc0.contains_key(k) && acc@[k] == acc0[k]);
                } else {
                    assert(acc@[k] == f);
                }
            }
        }
        p = p2;
        i = i + 1;
    }
    Some((acc, p))
}


// The persisted snapshot: the formula catalog, then the cask catalog.
pub open spec fn enc_state(
    f: Seq<(Seq<char>, formula::FormulaModel)>,
    c: Seq<(Seq<char>, cask::CaskModel)>,
) -> Seq<u8> {
    enc_fstore(f) + enc_cstore(c)
}

pub open spec fn dec_state(b: Seq<u8>, pos: int) -> Option<
    ((Map<Seq<char>, formula::FormulaModel>, Map<Seq<char>, cask::CaskModel>), int),
> {
    match dec_fstore(b, pos) {
        Some((fm, p1)) => match dec_cstore(b, p1) {
            Some((cm, p2)) => Some(((fm, cm), p2)),
            None => None,
        },
        None => None,
    }
}

pub fn encode_state(formulae: &formula::Store, casks: &cask::Store, out: &mut Vec<u8>)
    requires
        formulae.wf(),
        casks.wf(),
        fstore_values_wf(*formulae),
        cstore_values_wf(*casks),
    ensures
        final(out)@ == old(out)@ + enc_state(
            formulae.entries.deep_view(),
            casks.entries.deep_view(),
        ),
        fentries_encodable(formulae.entries.deep_view()),
        centries_encodable(casks.entries.deep_view()),
{
    let ghost o0 = out@;
    encode_fstore(formulae, out);
    encode_cstore(casks, out);
    proof {
        assert(out@ =~= o0 + enc_state(
            formulae.entries.deep_view(),
            casks.entries.deep_view(),
        ));
    }
}

pub fn decode_state(b: &Vec<u8>, pos: usize) -> (r: Option<
    (models::State<formula::Store, cask::Store>, usize),
>)
    ensures
        match r {
            Some((s, p)) => {
                &&& dec_state(b@, pos as int) matches Some((m, pe))
                &&& s.formulae.deep_view() == m.0
                &&& s.casks.deep_view() == m.1
                &&& pe == p as int
                &&& s.formulae.wf()
                &&& s.casks.wf()
                &&& fstore_values_wf(s.formulae)
                &&& cstore_values_wf(s.casks)
            },
            None => dec_state(b@, pos as int) is None,
        },
{
    let (formulae, p1) = match decode_fstore(b, pos) {
        Some(x) => x,
        None => {
            return None;
        },
    };
    let (casks, p2) = match decode_cstore(b, p1) {
        Some(x) => x,
        None => {
            return None;
        },
    };
    Some((models::State { formulae, casks }, p2))
}

/// Round trip of the persisted snapshot: decoding what was encoded restores
/// a catalog with the same keys and the same field values, for any snapshot
/// whose stores are well formed and small enough to count.
pub proof fn lemma_state_round_trip(f: formula::Store, c: cask::Store, b: Seq<u8>, pos: int)
    requires
        f.wf(),
        c.wf(),
        fentries_encodable(f.entries.deep_view()),
        centries_encodable(c.entries.deep_view()),
        0 <= pos,
        pos + enc_state(f.entries.deep_view(), c.entries.deep_view()).len() <= b.len(),
        b.subrange(pos, pos + enc_state(f.entries.deep_view(), c.entries.deep_view()).len())
            == enc_state(f.entries.deep_view(), c.entries.deep_view()),
    ensures
        dec_state(b, pos) == Some(
            (
                (f.deep_view(), c.deep_view()),
                pos + enc_state(f.entries.deep_view(), c.entries.deep_view()).len(),
            ),
        ),
{
    let fe = f.entries.deep_view();
    let ce = c.entries.deep_view();
    lemma_split2(b, pos, enc_fstore(fe), enc_cstore(ce));
    lemma_fstore_round(fe, b, pos);
    lemma_cstore_round(ce, b, pos + enc_fstore(fe).len());
    lemma_emd_matches_store(f.entries@);
    lemma_emd_matches_store(c.entries@);
    assert(fe =~= pairs_deep(f.entries@));
    assert(ce =~= pairs_deep(c.entries@));
    assert(Map::<Seq<char>, formula::FormulaModel>::empty().union_prefer_right(
        entries_map_deep(fe),
    ) =~= f.deep_view());
    assert(Map::<Seq<char>, cask::CaskModel>::empty().union_prefer_right(entries_map_deep(ce))
        =~= c.deep_view());
}

} // verus!
