use vstd::prelude::*;

use crate::models::cask;
use crate::models::formula;
use crate::models::keg::dedup;
use crate::models::keg::StringSet;

use super::dec_bool;
use super::dec_i64;
use super::dec_opt_str;
use super::dec_str;
use super::dec_str_list;
use super::decode_bool;
use super::decode_i64;
use super::decode_opt_str;
use super::decode_str;
use super::decode_string_vec;
use super::enc_bool;
use super::enc_i64;
use super::enc_opt_str;
use super::enc_str;
use super::enc_str_list;
use super::encode_bool;
use super::encode_i64;
use super::encode_opt_str;
use super::encode_str;
use super::encode_string_vec;
use super::lemma_bool_round;
use super::opt_str_encodable;
use super::lemma_i64_round;
use super::lemma_opt_str_round;
use super::lemma_split2;
use super::lemma_str_list_round;
use super::lemma_str_round;
use super::str_encodable;
use super::str_list_encodable;

verus! {

/// No string occurs twice: what holds of a set's members.
pub open spec fn distinct_strs(s: Seq<Seq<char>>) -> bool {
    forall|i: int, j: int| 0 <= i < j < s.len() ==> s[i] != s[j]
}

/// A set of strings is laid down as the list of its members; reading the list
/// back and dropping duplicates restores the set.
pub open spec fn str_set_encodable(s: Seq<Seq<char>>) -> bool {
    str_list_encodable(s) && distinct_strs(s)
}

pub fn encode_string_set(v: &StringSet, out: &mut Vec<u8>)
    ensures
        final(out)@ == old(out)@ + enc_str_list(v@),
        str_list_encodable(v@),
{
    encode_string_vec(&v.items, out);
}

pub fn decode_string_set(b: &Vec<u8>, pos: usize) -> (r: Option<(StringSet, usize)>)
    ensures
        match r {
            Some((v, p)) => {
                &&& dec_str_list(b@, pos as int) matches Some((l, pe))
                &&& v@ == dedup(l)
                &&& v.wf()
                &&& pe == p as int
            },
            None => dec_str_list(b@, pos as int) is None,
        },
{
    match decode_string_vec(b, pos) {
        Some((items, p)) => Some((StringSet::from_items(items), p)),
        None => None,
    }
}

// The version pair of a base formula record.
pub open spec fn enc_versions(m: formula::base::VersionsModel) -> Seq<u8> {
    enc_str(m.stable) + enc_opt_str(m.head)
}

pub open spec fn versions_encodable(m: formula::base::VersionsModel) -> bool {
    str_encodable(m.stable) && opt_str_encodable(m.head)
}

pub open spec fn dec_versions(b: Seq<u8>, pos: int) -> Option<(formula::base::VersionsModel, int)> {
    match dec_str(b, pos) {
        Some((stable, p1)) => match dec_opt_str(b, p1) {
            Some((head, p2)) => Some((formula::base::VersionsModel { stable, head }, p2)),
            None => None,
        },
        None => None,
    }
}

pub proof fn lemma_versions_round(m: formula::base::VersionsModel, b: Seq<u8>, pos: int)
    requires
        versions_encodable(m),
        0 <= pos,
        pos + enc_versions(m).len() <= b.len(),
        b.subrange(pos, pos + enc_versions(m).len()) == enc_versions(m),
    ensures
        dec_versions(b, pos) == Some((m, pos + enc_versions(m).len())),
{
    lemma_split2(b, pos, enc_str(m.stable), enc_opt_str(m.head));
    lemma_str_round(m.stable, b, pos);
    lemma_opt_str_round(m.head, b, pos + enc_str(m.stable).len());
}

pub fn encode_versions(v: &formula::base::Versions, out: &mut Vec<u8>)
    ensures
        final(out)@ == old(out)@ + enc_versions(v.deep_view()),
        versions_encodable(v.deep_view()),
{
    let ghost o0 = out@;
    encode_str(v.stable.as_str(), out);
    encode_opt_str(&v.head, out);
    proof {
        assert(out@ =~= o0 + enc_versions(v.deep_view()));
    }
}

pub fn decode_versions(b: &Vec<u8>, pos: usize) -> (r: Option<(formula::base::Versions, usize)>)
    ensures
        match r {
            Some((v, p)) => dec_versions(b@, pos as int) == Some((v.deep_view(), p as int)),
            None => dec_versions(b@, pos as int) is None,
        },
{
    match decode_str(b, pos) {
        Some((stable, p1)) => match decode_opt_str(b, p1) {
            Some((head, p2)) => Some((formula::base::Versions { stable, head }, p2)),
            None => None,
        },
        None => None,
    }
}

// The analytics record of a catalog formula, and its optional wrapper.
pub open spec fn enc_analytics(m: formula::analytics::FormulaModel) -> Seq<u8> {
    enc_i64(m.number) + enc_str(m.formula)
}

pub open spec fn analytics_encodable(m: formula::analytics::FormulaModel) -> bool {
    str_encodable(m.formula)
}

pub open spec fn dec_analytics(b: Seq<u8>, pos: int) -> Option<
    (formula::analytics::FormulaModel, int),
> {
    match dec_i64(b, pos) {
        Some((number, p1)) => match dec_str(b, p1) {
            Some((name, p2)) => Some(
                (formula::analytics::FormulaModel { number, formula: name }, p2),
            ),
            None => None,
        },
        None => None,
    }
}

pub proof fn lemma_analytics_round(m: formula::analytics::FormulaModel, b: Seq<u8>, pos: int)
    requires
        analytics_encodable(m),
        0 <= pos,
        pos + enc_analytics(m).len() <= b.len(),
        b.subrange(pos, pos + enc_analytics(m).len()) == enc_analytics(m),
    ensures
        dec_analytics(b, pos) == Some((m, pos + enc_analytics(m).len())),
{
    lemma_split2(b, pos, enc_i64(m.number), enc_str(m.formula));
    lemma_i64_round(m.number, b, pos);
    lemma_str_round(m.formula, b, pos + enc_i64(m.number).len());
}

pub fn encode_analytics(v: &formula::analytics::Formula, out: &mut Vec<u8>)
    ensures
        final(out)@ == old(out)@ + enc_analytics(v.deep_view()),
        analytics_encodable(v.deep_view()),
{
    let ghost o0 = out@;
    encode_i64(v.number, out);
    encode_str(v.formula.as_str(), out);
    proof {
        assert(out@ =~= o0 + enc_analytics(v.deep_view()));
    }
}

pub fn decode_analytics(b: &Vec<u8>, pos: usize) -> (r: Option<
    (formula::analytics::Formula, usize),
>)
    ensures
        match r {
            Some((v, p)) => dec_analytics(b@, pos as int) == Some((v.deep_view(), p as int)),
            None => dec_analytics(b@, pos as int) is None,
        },
{
    match decode_i64(b, pos) {
        Some((number, p1)) => match decode_str(b, p1) {
            Some((name, p2)) => Some((formula::analytics::Formula { number, formula: name }, p2)),
            None => None,
        },
        None => None,
    }
}

pub open spec fn enc_opt_analytics(m: Option<formula::analytics::FormulaModel>) -> Seq<u8> {
    match m {
        Some(a) => enc_bool(true) + enc_analytics(a),
        None => enc_bool(false),
    }
}

pub open spec fn opt_analytics_encodable(m: Option<formula::analytics::FormulaModel>) -> bool {
    match m {
        Some(a) => analytics_encodable(a),
        None => true,
    }
}

pub open spec fn dec_opt_analytics(b: Seq<u8>, pos: int) -> Option<
    (Option<formula::analytics::FormulaModel>, int),
> {
    match dec_bool(b, pos) {
        Some((present, p)) => if present {
            match dec_analytics(b, p) {
                Some((a, p2)) => Some((Some(a), p2)),
                None => None,
            }
        } else {
            Some((None, p))
        },
        None => None,
    }
}

pub proof fn lemma_opt_analytics_round(
    m: Option<formula::analytics::FormulaModel>,
    b: Seq<u8>,
    pos: int,
)
    requires
        opt_analytics_encodable(m),
        0 <= pos,
        pos + enc_opt_analytics(m).len() <= b.len(),
        b.subrange(pos, pos + enc_opt_analytics(m).len()) == enc_opt_analytics(m),
    ensures
        dec_opt_analytics(b, pos) == Some((m, pos + enc_opt_analytics(m).len())),
{
    match m {
        Some(a) => {
            lemma_split2(b, pos, enc_bool(true), enc_analytics(a));
            lemma_bool_round(true, b, pos);
            lemma_analytics_round(a, b, pos + 1);
        },
        None => {
            lemma_bool_round(false, b, pos);
        },
    }
}

pub fn encode_opt_analytics(v: &Option<formula::analytics::Formula>, out: &mut Vec<u8>)
    ensures
        final(out)@ == old(out)@ + enc_opt_analytics(v.deep_view()),
        opt_analytics_encodable(v.deep_view()),
{
    let ghost o0 = out@;
    match v {
        Some(a) => {
            encode_bool(true, out);
            encode_analytics(a, out);
            proof {
                assert(out@ =~= o0 + enc_opt_analytics(v.deep_view()));
            }
        },
        None => {
            encode_bool(false, out);
            proof {
                assert(out@ =~= o0 + enc_opt_analytics(v.deep_view()));
            }
        },
    }
}

pub fn decode_opt_analytics(b: &Vec<u8>, pos: usize) -> (r: Option<
    (Option<formula::analytics::Formula>, usize),
>)
    ensures
        match r {
            Some((v, p)) => dec_opt_analytics(b@, pos as int) == Some((v.deep_view(), p as int)),
            None => dec_opt_analytics(b@, pos as int) is None,
        },
{
    match decode_bool(b, pos) {
        Some((present, p)) => {
            if present {
                match decode_analytics(b, p) {
                    Some((a, p2)) => Some((Some(a), p2)),
                    None => None,
                }
            } else {
                Some((None, p))
            }
        },
        None => None,
    }
}

// The base record of a formula, field by field in declaration order.
#[verifier::opaque]
pub open spec fn enc_fbase(m: formula::base::FormulaModel) -> Seq<u8> {
    enc_str(m.name) + (enc_str(m.tap) + (enc_opt_str(m.desc) + (enc_opt_str(m.homepage) + (
    enc_opt_str(m.caveats) + (enc_str_list(m.build_dependencies) + (enc_str_list(m.dependencies) + (
    enc_bool(m.deprecated) + (enc_opt_str(m.deprecation_reason) + (enc_bool(m.disabled) + (
    enc_opt_str(m.disable_reason) + (enc_str_list(m.aliases) + enc_versions(m.versions))))))))))))
}

pub open spec fn fbase_encodable(m: formula::base::FormulaModel) -> bool {
    &&& str_encodable(m.name)
    &&& str_encodable(m.tap)
    &&& opt_str_encodable(m.desc)
    &&& opt_str_encodable(m.homepage)
    &&& opt_str_encodable(m.caveats)
    &&& str_list_encodable(m.build_dependencies)
    &&& str_list_encodable(m.dependencies)
    &&& opt_str_encodable(m.deprecation_reason)
    &&& opt_str_encodable(m.disable_reason)
    &&& str_set_encodable(m.aliases)
    &&& versions_encodable(m.versions)
}

#[verifier::opaque]
pub open spec fn dec_fbase(b: Seq<u8>, pos: int) -> Option<(formula::base::FormulaModel, int)> {
    match dec_str(b, pos) {
        Some((name, p1)) => match dec_str(b, p1) {
            Some((tap, p2)) => match dec_opt_str(b, p2) {
                Some((desc, p3)) => match dec_opt_str(b, p3) {
                    Some((homepage, p4)) => match dec_opt_str(b, p4) {
                        Some((caveats, p5)) => match dec_str_list(b, p5) {
                            Some((bdeps, p6)) => match dec_str_list(b, p6) {
                                Some((deps, p7)) => match dec_bool(b, p7) {
                                    Some((deprecated, p8)) => match dec_opt_str(b, p8) {
                                        Some((dreason, p9)) => match dec_bool(b, p9) {
                                            Some((disabled, p10)) => match dec_opt_str(b, p10) {
                                                Some((direason, p11)) => match dec_str_list(
                                                    b,
                                                    p11,
                                                ) {
                                                    Some((aliases, p12)) => match dec_versions(
                                                        b,
                                                        p12,
                                                    ) {
                                                        Some((versions, p13)) => Some(
                                                            (
                                                                formula::base::FormulaModel {
                                                                    name,
                                                                    tap,
                                                                    desc,
                                                                    homepage,
                                                                    caveats,
                                                                    build_dependencies: bdeps,
                                                                    dependencies: deps,
                                                                    deprecated,
                                                                    deprecation_reason: dreason,
                                                                    disabled,
                                                                    disable_reason: direason,
                                                                    aliases: dedup(aliases),
                                                                    versions,
                                                                },
                                                                p13,
                                                            ),
                                                        ),
                                                        None => None,
                                                    },
                                                    None => None,
                                                },
                                                None => None,
                                            },
                                            None => None,
                                        },
                                        None => None,
                                    },
                                    None => None,
                                },
                                None => None,
                            },
                            None => None,
                        },
                        None => None,
                    },
                    None => None,
                },
                None => None,
            },
            None => None,
        },
        None => None,
    }
}

#[verifier::rlimit(80)]
pub proof fn lemma_fbase_round(m: formula::base::FormulaModel, b: Seq<u8>, pos: int)
    requires
        fbase_encodable(m),
        0 <= pos,
        pos + enc_fbase(m).len() <= b.len(),
        b.subrange(pos, pos + enc_fbase(m).len()) == enc_fbase(m),
    ensures
        dec_fbase(b, pos) == Some((m, pos + enc_fbase(m).len())),
{
    reveal(enc_fbase);
    reveal(dec_fbase);
    let e1 = enc_str(m.name);
    let e2 = enc_str(m.tap);
    let e3 = enc_opt_str(m.desc);
    let e4 = enc_opt_str(m.homepage);
    let e5 = enc_opt_str(m.caveats);
    let e6 = enc_str_list(m.build_dependencies);
    let e7 = enc_str_list(m.dependencies);
    let e8 = enc_bool(m.deprecated);
    let e9 = enc_opt_str(m.deprecation_reason);
    let e10 = enc_bool(m.disabled);
    let e11 = enc_opt_str(m.disable_reason);
    let e12 = enc_str_list(m.aliases);
    let e13 = enc_versions(m.versions);
    let t13 = e13;
    let t12 = e12 + t13;
    let t11 = e11 + t12;
    let t10 = e10 + t11;
    let t9 = e9 + t10;
    let t8 = e8 + t9;
    let t7 = e7 + t8;
    let t6 = e6 + t7;
    let t5 = e5 + t6;
    let t4 = e4 + t5;
    let t3 = e3 + t4;
    let t2 = e2 + t3;
    let p0 = pos;
    lemma_split2(b, p0, e1, t2);
    lemma_str_round(m.name, b, p0);
    let p1 = p0 + e1.len();
    lemma_split2(b, p1, e2, t3);
    lemma_str_round(m.tap, b, p1);
    let p2 = p1 + e2.len();
    lemma_split2(b, p2, e3, t4);
    lemma_opt_str_round(m.desc, b, p2);
    let p3 = p2 + e3.len();
    lemma_split2(b, p3, e4, t5);
    lemma_opt_str_round(m.homepage, b, p3);
    let p4 = p3 + e4.len();
    lemma_split2(b, p4, e5, t6);
    lemma_opt_str_round(m.caveats, b, p4);
    let p5 = p4 + e5.len();
    lemma_split2(b, p5, e6, t7);
    lemma_str_list_round(m.build_dependencies, b, p5);
    let p6 = p5 + e6.len();
    lemma_split2(b, p6, e7, t8);
    lemma_str_list_round(m.dependencies, b, p6);
    let p7 = p6 + e7.len();
    lemma_split2(b, p7, e8, t9);
    lemma_bool_round(m.deprecated, b, p7);
    let p8 = p7 + e8.len();
    lemma_split2(b, p8, e9, t10);
    lemma_opt_str_round(m.deprecation_reason, b, p8);
    let p9 = p8 + e9.len();
    lemma_split2(b, p9, e10, t11);
    lemma_bool_round(m.disabled, b, p9);
    let p10 = p9 + e10.len();
    lemma_split2(b, p10, e11, t12);
    lemma_opt_str_round(m.disable_reason, b, p10);
    let p11 = p10 + e11.len();
    lemma_split2(b, p11, e12, t13);
    lemma_str_list_round(m.aliases, b, p11);
    crate::models::keg::lemma_dedup_of_distinct(m.aliases);
    let p12 = p11 + e12.len();
    lemma_versions_round(m.versions, b, p12);
}

#[verifier::rlimit(60)]
pub fn encode_fbase(v: &formula::base::Formula, out: &mut Vec<u8>)
    requires
        v.aliases.wf(),
    ensures
        final(out)@ == old(out)@ + enc_fbase(v.deep_view()),
        fbase_encodable(v.deep_view()),
{
    let ghost o0 = out@;
    encode_str(v.name.as_str(), out);
    encode_str(v.tap.as_str(), out);
    encode_opt_str(&v.desc, out);
    encode_opt_str(&v.homepage, out);
    encode_opt_str(&v.caveats, out);
    encode_string_vec(&v.build_dependencies, out);
    encode_string_vec(&v.dependencies, out);
    encode_bool(v.deprecated, out);
    encode_opt_str(&v.deprecation_reason, out);
    encode_bool(v.disabled, out);
    encode_opt_str(&v.disable_reason, out);
    encode_string_set(&v.aliases, out);
    encode_versions(&v.versions, out);
    proof {
        reveal(enc_fbase);
        let m = v.deep_view();
        let e1 = enc_str(m.name);
        let e2 = enc_str(m.tap);
        let e3 = enc_opt_str(m.desc);
        let e4 = enc_opt_str(m.homepage);
        let e5 = enc_opt_str(m.caveats);
        let e6 = enc_str_list(m.build_dependencies);
        let e7 = enc_str_list(m.dependencies);
        let e8 = enc_bool(m.deprecated);
        let e9 = enc_opt_str(m.deprecation_reason);
        let e10 = enc_bool(m.disabled);
        let e11 = enc_opt_str(m.disable_reason);
        let e12 = enc_str_list(m.aliases);
        let e13 = enc_versions(m.versions);
        let t13 = e13;
        let t12 = e12 + t13;
        let t11 = e11 + t12;
        let t10 = e10 + t11;
        let t9 = e9 + t10;
        let t8 = e8 + t9;
        let t7 = e7 + t8;
        let t6 = e6 + t7;
        let t5 = e5 + t6;
        let t4 = e4 + t5;
        let t3 = e3 + t4;
        let t2 = e2 + t3;
        let t1 = e1 + t2;
        vstd::seq_lib::lemma_concat_associative(o0 + e1 + e2 + e3 + e4 + e5 + e6 + e7 + e8 + e9 + e10 + e11, e12, t13);
        vstd::seq_lib::lemma_concat_associative(o0 + e1 + e2 + e3 + e4 + e5 + e6 + e7 + e8 + e9 + e10, e11, t12);
        vstd::seq_lib::lemma_concat_associative(o0 + e1 + e2 + e3 + e4 + e5 + e6 + e7 + e8 + e9, e10, t11);
        vstd::seq_lib::lemma_concat_associative(o0 + e1 + e2 + e3 + e4 + e5 + e6 + e7 + e8, e9, t10);
        vstd::seq_lib::lemma_concat_associative(o0 + e1 + e2 + e3 + e4 + e5 + e6 + e7, e8, t9);
        vstd::seq_lib::lemma_concat_associative(o0 + e1 + e2 + e3 + e4 + e5 + e6, e7, t8);
        vstd::seq_lib::lemma_concat_associative(o0 + e1 + e2 + e3 + e4 + e5, e6, t7);
        vstd::seq_lib::lemma_concat_associative(o0 + e1 + e2 + e3 + e4, e5, t6);
        vstd::seq_lib::lemma_concat_associative(o0 + e1 + e2 + e3, e4, t5);
        vstd::seq_lib::lemma_concat_associative(o0 + e1 + e2, e3, t4);
        vstd::seq_lib::lemma_concat_associative(o0 + e1, e2, t3);
        vstd::seq_lib::lemma_concat_associative(o0, e1, t2);
        assert(out@ == o0 + t1);
        assert(enc_fbase(m) == t1);
    }
}

pub fn decode_fbase(b: &Vec<u8>, pos: usize) -> (r: Option<(formula::base::Formula, usize)>)
    ensures
        match r {
            Some((v, p)) => {
                &&& dec_fbase(b@, pos as int) == Some((v.deep_view(), p as int))
                &&& v.aliases.wf()
            },
            None => dec_fbase(b@, pos as int) is None,
        },
{
    proof {
        reveal(dec_fbase);
    }
    let (name, p1) = match decode_str(b, pos) {
        Some(x) => x,
        None => {
            return None;
        },
    };
    let (tap, p2) = match decode_str(b, p1) {
        Some(x) => x,
        None => {
            return None;
        },
    };
    let (desc, p3) = match decode_opt_str(b, p2) {
        Some(x) => x,
        None => {
            return None;
        },
    };
    let (homepage, p4) = match decode_opt_str(b, p3) {
        Some(x) => x,
        None => {
            return None;
        },
    };
    let (caveats, p5) = match decode_opt_str(b, p4) {
        Some(x) => x,
        None => {
            return None;
        },
    };
    let (bdeps, p6) = match decode_string_vec(b, p5) {
        Some(x) => x,
        None => {
            return None;
        },
    };
    let (deps, p7) = match decode_string_vec(b, p6) {
        Some(x) => x,
        None => {
            return None;
        },
    };
    let (deprecated, p8) = match decode_bool(b, p7) {
        Some(x) => x,
        None => {
            return None;
        },
    };
    let (dreason, p9) = match decode_opt_str(b, p8) {
        Some(x) => x,
        None => {
            return None;
        },
    };
    let (disabled, p10) = match decode_bool(b, p9) {
        Some(x) => x,
        None => {
            return None;
        },
    };
    let (direason, p11) = match decode_opt_str(b, p10) {
        Some(x) => x,
        None => {
            return None;
        },
    };
    let (aliases, p12) = match decode_string_set(b, p11) {
        Some(x) => x,
        None => {
            return None;
        },
    };
    let (versions, p13) = match decode_versions(b, p12) {
        Some(x) => x,
        None => {
            return None;
        },
    };
    Some(
        (
            formula::base::Formula {
                name,
                tap,
                desc,
                homepage,
                caveats,
                build_dependencies: bdeps,
                dependencies: deps,
                deprecated,
                deprecation_reason: dreason,
                disabled,
                disable_reason: direason,
                aliases,
                versions,
            },
            p13,
        ),
    )
}

// A catalog formula: its base record, its executables, and its analytics.
#[verifier::opaque]
pub open spec fn enc_formula(m: formula::FormulaModel) -> Seq<u8> {
    enc_fbase(m.base) + (enc_str_list(m.executables) + enc_opt_analytics(m.analytics))
}

pub open spec fn formula_encodable(m: formula::FormulaModel) -> bool {
    fbase_encodable(m.base) && str_set_encodable(m.executables) && opt_analytics_encodable(
        m.analytics,
    )
}

#[verifier::opaque]
pub open spec fn dec_formula(b: Seq<u8>, pos: int) -> Option<(formula::FormulaModel, int)> {
    match dec_fbase(b, pos) {
        Some((base, p1)) => match dec_str_list(b, p1) {
            Some((exes, p2)) => match dec_opt_analytics(b, p2) {
                Some((analytics, p3)) => Some(
                    (
                        formula::FormulaModel { base, executables: dedup(exes), analytics },
                        p3,
                    ),
                ),
                None => None,
            },
            None => None,
        },
        None => None,
    }
}

pub proof fn lemma_formula_round(m: formula::FormulaModel, b: Seq<u8>, pos: int)
    requires
        formula_encodable(m),
        0 <= pos,
        pos + enc_formula(m).len() <= b.len(),
        b.subrange(pos, pos + enc_formula(m).len()) == enc_formula(m),
    ensures
        dec_formula(b, pos) == Some((m, pos + enc_formula(m).len())),
{
    reveal(enc_formula);
    reveal(dec_formula);
    let e1 = enc_fbase(m.base);
    let e2 = enc_str_list(m.executables);
    let e3 = enc_opt_analytics(m.analytics);
    lemma_split2(b, pos, e1, e2 + e3);
    lemma_fbase_round(m.base, b, pos);
    let p1 = pos + e1.len();
    lemma_split2(b, p1, e2, e3);
    lemma_str_list_round(m.executables, b, p1);
    crate::models::keg::lemma_dedup_of_distinct(m.executables);
    let p2 = p1 + e2.len();
    lemma_opt_analytics_round(m.analytics, b, p2);
}

pub fn encode_formula(v: &formula::Formula, out: &mut Vec<u8>)
    requires
        v.base.aliases.wf(),
        v.executables.wf(),
    ensures
        final(out)@ == old(out)@ + enc_formula(v.deep_view()),
        formula_encodable(v.deep_view()),
{
    let ghost o0 = out@;
    encode_fbase(&v.base, out);
    encode_string_set(&v.executables, out);
    encode_opt_analytics(&v.analytics, out);
    proof {
        reveal(enc_formula);
        let m = v.deep_view();
        let e1 = enc_fbase(m.base);
        let e2 = enc_str_list(m.executables);
        let e3 = enc_opt_analytics(m.analytics);
        vstd::seq_lib::lemma_concat_associative(o0 + e1, e2, e3);
        vstd::seq_lib::lemma_concat_associative(o0, e1, e2 + e3);
        assert(out@ == o0 + enc_formula(m));
    }
}

pub fn decode_formula(b: &Vec<u8>, pos: usize) -> (r: Option<(formula::Formula, usize)>)
    ensures
        match r {
            Some((v, p)) => {
                &&& dec_formula(b@, pos as int) == Some((v.deep_view(), p as int))
                &&& v.base.aliases.wf()
                &&& v.executables.wf()
            },
            None => dec_formula(b@, pos as int) is None,
        },
{
    proof {
        reveal(dec_formula);
    }
    let (base, p1) = match decode_fbase(b, pos) {
        Some(x) => x,
        None => {
            return None;
        },
    };
    let (exes, p2) = match decode_string_set(b, p1) {
        Some(x) => x,
        None => {
            return None;
        },
    };
    let (analytics, p3) = match decode_opt_analytics(b, p2) {
        Some(x) => x,
        None => {
            return None;
        },
    };
    Some((formula::Formula { base, executables: exes, analytics }, p3))
}

// The base record of a cask, field by field in declaration order.
#[verifier::opaque]
pub open spec fn enc_cbase(m: cask::base::CaskModel) -> Seq<u8> {
    enc_str(m.token) + (enc_str(m.tap) + (enc_opt_str(m.desc) + (enc_str(m.version) + (enc_opt_str(m.caveats) + (enc_opt_str(m.homepage) + (enc_bool(m.deprecated) + (enc_opt_str(m.deprecation_reason) + (enc_bool(m.disabled) + (enc_opt_str(m.disable_reason) + (enc_str_list(m.names)))))))))))
}

pub open spec fn cbase_encodable(m: cask::base::CaskModel) -> bool {
    &&& str_encodable(m.token)
    &&& str_encodable(m.tap)
    &&& opt_str_encodable(m.desc)
    &&& str_encodable(m.version)
    &&& opt_str_encodable(m.caveats)
    &&& opt_str_encodable(m.homepage)
    &&& opt_str_encodable(m.deprecation_reason)
    &&& opt_str_encodable(m.disable_reason)
    &&& str_set_encodable(m.names)
}

#[verifier::opaque]
pub open spec fn dec_cbase(b: Seq<u8>, pos: int) -> Option<(cask::base::CaskModel, int)> {
    match dec_str(b, pos) {
        Some((token, p1)) => match dec_str(b, p1) {
            Some((tap, p2)) => match dec_opt_str(b, p2) {
                Some((desc, p3)) => match dec_str(b, p3) {
                    Some((version, p4)) => match dec_opt_str(b, p4) {
                        Some((caveats, p5)) => match dec_opt_str(b, p5) {
                            Some((homepage, p6)) => match dec_bool(b, p6) {
                                Some((deprecated, p7)) => match dec_opt_str(b, p7) {
                                    Some((dreason, p8)) => match dec_bool(b, p8) {
                                        Some((disabled, p9)) => match dec_opt_str(b, p9) {
                                            Some((direason, p10)) => match dec_str_list(b, p10) {
                                                Some((names, p11)) => Some(
                                                    (
                                                        cask::base::CaskModel {
                                                            token,
                                                            tap,
                                                            desc,
                                                            version,
                                                            caveats,
                                                            homepage,
                                                            deprecated,
                                                            deprecation_reason: dreason,
                                                            disabled,
                                                            disable_reason: direason,
                                                            names: dedup(names),
                                                        },
                                                        p11,
                                                    ),
                                                ),
                                                None => None,
                                            },
                                            None => None,
                                        },
                                        None => None,
                                    },
                                    None => None,
                                },
                                None => None,
                            },
                            None => None,
                        },
                        None => None,
                    },
                    None => None,
                },
                None => None,
            },
            None => None,
        },
        None => None,
    }
}

#[verifier::rlimit(80)]
pub proof fn lemma_cbase_round(m: cask::base::CaskModel, b: Seq<u8>, pos: int)
    requires
        cbase_encodable(m),
        0 <= pos,
        pos + enc_cbase(m).len() <= b.len(),
        b.subrange(pos, pos + enc_cbase(m).len()) == enc_cbase(m),
    ensures
        dec_cbase(b, pos) == Some((m, pos + enc_cbase(m).len())),
{
    reveal(enc_cbase);
    reveal(dec_cbase);
    let e1 = enc_str(m.token);
    let e2 = enc_str(m.tap);
    let e3 = enc_opt_str(m.desc);
    let e4 = enc_str(m.version);
    let e5 = enc_opt_str(m.caveats);
    let e6 = enc_opt_str(m.homepage);
    let e7 = enc_bool(m.deprecated);
    let e8 = enc_opt_str(m.deprecation_reason);
    let e9 = enc_bool(m.disabled);
    let e10 = enc_opt_str(m.disable_reason);
    let e11 = enc_str_list(m.names);
    let t11 = e11;
    let t10 = e10 + t11;
    let t9 = e9 + t10;
    let t8 = e8 + t9;
    let t7 = e7 + t8;
    let t6 = e6 + t7;
    let t5 = e5 + t6;
    let t4 = e4 + t5;
    let t3 = e3 + t4;
    let t2 = e2 + t3;
    let t1 = e1 + t2;
    let p0 = pos;
    lemma_split2(b, p0, e1, t2);
    lemma_str_round(m.token, b, p0);
    let p1 = p0 + e1.len();
    lemma_split2(b, p1, e2, t3);
    lemma_str_round(m.tap, b, p1);
    let p2 = p1 + e2.len();
    lemma_split2(b, p2, e3, t4);
    lemma_opt_str_round(m.desc, b, p2);
    let p3 = p2 + e3.len();
    lemma_split2(b, p3, e4, t5);
    lemma_str_round(m.version, b, p3);
    let p4 = p3 + e4.len();
    lemma_split2(b, p4, e5, t6);
    lemma_opt_str_round(m.caveats, b, p4);
    let p5 = p4 + e5.len();
    lemma_split2(b, p5, e6, t7);
    lemma_opt_str_round(m.homepage, b, p5);
    let p6 = p5 + e6.len();
    lemma_split2(b, p6, e7, t8);
    lemma_bool_round(m.deprecated, b, p6);
    let p7 = p6 + e7.len();
    lemma_split2(b, p7, e8, t9);
    lemma_opt_str_round(m.deprecation_reason, b, p7);
    let p8 = p7 + e8.len();
    lemma_split2(b, p8, e9, t10);
    lemma_bool_round(m.disabled, b, p8);
    let p9 = p8 + e9.len();
    lemma_split2(b, p9, e10, t11);
    lemma_opt_str_round(m.disable_reason, b, p9);
    let p10 = p9 + e10.len();
    lemma_str_list_round(m.names, b, p10);
    crate::models::keg::lemma_dedup_of_distinct(m.names);
}

#[verifier::rlimit(60)]
pub fn encode_cbase(v: &cask::base::Cask, out: &mut Vec<u8>)
    requires
        v.names.wf(),
    ensures
        final(out)@ == old(out)@ + enc_cbase(v.deep_view()),
        cbase_encodable(v.deep_view()),
{
    let ghost o0 = out@;
    encode_str(v.token.as_str(), out);
    encode_str(v.tap.as_str(), out);
    encode_opt_str(&v.desc, out);
    encode_str(v.version.as_str(), out);
    encode_opt_str(&v.caveats, out);
    encode_opt_str(&v.homepage, out);
    encode_bool(v.deprecated, out);
    encode_opt_str(&v.deprecation_reason, out);
    encode_bool(v.disabled, out);
    encode_opt_str(&v.disable_reason, out);
    encode_string_set(&v.names, out);
    proof {
        reveal(enc_cbase);
        let m = v.deep_view();
        let e1 = enc_str(m.token);
        let e2 = enc_str(m.tap);
        let e3 = enc_opt_str(m.desc);
        let e4 = enc_str(m.version);
        let e5 = enc_opt_str(m.caveats);
        let e6 = enc_opt_str(m.homepage);
        let e7 = enc_bool(m.deprecated);
        let e8 = enc_opt_str(m.deprecation_reason);
        let e9 = enc_bool(m.disabled);
        let e10 = enc_opt_str(m.disable_reason);
        let e11 = enc_str_list(m.names);
        let t11 = e11;
        let t10 = e10 + t11;
        let t9 = e9 + t10;
        let t8 = e8 + t9;
        let t7 = e7 + t8;
        let t6 = e6 + t7;
        let t5 = e5 + t6;
        let t4 = e4 + t5;
        let t3 = e3 + t4;
        let t2 = e2 + t3;
        let t1 = e1 + t2;
        vstd::seq_lib::lemma_concat_associative(o0 + e1 + e2 + e3 + e4 + e5 + e6 + e7 + e8 + e9, e10, t11);
        vstd::seq_lib::lemma_concat_associative(o0 + e1 + e2 + e3 + e4 + e5 + e6 + e7 + e8, e9, t10);
        vstd::seq_lib::lemma_concat_associative(o0 + e1 + e2 + e3 + e4 + e5 + e6 + e7, e8, t9);
        vstd::seq_lib::lemma_concat_associative(o0 + e1 + e2 + e3 + e4 + e5 + e6, e7, t8);
        vstd::seq_lib::lemma_concat_associative(o0 + e1 + e2 + e3 + e4 + e5, e6, t7);
        vstd::seq_lib::lemma_concat_associative(o0 + e1 + e2 + e3 + e4, e5, t6);
        vstd::seq_lib::lemma_concat_associative(o0 + e1 + e2 + e3, e4, t5);
        vstd::seq_lib::lemma_concat_associative(o0 + e1 + e2, e3, t4);
        vstd::seq_lib::lemma_concat_associative(o0 + e1, e2, t3);
        vstd::seq_lib::lemma_concat_associative(o0, e1, t2);
        assert(out@ == o0 + t1);
        assert(enc_cbase(m) == t1);
    }
}

pub fn decode_cbase(b: &Vec<u8>, pos: usize) -> (r: Option<(cask::base::Cask, usize)>)
    ensures
        match r {
            Some((v, p)) => {
                &&& dec_cbase(b@, pos as int) == Some((v.deep_view(), p as int))
                &&& v.names.wf()
            },
            None => dec_cbase(b@, pos as int) is None,
        },
{
    proof {
        reveal(dec_cbase);
    }
    let (token, p1) = match decode_str(b, pos) {
        Some(x) => x,
        None => {
            return None;
        },
    };
    let (tap, p2) = match decode_str(b, p1) {
        Some(x) => x,
        None => {
            return None;
        },
    };
    let (desc, p3) = match decode_opt_str(b, p2) {
        Some(x) => x,
        None => {
            return None;
        },
    };
    let (version, p4) = match decode_str(b, p3) {
        Some(x) => x,
        None => {
            return None;
        },
    };
    let (caveats, p5) = match decode_opt_str(b, p4) {
        Some(x) => x,
        None => {
            return None;
        },
    };
    let (homepage, p6) = match decode_opt_str(b, p5) {
        Some(x) => x,
        None => {
            return None;
        },
    };
    let (deprecated, p7) = match decode_bool(b, p6) {
        Some(x) => x,
        None => {
            return None;
        },
    };
    let (dreason, p8) = match decode_opt_str(b, p7) {
        Some(x) => x,
        None => {
            return None;
        },
    };
    let (disabled, p9) = match decode_bool(b, p8) {
        Some(x) => x,
        None => {
            return None;
        },
    };
    let (direason, p10) = match decode_opt_str(b, p9) {
        Some(x) => x,
        None => {
            return None;
        },
    };
    let (names, p11) = match decode_string_set(b, p10) {
        Some(x) => x,
        None => {
            return None;
        },
    };
    Some(
        (
            cask::base::Cask {
                token,
                tap,
                desc,
                version,
                caveats,
                homepage,
                deprecated,
                deprecation_reason: dreason,
                disabled,
                disable_reason: direason,
                names,
            },
            p11,
        ),
    )
}

// A catalog cask is its base record.
pub open spec fn enc_cask(m: cask::CaskModel) -> Seq<u8> {
    enc_cbase(m.base)
}

pub open spec fn cask_encodable(m: cask::CaskModel) -> bool {
    cbase_encodable(m.base)
}

pub open spec fn dec_cask(b: Seq<u8>, pos: int) -> Option<(cask::CaskModel, int)> {
    match dec_cbase(b, pos) {
        Some((base, p)) => Some((cask::CaskModel { base }, p)),
        None => None,
    }
}

pub proof fn lemma_cask_round(m: cask::CaskModel, b: Seq<u8>, pos: int)
    requires
        cask_encodable(m),
        0 <= pos,
        pos + enc_cask(m).len() <= b.len(),
        b.subrange(pos, pos + enc_cask(m).len()) == enc_cask(m),
    ensures
        dec_cask(b, pos) == Some((m, pos + enc_cask(m).len())),
{
    lemma_cbase_round(m.base, b, pos);
}

pub fn encode_cask(v: &cask::Cask, out: &mut Vec<u8>)
    requires
        v.base.names.wf(),
    ensures
        final(out)@ == old(out)@ + enc_cask(v.deep_view()),
        cask_encodable(v.deep_view()),
{
    encode_cbase(&v.base, out);
}

pub fn decode_cask(b: &Vec<u8>, pos: usize) -> (r: Option<(cask::Cask, usize)>)
    ensures
        match r {
            Some((v, p)) => {
                &&& dec_cask(b@, pos as int) == Some((v.deep_view(), p as int))
                &&& v.base.names.wf()
            },
            None => dec_cask(b@, pos as int) is None,
        },
{
    match decode_cbase(b, pos) {
        Some((base, p)) => Some((cask::Cask { base }, p)),
        None => None,
    }
}

} // verus!
