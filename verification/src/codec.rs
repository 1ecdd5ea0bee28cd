use vstd::prelude::*;

pub mod records;
pub mod snapshot;

use vstd::utf8::{decode_utf8, encode_utf8, valid_utf8};

verus! {

broadcast use vstd::utf8::group_utf8_lib;

// The persisted snapshot and the last-update timestamp are laid down in a
// compact binary form of this library's own: fixed-width big-endian integers,
// length-prefixed UTF-8 strings, count-prefixed lists, and one byte of tag
// for options, booleans and signs. Each encoder has a decoder proved to read
// back exactly what was written.

/// An unsigned count or length: eight bytes, big-endian.
pub open spec fn enc_u64(v: u64) -> Seq<u8> {
    seq![
        (v >> 56) as u8,
        (v >> 48) as u8,
        (v >> 40) as u8,
        (v >> 32) as u8,
        (v >> 24) as u8,
        (v >> 16) as u8,
        (v >> 8) as u8,
        v as u8,
    ]
}

pub open spec fn dec_u64_at(b: Seq<u8>, pos: int) -> u64 {
    (((b[pos] as u64) << 56) | ((b[pos + 1] as u64) << 48) | ((b[pos + 2] as u64) << 40) | ((b[pos
        + 3] as u64) << 32) | ((b[pos + 4] as u64) << 24) | ((b[pos + 5] as u64) << 16) | ((b[pos
        + 6] as u64) << 8) | (b[pos + 7] as u64)) as u64
}

pub open spec fn dec_u64(b: Seq<u8>, pos: int) -> Option<(u64, int)> {
    if 0 <= pos && pos + 8 <= b.len() {
        Some((dec_u64_at(b, pos), pos + 8))
    } else {
        None
    }
}

pub proof fn lemma_u64_round(v: u64, b: Seq<u8>, pos: int)
    requires
        0 <= pos,
        pos + 8 <= b.len(),
        b.subrange(pos, pos + 8) == enc_u64(v),
    ensures
        dec_u64(b, pos) == Some((v, pos + 8)),
{
    let e = enc_u64(v);
    assert(b[pos] == e[0] && b[pos + 1] == e[1] && b[pos + 2] == e[2] && b[pos + 3] == e[3] && b[pos
        + 4] == e[4] && b[pos + 5] == e[5] && b[pos + 6] == e[6] && b[pos + 7] == e[7]) by {
        assert(b.subrange(pos, pos + 8)[0] == b[pos]);
        assert(b.subrange(pos, pos + 8)[1] == b[pos + 1]);
        assert(b.subrange(pos, pos + 8)[2] == b[pos + 2]);
        assert(b.subrange(pos, pos + 8)[3] == b[pos + 3]);
        assert(b.subrange(pos, pos + 8)[4] == b[pos + 4]);
        assert(b.subrange(pos, pos + 8)[5] == b[pos + 5]);
        assert(b.subrange(pos, pos + 8)[6] == b[pos + 6]);
        assert(b.subrange(pos, pos + 8)[7] == b[pos + 7]);
    }
    assert((((((v >> 56) as u8) as u64) << 56) | ((((v >> 48) as u8) as u64) << 48) | ((((v >> 40)
        as u8) as u64) << 40) | ((((v >> 32) as u8) as u64) << 32) | ((((v >> 24) as u8) as u64)
        << 24) | ((((v >> 16) as u8) as u64) << 16) | ((((v >> 8) as u8) as u64) << 8) | ((v as u8)
        as u64)) == v) by (bit_vector);
}

pub fn encode_u64(v: u64, out: &mut Vec<u8>)
    ensures
        final(out)@ == old(out)@ + enc_u64(v),
{
    let ghost o0 = out@;
    out.push(#[verifier::truncate] ((v >> 56) as u8));
    out.push(#[verifier::truncate] ((v >> 48) as u8));
    out.push(#[verifier::truncate] ((v >> 40) as u8));
    out.push(#[verifier::truncate] ((v >> 32) as u8));
    out.push(#[verifier::truncate] ((v >> 24) as u8));
    out.push(#[verifier::truncate] ((v >> 16) as u8));
    out.push(#[verifier::truncate] ((v >> 8) as u8));
    out.push(#[verifier::truncate] (v as u8));
    proof {
        assert(out@ =~= o0 + enc_u64(v));
    }
}

pub fn decode_u64(b: &Vec<u8>, pos: usize) -> (r: Option<(u64, usize)>)
    ensures
        match r {
            Some((v, p)) => dec_u64(b@, pos as int) == Some((v, p as int)),
            None => dec_u64(b@, pos as int) is None,
        },
{
    if b.len() < 8 || pos > b.len() - 8 {
        return None;
    }
    let v = ((b[pos] as u64) << 56) | ((b[pos + 1] as u64) << 48) | ((b[pos + 2] as u64) << 40) | ((
    b[pos + 3] as u64) << 32) | ((b[pos + 4] as u64) << 24) | ((b[pos + 5] as u64) << 16) | ((b[pos
        + 6] as u64) << 8) | (b[pos + 7] as u64);
    Some((v, pos + 8))
}

/// A byte holding zero or one; anything else is rejected when read back.
pub open spec fn enc_bool(v: bool) -> Seq<u8> {
    seq![if v { 1u8 } else { 0u8 }]
}

pub open spec fn dec_bool(b: Seq<u8>, pos: int) -> Option<(bool, int)> {
    if 0 <= pos && pos + 1 <= b.len() {
        if b[pos] == 0u8 {
            Some((false, pos + 1))
        } else if b[pos] == 1u8 {
            Some((true, pos + 1))
        } else {
            None
        }
    } else {
        None
    }
}

pub proof fn lemma_bool_round(v: bool, b: Seq<u8>, pos: int)
    requires
        0 <= pos,
        pos + 1 <= b.len(),
        b.subrange(pos, pos + 1) == enc_bool(v),
    ensures
        dec_bool(b, pos) == Some((v, pos + 1)),
{
    assert(b[pos] == enc_bool(v)[0]) by {
        assert(b.subrange(pos, pos + 1)[0] == b[pos]);
    }
}

pub fn encode_bool(v: bool, out: &mut Vec<u8>)
    ensures
        final(out)@ == old(out)@ + enc_bool(v),
{
    let ghost o0 = out@;
    out.push(if v { 1u8 } else { 0u8 });
    proof {
        assert(out@ =~= o0 + enc_bool(v));
    }
}

pub fn decode_bool(b: &Vec<u8>, pos: usize) -> (r: Option<(bool, usize)>)
    ensures
        match r {
            Some((v, p)) => dec_bool(b@, pos as int) == Some((v, p as int)),
            None => dec_bool(b@, pos as int) is None,
        },
{
    if pos >= b.len() {
        return None;
    }
    if b[pos] == 0 {
        Some((false, pos + 1))
    } else if b[pos] == 1 {
        Some((true, pos + 1))
    } else {
        None
    }
}

/// A signed count: one byte of sign, then the magnitude.
pub open spec fn enc_i64(v: i64) -> Seq<u8> {
    if v >= 0 {
        seq![1u8] + enc_u64(v as u64)
    } else {
        seq![0u8] + enc_u64((0 - v as int) as u64)
    }
}

pub open spec fn dec_i64(b: Seq<u8>, pos: int) -> Option<(i64, int)> {
    if 0 <= pos && pos + 1 <= b.len() {
        match dec_u64(b, pos + 1) {
            Some((mag, p)) => if b[pos] == 1u8 {
                if mag <= i64::MAX as u64 {
                    Some((mag as i64, p))
                } else {
                    None
                }
            } else if b[pos] == 0u8 {
                if mag <= 0x8000_0000_0000_0000u64 {
                    Some(((0 - mag as int) as i64, p))
                } else {
                    None
                }
            } else {
                None
            },
            None => None,
        }
    } else {
        None
    }
}

pub proof fn lemma_i64_round(v: i64, b: Seq<u8>, pos: int)
    requires
        0 <= pos,
        pos + 9 <= b.len(),
        b.subrange(pos, pos + 9) == enc_i64(v),
    ensures
        dec_i64(b, pos) == Some((v, pos + 9)),
{
    let e = enc_i64(v);
    assert(b[pos] == e[0]) by {
        assert(b.subrange(pos, pos + 9)[0] == b[pos]);
    }
    let ghost mag: u64 = if v >= 0 {
        v as u64
    } else {
        (0 - v as int) as u64
    };
    assert(b.subrange(pos + 1, pos + 9) =~= enc_u64(mag)) by {
        assert forall|j: int| 0 <= j < 8 implies b.subrange(pos + 1, pos + 9)[j] == enc_u64(mag)[j]
            by {
            assert(b.subrange(pos, pos + 9)[j + 1] == b[pos + 1 + j]);
        }
    }
    lemma_u64_round(mag, b, pos + 1);
}

pub fn encode_i64(v: i64, out: &mut Vec<u8>)
    ensures
        final(out)@ == old(out)@ + enc_i64(v),
{
    let ghost o0 = out@;
    if v >= 0 {
        out.push(1u8);
        encode_u64(v as u64, out);
    } else {
        out.push(0u8);
        let mag = (-(v as i128)) as u64;
        proof {
            assert(mag == (0 - v as int) as u64);
        }
        encode_u64(mag, out);
    }
    proof {
        assert(out@ =~= o0 + enc_i64(v));
    }
}

pub fn decode_i64(b: &Vec<u8>, pos: usize) -> (r: Option<(i64, usize)>)
    ensures
        match r {
            Some((v, p)) => dec_i64(b@, pos as int) == Some((v, p as int)),
            None => dec_i64(b@, pos as int) is None,
        },
{
    if pos >= b.len() {
        return None;
    }
    let tag = b[pos];
    match decode_u64(b, pos + 1) {
        Some((mag, p)) => {
            if tag == 1 {
                if mag <= i64::MAX as u64 {
                    Some((mag as i64, p))
                } else {
                    None
                }
            } else if tag == 0 {
                if mag <= 0x8000_0000_0000_0000u64 {
                    let v = (-(mag as i128)) as i64;
                    proof {
                        assert(v as int == 0 - mag as int);
                    }
                    Some((v, p))
                } else {
                    None
                }
            } else {
                None
            }
        },
        None => None,
    }
}

/// Whether a string fits the encoding: its UTF-8 form must be countable by
/// the eight-byte length prefix. Every string a program actually holds is.
pub open spec fn str_encodable(s: Seq<char>) -> bool {
    encode_utf8(s).len() <= u64::MAX
}

/// A string: the byte length of its UTF-8 form, then those bytes.
pub open spec fn enc_str(s: Seq<char>) -> Seq<u8> {
    enc_u64(encode_utf8(s).len() as u64) + encode_utf8(s)
}

pub open spec fn dec_str(b: Seq<u8>, pos: int) -> Option<(Seq<char>, int)> {
    match dec_u64(b, pos) {
        Some((len, p)) => if p + len <= b.len() {
            let bytes = b.subrange(p, p + len);
            if valid_utf8(bytes) {
                Some((decode_utf8(bytes), p + len))
            } else {
                None
            }
        } else {
            None
        },
        None => None,
    }
}

pub proof fn lemma_str_round(s: Seq<char>, b: Seq<u8>, pos: int)
    requires
        str_encodable(s),
        0 <= pos,
        pos + enc_str(s).len() <= b.len(),
        b.subrange(pos, pos + enc_str(s).len()) == enc_str(s),
    ensures
        dec_str(b, pos) == Some((s, pos + enc_str(s).len())),
        encode_utf8(s).len() <= enc_str(s).len(),
{
    let u = encode_utf8(s);
    let n = u.len() as int;
    assert(enc_str(s).len() == 8 + n);
    assert(b.subrange(pos, pos + 8) =~= enc_u64(u.len() as u64)) by {
        assert forall|j: int| 0 <= j < 8 implies #[trigger] b.subrange(pos, pos + 8)[j] == enc_u64(
            u.len() as u64,
        )[j] by {
            assert(b.subrange(pos, pos + 8 + n)[j] == b[pos + j]);
        }
    }
    lemma_u64_round(u.len() as u64, b, pos);
    assert(b.subrange(pos + 8, pos + 8 + n) =~= u) by {
        assert forall|j: int| 0 <= j < n implies b.subrange(pos + 8, pos + 8 + n)[j] == u[j] by {
            assert(b.subrange(pos, pos + 8 + n)[8 + j] == b[pos + 8 + j]);
            assert(enc_str(s)[8 + j] == u[j]);
        }
    }
    vstd::utf8::encode_utf8_valid_utf8(s);
    vstd::utf8::encode_utf8_decode_utf8(s);
}

/// Relies on String::from_utf8: it succeeds exactly on well-formed UTF-8 and
/// returns the string those bytes spell.
#[verifier::external_body]
fn string_from_utf8(bytes: Vec<u8>) -> (r: Option<String>)
    ensures
        match r {
            Some(s) => valid_utf8(bytes@) && s@ == decode_utf8(bytes@),
            None => !valid_utf8(bytes@),
        },
{
    String::from_utf8(bytes).ok()
}

pub fn encode_str(s: &str, out: &mut Vec<u8>)
    ensures
        final(out)@ == old(out)@ + enc_str(s@),
        str_encodable(s@),
{
    let ghost o0 = out@;
    let bytes = s.as_bytes_vec();
    encode_u64(bytes.len() as u64, out);
    let n = bytes.len();
    for i in 0..n
        invariant
            n == bytes@.len(),
            bytes@ == encode_utf8(s@),
            out@ == o0 + enc_u64(bytes@.len() as u64) + bytes@.take(i as int),
    {
        out.push(bytes[i]);
        proof {
            assert(out@ =~= o0 + enc_u64(bytes@.len() as u64) + bytes@.take(i + 1));
        }
    }
    proof {
        assert(bytes@.take(n as int) =~= bytes@);
        assert(out@ =~= o0 + enc_str(s@));
    }
}

pub fn decode_str(b: &Vec<u8>, pos: usize) -> (r: Option<(String, usize)>)
    ensures
        match r {
            Some((s, p)) => dec_str(b@, pos as int) == Some((s@, p as int)),
            None => dec_str(b@, pos as int) is None,
        },
{
    match decode_u64(b, pos) {
        Some((len, p)) => {
            let blen = b.len();
            if len > blen as u64 {
                return None;
            }
            let len = len as usize;
            if p > blen - len {
                return None;
            }
            let mut bytes: Vec<u8> = Vec::new();
            for i in 0..len
                invariant
                    len as int + p as int <= b@.len(),
                    b@.len() <= usize::MAX,
                    bytes@ == b@.subrange(p as int, p as int + i as int),
            {
                bytes.push(b[p + i]);
                proof {
                    assert(bytes@ =~= b@.subrange(p as int, p as int + i + 1));
                }
            }
            match string_from_utf8(bytes) {
                Some(s) => Some((s, p + len)),
                None => None,
            }
        },
        None => None,
    }
}

pub open spec fn opt_str_encodable(s: Option<Seq<char>>) -> bool {
    match s {
        Some(v) => str_encodable(v),
        None => true,
    }
}

/// An optional string: a presence byte, then the string if present.
pub open spec fn enc_opt_str(s: Option<Seq<char>>) -> Seq<u8> {
    match s {
        Some(v) => enc_bool(true) + enc_str(v),
        None => enc_bool(false),
    }
}

pub open spec fn dec_opt_str(b: Seq<u8>, pos: int) -> Option<(Option<Seq<char>>, int)> {
    match dec_bool(b, pos) {
        Some((present, p)) => if present {
            match dec_str(b, p) {
                Some((s, p2)) => Some((Some(s), p2)),
                None => None,
            }
        } else {
            Some((None, p))
        },
        None => None,
    }
}

pub proof fn lemma_opt_str_round(s: Option<Seq<char>>, b: Seq<u8>, pos: int)
    requires
        match s {
            Some(v) => str_encodable(v),
            None => true,
        },
        0 <= pos,
        pos + enc_opt_str(s).len() <= b.len(),
        b.subrange(pos, pos + enc_opt_str(s).len()) == enc_opt_str(s),
    ensures
        dec_opt_str(b, pos) == Some((s, pos + enc_opt_str(s).len())),
{
    let e = enc_opt_str(s);
    match s {
        Some(v) => {
            assert(b.subrange(pos, pos + 1) =~= enc_bool(true)) by {
                assert(b.subrange(pos, pos + e.len() as int)[0] == b[pos]);
            }
            lemma_bool_round(true, b, pos);
            assert(b.subrange(pos + 1, pos + 1 + enc_str(v).len()) =~= enc_str(v)) by {
                assert forall|j: int| 0 <= j < enc_str(v).len() implies b.subrange(
                    pos + 1,
                    pos + 1 + enc_str(v).len(),
                )[j] == enc_str(v)[j] by {
                    assert(b.subrange(pos, pos + e.len() as int)[j + 1] == b[pos + 1 + j]);
                }
            }
            lemma_str_round(v, b, pos + 1);
        },
        None => {
            lemma_bool_round(false, b, pos);
        },
    }
}

pub fn encode_opt_str(s: &Option<String>, out: &mut Vec<u8>)
    ensures
        final(out)@ == old(out)@ + enc_opt_str(s.deep_view()),
        opt_str_encodable(s.deep_view()),
{
    let ghost o0 = out@;
    match s {
        Some(v) => {
            encode_bool(true, out);
            encode_str(v.as_str(), out);
            proof {
                assert(out@ =~= o0 + enc_opt_str(s.deep_view()));
            }
        },
        None => {
            encode_bool(false, out);
            proof {
                assert(out@ =~= o0 + enc_opt_str(s.deep_view()));
            }
        },
    }
}

pub fn decode_opt_str(b: &Vec<u8>, pos: usize) -> (r: Option<(Option<String>, usize)>)
    ensures
        match r {
            Some((s, p)) => dec_opt_str(b@, pos as int) == Some((s.deep_view(), p as int)),
            None => dec_opt_str(b@, pos as int) is None,
        },
{
    match decode_bool(b, pos) {
        Some((present, p)) => {
            if present {
                match decode_str(b, p) {
                    Some((s, p2)) => Some((Some(s), p2)),
                    None => None,
                }
            } else {
                Some((None, p))
            }
        },
        None => None,
    }
}

/// A list of strings: the count, then each string in order.
pub open spec fn enc_str_seq(s: Seq<Seq<char>>) -> Seq<u8>
    decreases s.len(),
{
    if s.len() == 0 {
        Seq::empty()
    } else {
        enc_str(s[0]) + enc_str_seq(s.drop_first())
    }
}

pub open spec fn enc_str_list(s: Seq<Seq<char>>) -> Seq<u8> {
    enc_u64(s.len() as u64) + enc_str_seq(s)
}

/// Whether a list of strings fits the encoding.
pub open spec fn str_list_encodable(s: Seq<Seq<char>>) -> bool {
    s.len() <= u64::MAX && (forall|i: int| 0 <= i < s.len() ==> str_encodable(#[trigger] s[i]))
}

pub open spec fn dec_str_seq(b: Seq<u8>, pos: int, count: nat) -> Option<(Seq<Seq<char>>, int)>
    decreases count,
{
    if count == 0 {
        Some((Seq::empty(), pos))
    } else {
        match dec_str(b, pos) {
            Some((s, p)) => match dec_str_seq(b, p, (count - 1) as nat) {
                Some((rest, p2)) => Some((seq![s] + rest, p2)),
                None => None,
            },
            None => None,
        }
    }
}

pub open spec fn dec_str_list(b: Seq<u8>, pos: int) -> Option<(Seq<Seq<char>>, int)> {
    match dec_u64(b, pos) {
        Some((n, p)) => dec_str_seq(b, p, n as nat),
        None => None,
    }
}

pub proof fn lemma_enc_str_seq_push(s: Seq<Seq<char>>, x: Seq<char>)
    ensures
        enc_str_seq(s.push(x)) == enc_str_seq(s) + enc_str(x),
    decreases s.len(),
{
    if s.len() == 0 {
        assert(s.push(x).drop_first() =~= Seq::<Seq<char>>::empty());
        assert(s.push(x)[0] == x);
        assert(enc_str_seq(Seq::<Seq<char>>::empty()) =~= Seq::<u8>::empty());
        assert(enc_str_seq(s.push(x)) =~= enc_str_seq(s) + enc_str(x));
    } else {
        lemma_enc_str_seq_push(s.drop_first(), x);
        assert(s.push(x).drop_first() =~= s.drop_first().push(x));
        assert(s.push(x)[0] == s[0]);
        assert(enc_str_seq(s.push(x)) =~= enc_str_seq(s) + enc_str(x));
    }
}

/// Splits a byte range known to hold two encodings laid end to end.
pub proof fn lemma_split2(b: Seq<u8>, pos: int, e1: Seq<u8>, e2: Seq<u8>)
    requires
        0 <= pos,
        pos + e1.len() + e2.len() <= b.len(),
        b.subrange(pos, pos + e1.len() + e2.len()) == e1 + e2,
    ensures
        b.subrange(pos, pos + e1.len()) == e1,
        b.subrange(pos + e1.len(), pos + e1.len() + e2.len()) == e2,
{
    let n1 = e1.len() as int;
    let n2 = e2.len() as int;
    assert forall|j: int| 0 <= j < n1 implies #[trigger] b.subrange(pos, pos + n1)[j] == e1[j] by {
        assert(b.subrange(pos, pos + n1 + n2)[j] == b[pos + j]);
        assert((e1 + e2)[j] == e1[j]);
    }
    assert(b.subrange(pos, pos + n1) =~= e1);
    assert forall|j: int| 0 <= j < n2 implies #[trigger] b.subrange(pos + n1, pos + n1 + n2)[j]
        == e2[j] by {
        assert(b.subrange(pos, pos + n1 + n2)[n1 + j] == b[pos + n1 + j]);
        assert((e1 + e2)[n1 + j] == e2[j]);
    }
    assert(b.subrange(pos + n1, pos + n1 + n2) =~= e2);
}

pub proof fn lemma_str_seq_round(s: Seq<Seq<char>>, b: Seq<u8>, pos: int)
    requires
        str_list_encodable(s),
        0 <= pos,
        pos + enc_str_seq(s).len() <= b.len(),
        b.subrange(pos, pos + enc_str_seq(s).len()) == enc_str_seq(s),
    ensures
        dec_str_seq(b, pos, s.len() as nat) == Some((s, pos + enc_str_seq(s).len())),
    decreases s.len(),
{
    if s.len() == 0 {
    } else {
        let e1 = enc_str(s[0]);
        let e2 = enc_str_seq(s.drop_first());
        lemma_split2(b, pos, e1, e2);
        lemma_str_round(s[0], b, pos);
        assert(str_list_encodable(s.drop_first())) by {
            assert(forall|i: int|
                0 <= i < s.drop_first().len() ==> #[trigger] s.drop_first()[i] == s[i + 1]);
        }
        lemma_str_seq_round(s.drop_first(), b, pos + e1.len());
        assert(seq![s[0]] + s.drop_first() =~= s);
    }
}

pub proof fn lemma_str_list_round(s: Seq<Seq<char>>, b: Seq<u8>, pos: int)
    requires
        str_list_encodable(s),
        0 <= pos,
        pos + enc_str_list(s).len() <= b.len(),
        b.subrange(pos, pos + enc_str_list(s).len()) == enc_str_list(s),
    ensures
        dec_str_list(b, pos) == Some((s, pos + enc_str_list(s).len())),
{
    lemma_split2(b, pos, enc_u64(s.len() as u64), enc_str_seq(s));
    lemma_u64_round(s.len() as u64, b, pos);
    lemma_str_seq_round(s, b, pos + 8);
}

pub fn encode_string_vec(v: &Vec<String>, out: &mut Vec<u8>)
    ensures
        final(out)@ == old(out)@ + enc_str_list(v.deep_view()),
        str_list_encodable(v.deep_view()),
{
    let ghost o0 = out@;
    let n = v.len();
    encode_u64(n as u64, out);
    for i in 0..n
        invariant
            n == v@.len(),
            out@ == o0 + enc_u64(n as u64) + enc_str_seq(v.deep_view().take(i as int)),
            forall|j: int| 0 <= j < i ==> str_encodable(#[trigger] v.deep_view()[j]),
    {
        encode_str(v[i].as_str(), out);
        proof {
            lemma_enc_str_seq_push(v.deep_view().take(i as int), v.deep_view()[i as int]);
            assert(v.deep_view().take(i as int).push(v.deep_view()[i as int]) =~= v.deep_view()
                .take(i + 1));
            assert(out@ =~= o0 + enc_u64(n as u64) + enc_str_seq(v.deep_view().take(i + 1)));
        }
    }
    proof {
        assert(v.deep_view().take(n as int) =~= v.deep_view());
        assert(out@ =~= o0 + enc_str_list(v.deep_view()));
    }
}

pub fn decode_string_vec(b: &Vec<u8>, pos: usize) -> (r: Option<(Vec<String>, usize)>)
    ensures
        match r {
            Some((v, p)) => dec_str_list(b@, pos as int) == Some((v.deep_view(), p as int)),
            None => dec_str_list(b@, pos as int) is None,
        },
{
    let (n, start) = match decode_u64(b, pos) {
        Some(x) => x,
        None => {
            return None;
        },
    };
    let mut acc: Vec<String> = Vec::new();
    let mut p = start;
    let mut i: u64 = 0;
    while i < n
        invariant
            i <= n,
            dec_u64(b@, pos as int) == Some((n, start as int)),
            match dec_str_seq(b@, p as int, (n - i) as nat) {
                Some((rest, e)) => dec_str_seq(b@, start as int, n as nat) == Some(
                    (acc.deep_view() + rest, e),
                ),
                None => dec_str_seq(b@, start as int, n as nat) is None,
            },
        decreases n - i,
    {
        let ghost acc0 = acc.deep_view();
        match decode_str(b, p) {
            Some((s, p2)) => {
                acc.push(s);
                proof {
                    assert(acc.deep_view() =~= acc0.push(s@));
                    if dec_str_seq(b@, p2 as int, (n - i - 1) as nat) is Some {
                        let (rest2, e2) = dec_str_seq(b@, p2 as int, (n - i - 1) as nat)->Some_0;
                        assert(acc0 + (seq![s@] + rest2) =~= acc0.push(s@) + rest2);
                    }
                }
                p = p2;
            },
            None => {
                return None;
            },
        }
        i = i + 1;
    }
    proof {
        assert(acc.deep_view() + Seq::<Seq<char>>::empty() =~= acc.deep_view());
    }
    Some((acc, p))
}

} // verus!
