use vstd::prelude::*;

use crate::codec;

verus! {

/// An instant in UTC: whole seconds since the epoch, and nanoseconds within
/// the second. During a leap second the nanosecond field runs on into a
/// second billion, as the clock library represents it.
#[derive(Clone, Copy, Debug, PartialEq, Eq, Structural)]
pub struct Timestamp {
    pub secs: i64,
    pub nanos: u32,
}

impl Timestamp {
    pub open spec fn wf(self) -> bool {
        self.nanos < 2_000_000_000
    }

    /// The instant on one axis, in nanoseconds since the epoch.
    pub open spec fn as_nanos(self) -> int {
        self.secs * 1_000_000_000 + self.nanos
    }
}

/// A span of time: whole seconds and nanoseconds below one second.
#[derive(Clone, Copy, Debug, PartialEq, Eq, Structural)]
pub struct Duration {
    pub secs: u64,
    pub nanos: u32,
}

impl Duration {
    pub open spec fn wf(self) -> bool {
        self.nanos < 1_000_000_000
    }

    pub open spec fn as_nanos(self) -> int {
        self.secs * 1_000_000_000 + self.nanos
    }
}

/// Whether a cache written at `last` has expired by `now` under a lifetime of
/// `ttl`: true exactly when `last + ttl` is at or before `now`.
pub open spec fn spec_expired(last: Timestamp, ttl: Duration, now: Timestamp) -> bool {
    last.as_nanos() + ttl.as_nanos() <= now.as_nanos()
}

/// Decides expiry; the arithmetic cannot overflow its working type.
pub fn expired(last: Timestamp, ttl: Duration, now: Timestamp) -> (r: bool)
    ensures
        r == spec_expired(last, ttl, now),
{
    let last_total: i128 = (last.secs as i128) * 1_000_000_000 + (last.nanos as i128);
    let ttl_total: i128 = (ttl.secs as i128) * 1_000_000_000 + (ttl.nanos as i128);
    let now_total: i128 = (now.secs as i128) * 1_000_000_000 + (now.nanos as i128);
    last_total + ttl_total <= now_total
}

/// Relies on chrono's Utc::now, timestamp and timestamp_subsec_nanos: the
/// current UTC time as seconds since the epoch and nanoseconds within the
/// second, the latter below two billion even during a leap second. On a
/// system clock reading before the epoch the call itself gives up, a
/// condition no contract can see.
#[verifier::external_body]
pub(crate) fn now_utc() -> (r: Timestamp)
    ensures
        r.wf(),
{
    let n = chrono::Utc::now();
    Timestamp { secs: n.timestamp(), nanos: n.timestamp_subsec_nanos() }
}

// The timestamp as persisted: its seconds, then its nanoseconds.
pub open spec fn enc_ts(m: Timestamp) -> Seq<u8> {
    codec::enc_i64(m.secs) + codec::enc_u64(m.nanos as u64)
}

pub open spec fn dec_ts(b: Seq<u8>, pos: int) -> Option<(Timestamp, int)> {
    match codec::dec_i64(b, pos) {
        Some((secs, p1)) => match codec::dec_u64(b, p1) {
            Some((nanos, p2)) => if nanos <= u32::MAX as u64 {
                Some((Timestamp { secs, nanos: nanos as u32 }, p2))
            } else {
                None
            },
            None => None,
        },
        None => None,
    }
}

pub proof fn lemma_ts_round(m: Timestamp, b: Seq<u8>, pos: int)
    requires
        0 <= pos,
        pos + enc_ts(m).len() <= b.len(),
        b.subrange(pos, pos + enc_ts(m).len()) == enc_ts(m),
    ensures
        dec_ts(b, pos) == Some((m, pos + enc_ts(m).len())),
{
    codec::lemma_split2(b, pos, codec::enc_i64(m.secs), codec::enc_u64(m.nanos as u64));
    codec::lemma_i64_round(m.secs, b, pos);
    codec::lemma_u64_round(m.nanos as u64, b, pos + 9);
}

pub fn encode_ts(v: Timestamp, out: &mut Vec<u8>)
    ensures
        final(out)@ == old(out)@ + enc_ts(v),
{
    let ghost o0 = out@;
    codec::encode_i64(v.secs, out);
    codec::encode_u64(v.nanos as u64, out);
    proof {
        assert(out@ =~= o0 + enc_ts(v));
    }
}

pub fn decode_ts(b: &Vec<u8>, pos: usize) -> (r: Option<(Timestamp, usize)>)
    ensures
        match r {
            Some((v, p)) => dec_ts(b@, pos as int) == Some((v, p as int)),
            None => dec_ts(b@, pos as int) is None,
        },
{
    match codec::decode_i64(b, pos) {
        Some((secs, p1)) => match codec::decode_u64(b, p1) {
            Some((nanos, p2)) => {
                if nanos <= u32::MAX as u64 {
                    Some((Timestamp { secs, nanos: nanos as u32 }, p2))
                } else {
                    None
                }
            },
            None => None,
        },
        None => None,
    }
}

} // verus!
