//! Small shared helpers: stable key hashing, lowercase hex rendering, and the
//! drift-corrected interval driver that paces every poll loop.

use std::collections::hash_map::DefaultHasher;
use std::hash::Hasher;
use vstd::prelude::*;
use vstd::std_specs::hash::DefaultHasherAdditionalSpecFns;
use vstd::string::StringExecFns;
use vstd::string::StringSliceAdditionalSpecFns;
use vstd::utf8::encode_utf8;

verus! {

/// The lowercase hex digit for a value below 16.
pub open spec fn hex_digit(d: nat) -> char {
    if d == 0 {
        '0'
    } else if d == 1 {
        '1'
    } else if d == 2 {
        '2'
    } else if d == 3 {
        '3'
    } else if d == 4 {
        '4'
    } else if d == 5 {
        '5'
    } else if d == 6 {
        '6'
    } else if d == 7 {
        '7'
    } else if d == 8 {
        '8'
    } else if d == 9 {
        '9'
    } else if d == 10 {
        'a'
    } else if d == 11 {
        'b'
    } else if d == 12 {
        'c'
    } else if d == 13 {
        'd'
    } else if d == 14 {
        'e'
    } else {
        'f'
    }
}

/// Lowercase hex rendering of a number, most significant digit first and
/// without leading zeroes (a bare `"0"` for zero).
pub open spec fn hex_lower(u: nat) -> Seq<char>
    decreases u,
{
    if u < 16 {
        seq![hex_digit(u)]
    } else {
        hex_lower(u / 16).push(hex_digit(u % 16))
    }
}

fn hex_digit_str(d: u64) -> (r: &'static str)
    requires
        d < 16,
    ensures
        r@ =~= seq![hex_digit(d as nat)],
{
    proof {
        reveal_strlit("0");
        reveal_strlit("1");
        reveal_strlit("2");
        reveal_strlit("3");
        reveal_strlit("4");
        reveal_strlit("5");
        reveal_strlit("6");
        reveal_strlit("7");
        reveal_strlit("8");
        reveal_strlit("9");
        reveal_strlit("a");
        reveal_strlit("b");
        reveal_strlit("c");
        reveal_strlit("d");
        reveal_strlit("e");
        reveal_strlit("f");
    }
    if d == 0 {
        "0"
    } else if d == 1 {
        "1"
    } else if d == 2 {
        "2"
    } else if d == 3 {
        "3"
    } else if d == 4 {
        "4"
    } else if d == 5 {
        "5"
    } else if d == 6 {
        "6"
    } else if d == 7 {
        "7"
    } else if d == 8 {
        "8"
    } else if d == 9 {
        "9"
    } else if d == 10 {
        "a"
    } else if d == 11 {
        "b"
    } else if d == 12 {
        "c"
    } else if d == 13 {
        "d"
    } else if d == 14 {
        "e"
    } else {
        "f"
    }
}

/// Renders a number in lowercase hex, as the dedup keys do.
pub fn to_hex(u: u64) -> (r: String)
    ensures
        r@ == hex_lower(u as nat),
    decreases u,
{
    if u < 16 {
        let r = hex_digit_str(u).to_owned();
        assert(r@ =~= hex_lower(u as nat));
        r
    } else {
        assert(u / 16 < u);
        let mut r = to_hex(u / 16);
        r.append(hex_digit_str(u % 16));
        assert(r@ =~= hex_lower(u as nat));
        r
    }
}

/// The low byte of a character's code point.
pub open spec fn low_byte(c: char) -> u8 {
    ((c as u32) % 256) as u8
}

pub(crate) fn char_low_byte(c: char) -> (r: u8)
    ensures
        r == low_byte(c),
{
    ((c as u32) % 256) as u8
}

/// The 64-bit hash a string's UTF-8 bytes feed through the standard hasher.
pub open spec fn hash64_of(bytes: Seq<u8>) -> u64 {
    DefaultHasher::spec_finish(seq![bytes])
}

/// What [`get_hash`] returns for a given string.
pub open spec fn hash_string_of(s: Seq<char>) -> Seq<char> {
    hex_lower(hash64_of(encode_utf8(s)) as nat)
}

/// Stable hash of a string, rendered in lowercase hex. Used to derive
/// bounded-length fingerprint keys from feed URLs and entry identifiers;
/// the sole requirement on it is determinism, so that the same item always
/// maps to the same key.
pub fn get_hash(s: &str) -> (r: String)
    ensures
        r@ == hash_string_of(s@),
{
    let mut hasher = DefaultHasher::new();
    hasher.write(s.as_bytes());
    let h = hasher.finish();
    proof {
        assert(Seq::<Seq<u8>>::empty().push(s.spec_bytes()) =~= seq![s.spec_bytes()]);
    }
    to_hex(h)
}

#[verifier::external_type_specification]
#[verifier::external_body]
pub struct ExSystemTime(std::time::SystemTime);

/// Relies on `SystemTime`'s `Add<Duration>`: the wall-clock instant `ts`
/// seconds after the Unix epoch. The addition is documented to panic when
/// the sum is not representable, and the representable range is platform
/// private; the bound keeps the instant before the year 10000, well inside
/// every platform's range.
#[verifier::external_body]
pub fn ts_to_systemtime(ts: u64) -> std::time::SystemTime
    requires
        ts < 253402300800,
{
    std::time::UNIX_EPOCH + std::time::Duration::from_secs(ts)
}

#[verifier::external_type_specification]
#[verifier::external_body]
pub struct ExRfc3339Timestamp(humantime::Rfc3339Timestamp);

/// Relies on humantime's `format_rfc3339` and `SystemTime` addition: a
/// printable RFC 3339 rendering of the instant `ts` seconds after the Unix
/// epoch. The bound keeps the instant inside the platform's time range and
/// before the year 10000, past which the rendering itself fails.
#[verifier::external_body]
pub fn ts_to_humantime(ts: u64) -> humantime::Rfc3339Timestamp
    requires
        ts < 253402300800,
{
    humantime::format_rfc3339(std::time::UNIX_EPOCH + std::time::Duration::from_secs(ts))
}

/// The RFC 3339 rendering of the instant `ts` seconds after the Unix epoch;
/// it depends on the timestamp alone.
pub uninterp spec fn rfc3339_of(ts: u64) -> Seq<char>;

/// Relies on humantime's `format_rfc3339` and its `Display`: the RFC 3339
/// text for the instant `ts` seconds after the Unix epoch. The bound keeps
/// the instant before the year 10000, past which the rendering fails.
#[verifier::external_body]
pub(crate) fn rfc3339_string(ts: u64) -> (r: String)
    requires
        ts < 253402300800,
    ensures
        r@ == rfc3339_of(ts),
{
    humantime::format_rfc3339(std::time::UNIX_EPOCH + std::time::Duration::from_secs(ts))
        .to_string()
}

/// Whether a set of tasks that has just ended ran so briefly that the
/// configuration probably selected none of them.
pub fn shutdown_too_quickly(elapsed_ms: u128) -> (r: bool)
    ensures
        r == (elapsed_ms < 500),
{
    elapsed_ms < 500
}

/// A drift-corrected periodic schedule. The first tick is due immediately;
/// every later tick is due at `base + n * interval`, where `base` is fixed
/// when the first tick fires. A caller that falls behind the grid is given
/// the next grid point still in the future, never a burst of catch-up ticks.
/// Times are absolute milliseconds; the caller supplies the current time and
/// performs the actual waiting.
pub struct Interval {
    interval: u64,
    deadline: Option<u64>,
}

impl Interval {
    /// The period, in milliseconds.
    pub closed spec fn spec_interval(self) -> u64 {
        self.interval
    }

    /// The first scheduled grid point, once the first tick has fired.
    pub closed spec fn spec_deadline(self) -> Option<u64> {
        self.deadline
    }

    #[verifier::type_invariant]
    closed spec fn wf(self) -> bool {
        1 <= self.interval
    }

    /// A fresh schedule with the given period; nothing is scheduled until
    /// the first call to `next_tick`.
    pub fn every(interval: u64) -> (r: Interval)
        requires
            1 <= interval,
        ensures
            r.spec_interval() == interval,
            r.spec_deadline() is None,
    {
        Interval { interval, deadline: None }
    }

    /// How long to wait, from `now`, until the next scheduled tick. The
    /// first call fires immediately and fixes the grid at `now + interval`;
    /// afterwards the wait always ends on the first grid point after `now`
    /// (or on the pending one, if it is still ahead), so repeated sleeps do
    /// not accumulate drift and missed grid points are skipped rather than
    /// replayed.
    pub fn next_tick(&mut self, now: u64) -> (wait: u64)
        requires
            now + old(self).spec_interval() <= u64::MAX,
        ensures
            final(self).spec_interval() == old(self).spec_interval(),
            match old(self).spec_deadline() {
                None => wait == 0 && final(self).spec_deadline() == Some(
                    (now + old(self).spec_interval()) as u64,
                ),
                Some(d) => final(self).spec_deadline() == Some(d) && wait == (if now <= d {
                    (d - now) as u64
                } else {
                    (old(self).spec_interval() - ((now - d) % (
                    old(self).spec_interval() as int))) as u64
                }),
            },
    {
        proof {
            use_type_invariant(&*self);
        }
        match self.deadline {
            None => {
                self.deadline = Some(now + self.interval);
                0
            },
            Some(d) => {
                if now <= d {
                    d - now
                } else {
                    let behind = (now - d) % self.interval;
                    self.interval - behind
                }
            },
        }
    }
}

} // verus!
