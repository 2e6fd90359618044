//! The settings of the service, read from its environment: how long a
//! session lasts and how much audio a track, an account and the whole
//! service may hold.
use vstd::prelude::*;
use crate::text::{all_digits, chars_of, digits_value, parse_unsigned, parse_unsigned_chars};

verus! {

/// `str::parse::<i64>()`: an optional sign, then at least one ASCII digit,
/// within the range of `i64`.
pub open spec fn parse_i64(s: Seq<char>) -> Option<int> {
    if s.len() > 0 && s[0] == '-' {
        let d = s.drop_first();
        if d.len() > 0 && all_digits(d) && digits_value(d) <= 0x8000_0000_0000_0000 {
            Some(-(digits_value(d) as int))
        } else {
            None
        }
    } else {
        match parse_unsigned(s, 0x7fff_ffff_ffff_ffff) {
            Some(n) => Some(n as int),
            None => None,
        }
    }
}

/// `x.clamp(low, high)`.
pub open spec fn clamped(x: int, low: int, high: int) -> int {
    if x < low {
        low
    } else if x > high {
        high
    } else {
        x
    }
}

/// How many days a session lasts: the `SESSION_DAYS` setting when it is an
/// integer, else 90, kept within 1 to 365.
pub open spec fn session_days_of(value: Option<Seq<char>>) -> int {
    let days = match value {
        Some(v) => match parse_i64(v) {
            Some(n) => n,
            None => 90,
        },
        None => 90,
    };
    clamped(days, 1, 365)
}

/// A size setting: its value when it is an unsigned integer, else `default`.
pub open spec fn size_setting(value: Option<Seq<char>>, default: int) -> int {
    match value {
        Some(v) => match parse_unsigned(v, u64::MAX as nat) {
            Some(n) => n as int,
            None => default,
        },
        None => default,
    }
}

/// 1 MiB, 1 GiB and 1 TiB.
pub open spec fn mib() -> int {
    1048576
}

pub open spec fn gib() -> int {
    1073741824
}

pub open spec fn tib() -> int {
    1099511627776
}

/// The size limits of the service.
pub struct ServiceLimits {
    pub max_track_bytes: usize,
    pub max_account_bytes: u64,
    pub max_total_bytes: u64,
}

fn parse_i64_text(value: &str) -> (result: Option<i64>)
    ensures
        match parse_i64(value@) {
            Some(n) => result == Some(n as i64),
            None => result is None,
        },
{
    let v = chars_of(value);
    if v.len() > 0 && v[0] == '-' {
        if v.len() > 1 && v[1] == '+' {
            assert(!all_digits(v@.drop_first())) by {
                assert(v@.drop_first()[0] == '+');
            }
            return None;
        }
        assert(v@.skip(1) =~= v@.drop_first());
        match parse_unsigned_chars(&v, 1, 0x8000_0000_0000_0000) {
            Some(n) => {
                let negated: i128 = 0 - (n as i128);
                Some(negated as i64)
            },
            None => None,
        }
    } else {
        match parse_unsigned_chars(&v, 0, 0x7fff_ffff_ffff_ffff) {
            Some(n) => {
                assert(v@.skip(0) =~= v@);
                Some(n as i64)
            },
            None => {
                assert(v@.skip(0) =~= v@);
                None
            },
        }
    }
}

/// How many days a session lasts, given the `SESSION_DAYS` setting.
pub fn session_days(value: Option<&str>) -> (days: i64)
    ensures
        days == session_days_of(match value {
            Some(v) => Some(v@),
            None => None,
        }),
{
    let days: i64 = match value {
        Some(v) => match parse_i64_text(v) {
            Some(n) => n,
            None => 90,
        },
        None => 90,
    };
    if days < 1 {
        1
    } else if days > 365 {
        365
    } else {
        days
    }
}

/// A size setting: its value when it is an unsigned integer, else `default`.
pub fn env_u64(value: Option<&str>, default: u64) -> (size: u64)
    ensures
        size == size_setting(match value {
            Some(v) => Some(v@),
            None => None,
        }, default as int),
{
    match value {
        Some(v) => {
            let chars = chars_of(v);
            assert(chars@.skip(0) =~= chars@);
            match parse_unsigned_chars(&chars, 0, u64::MAX) {
                Some(n) => n,
                None => default,
            }
        },
        None => default,
    }
}

/// The size limits, given the `MAX_TRACK_BYTES`, `MAX_ACCOUNT_BYTES` and
/// `MAX_TOTAL_BYTES` settings: a track 200 MiB by default, within 1 MiB to
/// 1 GiB; an account 5 GiB, within the track limit to 1 TiB; the service
/// 50 GiB, within the account limit to 1 TiB.
pub fn service_limits(track: Option<&str>, account: Option<&str>, total: Option<&str>) -> (limits: ServiceLimits)
    ensures
        ({
            let t = clamped(size_setting(match track {
                Some(v) => Some(v@),
                None => None,
            }, 209715200), mib(), gib());
            let a = clamped(size_setting(match account {
                Some(v) => Some(v@),
                None => None,
            }, 5368709120), t, tib());
            let s = clamped(size_setting(match total {
                Some(v) => Some(v@),
                None => None,
            }, 53687091200), a, tib());
            &&& limits.max_track_bytes == t
            &&& limits.max_account_bytes == a
            &&& limits.max_total_bytes == s
        }),
{
    let raw_track = env_u64(track, 209715200);
    let max_track: u64 = if raw_track < 1048576 {
        1048576
    } else if raw_track > 1073741824 {
        1073741824
    } else {
        raw_track
    };
    let raw_account = env_u64(account, 5368709120);
    let max_account: u64 = if raw_account < max_track {
        max_track
    } else if raw_account > 1099511627776 {
        1099511627776
    } else {
        raw_account
    };
    let raw_total = env_u64(total, 53687091200);
    let max_total: u64 = if raw_total < max_account {
        max_account
    } else if raw_total > 1099511627776 {
        1099511627776
    } else {
        raw_total
    };
    ServiceLimits { max_track_bytes: max_track as usize, max_account_bytes: max_account, max_total_bytes: max_total }
}

} // verus!
