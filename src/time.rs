//! Timestamps: epoch milliseconds and ISO-8601 text, both as seconds since
//! 1970-01-01T00:00:00Z.
use vstd::prelude::*;
use crate::text::{all_digits, digits_value, is_digit, digit_run_end};

verus! {

/// Whole seconds in `ms` milliseconds, rounded toward zero as integer
/// division does.
pub open spec fn millis_to_secs(ms: int) -> int {
    if ms >= 0 {
        ms / 1000
    } else {
        -((-ms) / 1000)
    }
}

/// Seconds in `ms` milliseconds, rounded toward zero.
pub fn secs_of_millis(ms: i64) -> (r: i64)
    ensures
        r == millis_to_secs(ms as int),
{
    if ms >= 0 {
        ms / 1000
    } else {
        let m: i128 = -(ms as i128);
        let q: i128 = m / 1000;
        (-q) as i64
    }
}

pub open spec fn is_leap(y: int) -> bool {
    (y % 4 == 0 && y % 100 != 0) || y % 400 == 0
}

pub open spec fn year_length(y: int) -> int {
    if is_leap(y) {
        366
    } else {
        365
    }
}

pub open spec fn month_length(y: int, m: int) -> int {
    if m == 2 {
        if is_leap(y) {
            29
        } else {
            28
        }
    } else if m == 4 || m == 6 || m == 9 || m == 11 {
        30
    } else {
        31
    }
}

/// Days from the first of January of year 0 to the first of January of `y`.
pub open spec fn days_before_year(y: int) -> int
    decreases y,
{
    if y <= 0 {
        0
    } else {
        days_before_year(y - 1) + year_length(y - 1)
    }
}

/// Days from the first of January of `y` to the first of month `m`.
pub open spec fn days_before_month(y: int, m: int) -> int
    decreases m,
{
    if m <= 1 {
        0
    } else {
        days_before_month(y, m - 1) + month_length(y, m - 1)
    }
}

/// Days from 1970-01-01 to the given date of the proleptic Gregorian calendar.
pub open spec fn epoch_days(y: int, m: int, d: int) -> int {
    days_before_year(y) - days_before_year(1970) + days_before_month(y, m) + d - 1
}

/// The number written by the `k` characters of `s` at `i`, when all are digits.
pub open spec fn field_at(s: Seq<char>, i: int, k: int) -> Option<int> {
    if 0 <= i && i + k <= s.len() && all_digits(s.subrange(i, i + k)) {
        Some(digits_value(s.subrange(i, i + k)))
    } else {
        None
    }
}

/// The zone offset in seconds that `s` writes from `p` to its end: `Z`, or
/// a sign followed by `HH:MM`.
pub open spec fn zone_offset(s: Seq<char>, p: int) -> Option<int> {
    if p + 1 == s.len() && (s[p] == 'Z' || s[p] == 'z') {
        Some(0)
    } else if p + 6 == s.len() && (s[p] == '+' || s[p] == '-') && s[p + 3] == ':' {
        match (field_at(s, p + 1, 2), field_at(s, p + 4, 2)) {
            (Some(h), Some(mi)) => if h <= 23 && mi <= 59 {
                Some(
                    if s[p] == '-' {
                        -(h * 3600 + mi * 60)
                    } else {
                        h * 3600 + mi * 60
                    },
                )
            } else {
                None
            },
            _ => None,
        }
    } else {
        None
    }
}

/// The instant that `s` writes as `YYYY-MM-DDTHH:MM:SS`, with optional
/// fractional seconds (dropped) and a zone, in seconds since the epoch.
pub open spec fn iso8601_seconds(s: Seq<char>) -> Option<int> {
    if s.len() < 20 || s[4] != '-' || s[7] != '-' || (s[10] != 'T' && s[10] != 't') || s[13]
        != ':' || s[16] != ':' {
        None
    } else {
        match (
            field_at(s, 0, 4),
            field_at(s, 5, 2),
            field_at(s, 8, 2),
            field_at(s, 11, 2),
            field_at(s, 14, 2),
            field_at(s, 17, 2),
        ) {
            (Some(y), Some(mo), Some(d), Some(h), Some(mi), Some(sec)) => {
                let p = if s[19] == '.' {
                    digit_run_end(s, 20)
                } else {
                    19
                };
                if 1 <= mo <= 12 && 1 <= d <= month_length(y, mo) && h <= 23 && mi <= 59 && sec
                    <= 59 && (s[19] != '.' || p > 20) {
                    match zone_offset(s, p) {
                        Some(off) => Some(
                            epoch_days(y, mo, d) * 86400 + h * 3600 + mi * 60 + sec - off,
                        ),
                        None => None,
                    }
                } else {
                    None
                }
            },
            _ => None,
        }
    }
}

fn read_field(s: &str, n: usize, i: usize, k: usize) -> (r: Option<u64>)
    requires
        n == s@.len(),
        k <= 4,
    ensures
        match r {
            Some(v) => field_at(s@, i as int, k as int) == Some(v as int) && v < 10000,
            None => field_at(s@, i as int, k as int) is None,
        },
{
    if i > n || k > n - i {
        return None;
    }
    let mut v: u64 = 0;
    let mut j: usize = 0;
    while j < k
        invariant
            n == s@.len(),
            i + k <= n,
            k <= 4,
            j <= k,
            all_digits(s@.subrange(i as int, i + j)),
            v as int == digits_value(s@.subrange(i as int, i + j)),
            v < 10000,
            j < 4 ==> v < 1000,
            j < 3 ==> v < 100,
            j < 2 ==> v < 10,
            j < 1 ==> v < 1,
        decreases k - j,
    {
        let c = s.get_char(i + j);
        let ghost pre = s@.subrange(i as int, i + j);
        let ghost next = s@.subrange(i as int, i + j + 1);
        assert(next.drop_last() =~= pre);
        if !('0' <= c && c <= '9') {
            assert(s@.subrange(i as int, i + k)[j as int] == c);
            return None;
        }
        v = v * 10 + (c as u32 - '0' as u32) as u64;
        j = j + 1;
        assert(all_digits(next)) by {
            assert forall|t: int| 0 <= t < next.len() implies is_digit(#[trigger] next[t]) by {
                if t < pre.len() {
                    assert(next[t] == pre[t]);
                }
            }
        }
    }
    Some(v)
}

fn leap(y: u64) -> (r: bool)
    ensures
        r == is_leap(y as int),
{
    (y % 4 == 0 && y % 100 != 0) || y % 400 == 0
}

fn month_len(y: u64, m: u64) -> (r: u64)
    ensures
        r == month_length(y as int, m as int),
{
    if m == 2 {
        if leap(y) {
            29
        } else {
            28
        }
    } else if m == 4 || m == 6 || m == 9 || m == 11 {
        30
    } else {
        31
    }
}

proof fn lemma_days_before_year_bound(y: int)
    requires
        y >= 0,
    ensures
        0 <= days_before_year(y) <= 366 * y,
    decreases y,
{
    if y > 0 {
        lemma_days_before_year_bound(y - 1);
    }
}

proof fn lemma_days_before_month_bound(y: int, m: int)
    requires
        1 <= m <= 13,
    ensures
        0 <= days_before_month(y, m) <= 31 * (m - 1),
    decreases m,
{
    if m > 1 {
        lemma_days_before_month_bound(y, m - 1);
    }
}

fn days_to_year(y: u64) -> (r: u64)
    requires
        y <= 9999,
    ensures
        r == days_before_year(y as int),
{
    let mut total: u64 = 0;
    let mut k: u64 = 0;
    while k < y
        invariant
            k <= y <= 9999,
            total == days_before_year(k as int),
        decreases y - k,
    {
        proof {
            lemma_days_before_year_bound(k as int);
        }
        total = total + if leap(k) {
            366
        } else {
            365
        };
        k = k + 1;
    }
    total
}

fn days_to_month(y: u64, m: u64) -> (r: u64)
    requires
        1 <= m <= 12,
    ensures
        r == days_before_month(y as int, m as int),
{
    let mut total: u64 = 0;
    let mut k: u64 = 1;
    while k < m
        invariant
            1 <= k <= m <= 12,
            total == days_before_month(y as int, k as int),
        decreases m - k,
    {
        proof {
            lemma_days_before_month_bound(y as int, k as int);
        }
        total = total + month_len(y, k);
        k = k + 1;
    }
    total
}

/// Reads an ISO-8601 date and time with a zone, as seconds since the epoch.
pub fn parse_iso8601(s: &str) -> (r: Option<i64>)
    ensures
        match r {
            Some(v) => iso8601_seconds(s@) == Some(v as int),
            None => iso8601_seconds(s@) is None,
        },
{
    let n = s.unicode_len();
    if n < 20 || s.get_char(4) != '-' || s.get_char(7) != '-' || (s.get_char(10) != 'T'
        && s.get_char(10) != 't') || s.get_char(13) != ':' || s.get_char(16) != ':' {
        return None;
    }
    let (y, mo, d, h, mi, sec) = match (
        read_field(s, n, 0, 4),
        read_field(s, n, 5, 2),
        read_field(s, n, 8, 2),
        read_field(s, n, 11, 2),
        read_field(s, n, 14, 2),
        read_field(s, n, 17, 2),
    ) {
        (Some(y), Some(mo), Some(d), Some(h), Some(mi), Some(sec)) => (y, mo, d, h, mi, sec),
        _ => {
            return None;
        },
    };
    let point = s.get_char(19) == '.';
    let p = if point {
        fraction_end(s, n, 20)
    } else {
        19
    };
    if !(1 <= mo && mo <= 12 && 1 <= d && d <= month_len(y, mo) && h <= 23 && mi <= 59 && sec
        <= 59 && (!point || p > 20)) {
        return None;
    }
    let off: i64 = if n - p == 1 && (s.get_char(p) == 'Z' || s.get_char(p) == 'z') {
        0
    } else if n - p == 6 && (s.get_char(p) == '+' || s.get_char(p) == '-') && s.get_char(p + 3)
        == ':' {
        match (read_field(s, n, p + 1, 2), read_field(s, n, p + 4, 2)) {
            (Some(oh), Some(om)) => {
                if oh <= 23 && om <= 59 {
                    let o = (oh * 3600 + om * 60) as i64;
                    if s.get_char(p) == '-' {
                        -o
                    } else {
                        o
                    }
                } else {
                    return None;
                }
            },
            _ => {
                return None;
            },
        }
    } else {
        return None;
    };
    assert(zone_offset(s@, p as int) == Some(off as int));
    proof {
        lemma_days_before_year_bound(y as int);
        lemma_days_before_year_bound(1970);
        lemma_days_before_month_bound(y as int, mo as int);
    }
    let days: i64 = days_to_year(y) as i64 - days_to_year(1970) as i64 + days_to_month(y, mo) as i64
        + d as i64 - 1;
    Some(days * 86400 + (h * 3600 + mi * 60 + sec) as i64 - off)
}

fn fraction_end(s: &str, n: usize, i: usize) -> (r: usize)
    requires
        n == s@.len(),
        i <= n,
    ensures
        r as int == digit_run_end(s@, i as int),
        i <= r <= n,
    decreases n - i,
{
    if i < n {
        let c = s.get_char(i);
        if '0' <= c && c <= '9' {
            return fraction_end(s, n, i + 1);
        }
    }
    i
}

} // verus!
