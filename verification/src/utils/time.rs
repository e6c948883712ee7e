//! Timestamp helpers: differences, interval alignment and UTC formatting.

use vstd::prelude::*;
use chrono::{TimeZone, Utc};

verus! {

/// Quotient of `a` by `b` rounded toward zero, the way Rust's integer `/` rounds.
pub open spec fn trunc_div(a: int, b: int) -> int {
    if a >= 0 {
        if b > 0 { a / b } else { -(a / (-b)) }
    } else {
        if b > 0 { -((-a) / b) } else { (-a) / (-b) }
    }
}

/// The smallest Unix timestamp (seconds) that chrono turns into a UTC date-time.
pub open spec fn min_utc_timestamp() -> int {
    -8334601228800
}

/// The largest Unix timestamp (seconds) that chrono turns into a UTC date-time.
pub open spec fn max_utc_timestamp() -> int {
    8210266876799
}

/// Whether chrono represents the UTC date-time `ts` seconds after the epoch.
pub open spec fn representable_utc(ts: int) -> bool {
    min_utc_timestamp() <= ts <= max_utc_timestamp()
}

/// The text chrono's `format` produces for the UTC date-time at `ts` seconds with `pattern`.
pub uninterp spec fn utc_text(ts: int, pattern: Seq<char>) -> Seq<char>;

/// The pattern that `format_timestamp` renders with.
pub open spec fn timestamp_pattern() -> Seq<char> {
    "%Y-%m-%d %H:%M:%S UTC"@
}

/// Seconds between two timestamps, `|end - start|` as an `i64` (wrapping past `i64::MAX`).
pub fn time_diff_seconds(start: i64, end: i64) -> (r: i64)
    ensures
        ({
            let d = if end >= start { end - start } else { start - end };
            if d <= i64::MAX { r == d } else { r == d - 0x1_0000_0000_0000_0000 }
        }),
{
    let d: i128 = if end >= start {
        end as i128 - start as i128
    } else {
        start as i128 - end as i128
    };
    if d <= i64::MAX as i128 {
        d as i64
    } else {
        (d - 0x1_0000_0000_0000_0000i128) as i64
    }
}

/// The magnitude of an interval.
pub open spec fn interval_size(interval_seconds: int) -> int {
    if interval_seconds < 0 { -interval_seconds } else { interval_seconds }
}

/// The largest multiple of `interval_seconds` that is at most `timestamp`
/// (Euclidean division: the remainder is never negative).
pub open spec fn aligned_down(timestamp: int, interval_seconds: int) -> int {
    (timestamp / interval_seconds) * interval_seconds
}

/// The smallest multiple of `interval_seconds` that is at least `timestamp`.
pub open spec fn aligned_up(timestamp: int, interval_seconds: int) -> int {
    -aligned_down(-timestamp, interval_seconds)
}

/// A multiple of a nonzero `d` leaves remainder 0, whatever the signs.
proof fn lemma_multiple_mod(q: int, d: int)
    requires
        d != 0,
    ensures
        (q * d) % d == 0,
{
    if d > 0 {
        vstd::arithmetic::div_mod::lemma_mod_multiples_basic(q, d);
    } else {
        assert((q * d) % d == 0) by (nonlinear_arith)
            requires
                d < 0,
        ;
    }
}

/// `aligned_down` is a multiple of the interval, at most `x` and within one interval of it.
proof fn lemma_aligned_down(x: int, d: int)
    requires
        d != 0,
    ensures
        aligned_down(x, d) == x - x % d,
        0 <= x % d < interval_size(d),
        aligned_down(x, d) <= x < aligned_down(x, d) + interval_size(d),
        aligned_down(x, d) % d == 0,
{
    vstd::arithmetic::div_mod::lemma_fundamental_div_mod(x, d);
    assert(d * (x / d) == (x / d) * d) by (nonlinear_arith);
    lemma_multiple_mod(x / d, d);
}

/// Euclidean remainder of `a` by `b`, `0 <= r < |b|`, computed without overflow.
fn euclid_rem(a: i128, b: i64) -> (r: i128)
    requires
        b != 0,
        a > i128::MIN,
    ensures
        r == (a as int) % (b as int),
        0 <= r < interval_size(b as int),
{
    proof {
        lemma_aligned_down(a as int, b as int);
    }
    match a.checked_rem_euclid(b as i128) {
        Some(r) => r,
        None => 0,
    }
}

/// Aligns `timestamp` down to a multiple of `interval_seconds`: the largest multiple
/// that is at most `timestamp`, for timestamps before the epoch too.
pub fn floor_to_interval(timestamp: i64, interval_seconds: i64) -> (r: i64)
    requires
        interval_seconds != 0,
        !(timestamp == i64::MIN && interval_seconds == -1),
        aligned_down(timestamp as int, interval_seconds as int) >= i64::MIN,
    ensures
        r == aligned_down(timestamp as int, interval_seconds as int),
        r <= timestamp < r + interval_size(interval_seconds as int),
        (r as int) % (interval_seconds as int) == 0,
{
    proof {
        lemma_aligned_down(timestamp as int, interval_seconds as int);
    }
    let rem = euclid_rem(timestamp as i128, interval_seconds);
    (timestamp as i128 - rem) as i64
}

/// Aligns `timestamp` up to a multiple of `interval_seconds`: the smallest multiple
/// that is at least `timestamp`, for timestamps before the epoch too.
pub fn ceil_to_interval(timestamp: i64, interval_seconds: i64) -> (r: i64)
    requires
        interval_seconds != 0,
        i64::MIN <= timestamp + interval_seconds <= i64::MAX,
        i64::MIN <= timestamp + interval_seconds - 1 <= i64::MAX,
        !(timestamp + interval_seconds - 1 == i64::MIN && interval_seconds == -1),
        aligned_up(timestamp as int, interval_seconds as int) <= i64::MAX,
    ensures
        r == aligned_up(timestamp as int, interval_seconds as int),
        r - interval_size(interval_seconds as int) < timestamp <= r,
        (r as int) % (interval_seconds as int) == 0,
        interval_seconds > 0 ==> r == aligned_down(timestamp + interval_seconds - 1, interval_seconds as int),
{
    proof {
        let x = -(timestamp as int);
        let d = interval_seconds as int;
        lemma_aligned_down(x, d);
        let q = x / d;
        assert((-q) * d == -(q * d)) by (nonlinear_arith);
        lemma_multiple_mod(-q, d);
        if d > 0 {
            let y = timestamp + d - 1;
            lemma_aligned_down(y, d);
            let r = -(q * d);
            // both are the one multiple of d in (timestamp - 1, timestamp + d - 1]
            assert(r == y - y % d) by {
                let e = (y - y % d) - r;
                assert(-d < e < d);
                let qy = y / d;
                assert(y - y % d == qy * d);
                assert(e == (qy + q) * d) by (nonlinear_arith)
                    requires
                        y - y % d == qy * d,
                        r == -(q * d),
                        e == (y - y % d) - r,
                ;
                assert(qy + q == 0) by (nonlinear_arith)
                    requires
                        e == (qy + q) * d,
                        -d < e < d,
                        d > 0,
                ;
            }
        }
    }
    let rem = euclid_rem(-(timestamp as i128), interval_seconds);
    (timestamp as i128 + rem) as i64
}

/// chrono: `Utc.timestamp_opt(ts, 0)` then `format(pattern)` rendered with `to_string`.
/// Trusted: chrono yields a single UTC date-time for every `ts` in its range (so the
/// `unwrap` cannot fail there), the pattern is one chrono renders without error, and
/// the text is whatever chrono renders, named `utc_text`.
#[verifier::external_body]
fn chrono_utc_text(ts: i64, pattern: &str) -> (r: String)
    requires
        representable_utc(ts as int),
        pattern@ == timestamp_pattern(),
    ensures
        r@ == utc_text(ts as int, pattern@),
{
    Utc.timestamp_opt(ts, 0).unwrap().format(pattern).to_string()
}

/// Formats a Unix timestamp as `YYYY-MM-DD HH:MM:SS UTC`.
pub fn format_timestamp(ts: i64) -> (r: String)
    requires
        representable_utc(ts as int),
    ensures
        r@ == utc_text(ts as int, timestamp_pattern()),
{
    let pattern = "%Y-%m-%d %H:%M:%S UTC";
    proof {
        reveal_strlit("%Y-%m-%d %H:%M:%S UTC");
    }
    chrono_utc_text(ts, pattern)
}

} // verus!
