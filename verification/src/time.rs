//! Points in time: RFC 3339 and RFC 2822 texts and milliseconds since the epoch.
use vstd::prelude::*;

verus! {

/// The moment that an RFC 3339 text denotes, in milliseconds since the epoch; none
/// where the text is not RFC 3339.
pub uninterp spec fn rfc3339_millis_of(s: Seq<char>) -> Option<i64>;

/// Calls `chrono::DateTime::parse_from_rfc3339` and `timestamp_millis`. The moment is a
/// function of the text; with its four-digit year and an offset below a day it stays
/// within the stated bounds.
#[verifier::external_body]
pub(crate) fn rfc3339_millis(s: &str) -> (r: Option<i64>)
    ensures
        r == rfc3339_millis_of(s@),
        r matches Some(ms) ==> -100_000_000_000_000 <= ms <= 300_000_000_000_000,
{
    chrono::DateTime::parse_from_rfc3339(s).ok().map(|t| t.timestamp_millis())
}

/// Whether the span between a moment and any moment that RFC 3339 can write fits into an
/// `i64`, either way.
pub open spec fn spans_fit(ms: i64) -> bool {
    &&& i64::MIN <= ms - 300_000_000_000_000 && 300_000_000_000_000 - ms <= i64::MAX
    &&& i64::MIN <= -100_000_000_000_000 - ms && ms + 100_000_000_000_000 <= i64::MAX
}

/// The moment that an RFC 2822 text denotes, in milliseconds since the epoch.
pub uninterp spec fn rfc2822_millis_of(s: Seq<char>) -> Option<i64>;

/// Calls `chrono::DateTime::parse_from_rfc2822` and `timestamp_millis`. The moment is a
/// function of the text; its year lies within the years that chrono can represent,
/// which keeps it within the stated bounds.
#[verifier::external_body]
pub(crate) fn rfc2822_millis(s: &str) -> (r: Option<i64>)
    ensures
        r == rfc2822_millis_of(s@),
        r matches Some(ms) ==> -9_000_000_000_000_000 <= ms <= 9_000_000_000_000_000,
{
    chrono::DateTime::parse_from_rfc2822(s).ok().map(|t| t.timestamp_millis())
}

/// The RFC 3339 text of a moment given in seconds and nanoseconds since the epoch; none
/// out of the range that chrono can represent.
pub uninterp spec fn rfc3339_of(secs: i64, nanos: u32) -> Option<Seq<char>>;

/// The seconds since the epoch that lie in the years 0 to 9999.
pub open spec fn four_digit_year(secs: int) -> bool {
    -62_167_219_200 <= secs <= 253_402_300_799
}

/// Calls `chrono::DateTime::from_timestamp` and `to_rfc3339`. The text is a function of
/// the seconds and nanoseconds. For whole seconds in the years 0 to 9999 there is one, and
/// it reads back as the same moment.
#[verifier::external_body]
pub(crate) fn rfc3339_text(secs: i64, nanos: u32) -> (r: Option<String>)
    ensures
        match (r, rfc3339_of(secs, nanos)) {
            (Some(t), Some(s)) => t@ == s,
            (None, None) => true,
            _ => false,
        },
        r is Some <== nanos == 0 && four_digit_year(secs as int),
        r matches Some(t) ==> (nanos == 0 && four_digit_year(secs as int) ==> rfc3339_millis_of(t@)
            == Some((secs * 1000) as i64)),
{
    chrono::DateTime::from_timestamp(secs, nanos).map(|t| t.to_rfc3339())
}

/// The hour of day that an RFC 3339 text names, as two digits; none where the text is
/// not RFC 3339.
pub uninterp spec fn rfc3339_hour_of(s: Seq<char>) -> Option<Seq<char>>;

/// Calls `chrono::DateTime::parse_from_rfc3339` and `format` with `%H`. There is an hour
/// exactly where there is a moment; it is written in two digits, from 00 to 23.
#[verifier::external_body]
pub(crate) fn rfc3339_hour(s: &str) -> (r: Option<String>)
    ensures
        match (r, rfc3339_hour_of(s@)) {
            (Some(t), Some(h)) => t@ == h && t@.len() == 2 && '0' <= t@[0] <= '2' && '0' <= t@[1]
                <= '9' && (t@[0] == '2' ==> t@[1] <= '3'),
            (None, None) => true,
            _ => false,
        },
        r is Some <==> rfc3339_millis_of(s@) is Some,
{
    chrono::DateTime::parse_from_rfc3339(s).ok().map(|t| t.format("%H").to_string())
}

/// `a / b` cut off toward zero.
pub open spec fn trunc_div(a: int, b: int) -> int {
    if a >= 0 {
        a / b
    } else {
        -((-a) / b)
    }
}

pub fn div_toward_zero(a: i64, b: i64) -> (r: i64)
    requires
        b > 1,
    ensures
        r == trunc_div(a as int, b as int),
        a >= 0 ==> 0 <= r <= a,
        a < 0 ==> a <= r <= 0,
{
    if a >= 0 {
        let q: u64 = a as u64 / b as u64;
        assert(0 <= a as int / b as int <= a) by (nonlinear_arith)
            requires
                a >= 0,
                b > 1,
        ;
        q as i64
    } else {
        let m: u64 = (-(a as i128)) as u64;
        let q: u64 = m / b as u64;
        assert(0 <= m as int / b as int && 2 * (m as int / b as int) <= m) by (nonlinear_arith)
            requires
                m >= 0,
                b > 1,
        ;
        -(q as i64)
    }
}

/// What `a / b` cut off toward zero leaves over.
pub open spec fn trunc_rem(a: int, b: int) -> int {
    a - b * trunc_div(a, b)
}

pub fn rem_toward_zero(a: i64, b: i64) -> (r: i64)
    requires
        b > 1,
    ensures
        r == trunc_rem(a as int, b as int),
        a >= 0 ==> 0 <= r < b && r <= a,
        a < 0 ==> -b < r <= 0 && a <= r,
{
    let q: i64 = div_toward_zero(a, b);
    if a >= 0 {
        assert(0 <= a - b * (a as int / b as int) < b && a - b * (a as int / b as int) <= a && 0 <= b
            * (a as int / b as int) <= a) by (nonlinear_arith)
            requires
                a >= 0,
                b > 1,
        ;
        a - b * q
    } else {
        let ghost m = -(a as int);
        assert(0 <= m - b * (m / b as int) < b && m - b * (m / b as int) <= m && 0 <= b * (m
            / b as int) <= m) by (nonlinear_arith)
            requires
                m >= 0,
                b > 1,
        ;
        assert(b * (-(m / b as int)) == -(b * (m / b as int))) by (nonlinear_arith);
        a - b * q
    }
}

/// The text of a moment as `2026-01-31 23:59:59 UTC`; none out of the range that chrono
/// can represent.
pub uninterp spec fn utc_text_of(ms: i64) -> Option<Seq<char>>;

/// Calls `chrono::DateTime::from_timestamp_millis` and `format` with date, time and the
/// zone's name. The text is a function of the milliseconds.
#[verifier::external_body]
pub(crate) fn utc_text(ms: i64) -> (r: Option<String>)
    ensures
        match (r, utc_text_of(ms)) {
            (Some(t), Some(s)) => t@ == s,
            (None, None) => true,
            _ => false,
        },
{
    chrono::DateTime::from_timestamp_millis(ms).map(
        |t| t.format("%Y-%m-%d %H:%M:%S UTC").to_string(),
    )
}

} // verus!
