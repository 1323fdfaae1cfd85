use vstd::prelude::*;
use vstd::arithmetic::div_mod::{lemma_fundamental_div_mod, lemma_fundamental_div_mod_converse};

verus! {

/// A point in time: whole seconds since 1970-01-01T00:00:00Z and the
/// nanoseconds past them.
#[derive(Debug, Clone, Copy, PartialEq, Eq, Structural)]
pub struct Instant {
    pub secs: i64,
    pub nanos: u32,
}

pub const NANOS_PER_SEC: i128 = 1000000000;

pub const SECS_PER_DAY: i64 = 86400;

impl Instant {
    /// The instant as nanoseconds since the epoch.
    pub open spec fn total_nanos(self) -> int {
        self.secs * 1000000000 + self.nanos
    }

    pub fn as_nanos(&self) -> (r: i128)
        ensures
            r == self.total_nanos(),
    {
        self.secs as i128 * NANOS_PER_SEC + self.nanos as i128
    }
}

/// `t` lies no more than `hours` hours before `now` (or after it).
pub open spec fn within_hours(t: Instant, now: Instant, hours: int) -> bool {
    t.total_nanos() >= now.total_nanos() - hours * 3600 * 1000000000
}

/// Whether `t` lies no more than `hours` hours before `now`.
pub fn is_within_hours(t: &Instant, now: &Instant, hours: u32) -> (r: bool)
    ensures
        r == within_hours(*t, *now, hours as int),
{
    t.as_nanos() >= now.as_nanos() - hours as i128 * 3600 * NANOS_PER_SEC
}

/// The instant that an RFC 3339 timestamp names, or `None` where the text is
/// no such timestamp.
pub uninterp spec fn rfc3339_of(s: Seq<char>) -> Option<Instant>;

/// Relies on chrono's `DateTime::parse_from_rfc3339`, read back as seconds and
/// nanoseconds since the epoch.
#[verifier::external_body]
pub fn parse_rfc3339(s: &str) -> (r: Option<Instant>)
    ensures
        r == rfc3339_of(s@),
{
    chrono::DateTime::parse_from_rfc3339(s).ok().map(
        |d| Instant { secs: d.timestamp(), nanos: d.timestamp_subsec_nanos() },
    )
}

/// The UTC calendar date, as `YYYY-MM-DD`, of a second since the epoch.
pub uninterp spec fn utc_date_of(secs: i64) -> Seq<char>;

/// Relies on chrono's `DateTime::from_timestamp` and its `%Y-%m-%d` format:
/// the UTC date of an instant.
#[verifier::external_body]
pub fn utc_date(secs: i64) -> (r: String)
    ensures
        r@ == utc_date_of(secs),
{
    chrono::DateTime::from_timestamp(secs, 0).map(|d| d.format("%Y-%m-%d").to_string()).unwrap_or_default()
}

/// Days since 1970-01-01 of the UTC day that holds the second `secs`.
pub open spec fn day_number(secs: int) -> int {
    secs / (SECS_PER_DAY as int)
}

/// Days since the last Sunday (0 on a Sunday) of the UTC day that holds
/// `secs`; 1970-01-01 was a Thursday.
pub open spec fn weekday_from_sunday(secs: int) -> int {
    (day_number(secs) + 4) % 7
}

/// Days left until the next UTC Sunday; 7 on a Sunday.
pub open spec fn days_until_reset_of(secs: int) -> int {
    if weekday_from_sunday(secs) == 0 {
        7
    } else {
        7 - weekday_from_sunday(secs)
    }
}

/// A multiple of a week, in seconds, larger than any `i64`.
const SHIFT: u128 = 10639754119662796800;

const SHIFT_DAYS: u128 = 123145302310912;

/// The UTC day that holds `secs`, in days since 1970-01-01.
pub fn utc_day_number(secs: i64) -> (r: i64)
    ensures
        r == day_number(secs as int),
{
    let x: u128 = (secs as i128 + SHIFT as i128) as u128;
    let q = x / 86400;
    let rem = x % 86400;
    proof {
        lemma_fundamental_div_mod(x as int, 86400);
        lemma_fundamental_div_mod_converse(
            secs as int,
            86400,
            q - SHIFT_DAYS as int,
            rem as int,
        );
    }
    (q as i128 - SHIFT_DAYS as i128) as i64
}

/// The start of the UTC day that holds `now`.
pub fn start_of_utc_day(now: &Instant) -> (r: Instant)
    requires
        now.secs > i64::MIN + SECS_PER_DAY,
    ensures
        r.secs == day_number(now.secs as int) * SECS_PER_DAY,
        r.nanos == 0,
{
    let d = utc_day_number(now.secs);
    proof {
        assert(d * 86400 <= now.secs) by (nonlinear_arith)
            requires d == (now.secs as int) / 86400;
        assert(d * 86400 > now.secs - 86400) by (nonlinear_arith)
            requires d == (now.secs as int) / 86400;
    }
    Instant { secs: d * SECS_PER_DAY, nanos: 0 }
}

/// Days until the weekly reset at the next UTC Sunday, counted from `now`;
/// 7 when `now` is on a Sunday.
pub fn compute_days_until_reset(now: &Instant) -> (r: u32)
    ensures
        r == days_until_reset_of(now.secs as int),
        1 <= r <= 7,
{
    let d = utc_day_number(now.secs);
    proof {
        assert(d * 86400 <= now.secs) by (nonlinear_arith)
            requires d == (now.secs as int) / 86400;
        assert(d * 86400 > now.secs - 86400) by (nonlinear_arith)
            requires d == (now.secs as int) / 86400;
    }
    let x: u128 = (d as i128 + SHIFT_DAYS as i128 + 4) as u128;
    let w = x % 7;
    proof {
        lemma_fundamental_div_mod(x as int, 7);
        lemma_fundamental_div_mod_converse(
            d + 4,
            7,
            (x / 7) as int - (SHIFT_DAYS / 7) as int,
            w as int,
        );
    }
    if w == 0 {
        7
    } else {
        (7 - w) as u32
    }
}

} // verus!
