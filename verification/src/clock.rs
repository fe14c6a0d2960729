//! Time: the current instant, and instants rendered as calendar text.
//!
//! Instants are milliseconds since the Unix epoch (UTC). The checks take
//! the current instant as an argument, so every check is verified for every
//! reading of the clock.

use vstd::prelude::*;

verus! {

/// Milliseconds in a day.
pub const MS_PER_DAY: i64 = 86_400_000;

/// Milliseconds in an hour.
pub const MS_PER_HOUR: i64 = 3_600_000;

/// The instants that chrono's `DateTime<Utc>` can represent, in ms:
/// from -262143-01-01T00:00:00Z to 262142-12-31T23:59:59.999Z.
pub open spec fn chrono_ms_in_range(ms: int) -> bool {
    -8_334_601_315_200_000 <= ms <= 8_210_266_876_799_999
}

/// A name for chrono's `%Y-%m-%d %H:%M:%S` rendering of the UTC instant `ms`.
pub uninterp spec fn utc_datetime_text(ms: i64) -> Seq<char>;

/// A name for chrono's RFC 3339 rendering of the UTC instant `ms`.
pub uninterp spec fn utc_rfc3339_text(ms: i64) -> Seq<char>;

/// The current instant. Calls `chrono::Utc::now`; the contract states only
/// that the reading lies in chrono's representable range (every
/// `DateTime<Utc>` does) and is not before the Unix epoch (`Utc::now`
/// panics on a system clock set before it). Nothing is stated of which
/// instant it is.
#[verifier::external_body]
pub(crate) fn now_ms() -> (t: i64)
    ensures
        chrono_ms_in_range(t as int),
        0 <= t,
{
    chrono::Utc::now().timestamp_millis()
}

/// Whether chrono accepts `ms` as an instant. Calls
/// `chrono::DateTime::from_timestamp_millis`, which returns `None` exactly
/// outside the representable range.
#[verifier::external_body]
pub(crate) fn chrono_accepts_ms(ms: i64) -> (b: bool)
    ensures
        b == chrono_ms_in_range(ms as int),
{
    chrono::DateTime::from_timestamp_millis(ms).is_some()
}

/// `ms` rendered by chrono as `%Y-%m-%d %H:%M:%S` (UTC). Calls
/// `DateTime::from_timestamp_millis` and `DateTime::format`; the result is
/// named, as a function of `ms` alone.
#[verifier::external_body]
pub(crate) fn format_utc_datetime(ms: i64) -> (s: String)
    requires
        chrono_ms_in_range(ms as int),
    ensures
        s@ == utc_datetime_text(ms),
{
    chrono::DateTime::from_timestamp_millis(ms).unwrap().format("%Y-%m-%d %H:%M:%S").to_string()
}

/// `ms` rendered by chrono as RFC 3339 (UTC). Calls
/// `DateTime::from_timestamp_millis` and `DateTime::to_rfc3339`; the result
/// is named, as a function of `ms` alone.
#[verifier::external_body]
pub(crate) fn format_utc_rfc3339(ms: i64) -> (s: String)
    requires
        chrono_ms_in_range(ms as int),
    ensures
        s@ == utc_rfc3339_text(ms),
{
    chrono::DateTime::from_timestamp_millis(ms).unwrap().to_rfc3339()
}

/// The instant of a snapshot timestamp as the metadata reader sees it: the
/// stated instant when chrono can represent it, otherwise the epoch.
pub open spec fn effective_ms(ms: i64) -> i64 {
    if chrono_ms_in_range(ms as int) { ms } else { 0 }
}

/// Whole days in `ms` milliseconds, truncated toward zero.
pub open spec fn whole_days(ms: int) -> int {
    if ms >= 0 { ms / 86_400_000 } else { -((-ms) / 86_400_000) }
}

/// Whole seconds in `ms` milliseconds, truncated toward zero.
pub open spec fn whole_seconds(ms: int) -> int {
    if ms >= 0 { ms / 1000 } else { -((-ms) / 1000) }
}

/// Whole hours in `ms` milliseconds, truncated toward zero.
pub open spec fn whole_hours(ms: int) -> int {
    if ms >= 0 { ms / 3_600_000 } else { -((-ms) / 3_600_000) }
}

/// Whole days between two representable instants, truncated toward zero.
pub fn days_between(later: i64, earlier: i64) -> (d: i64)
    requires
        chrono_ms_in_range(later as int),
        chrono_ms_in_range(earlier as int),
    ensures
        d == whole_days(later - earlier),
{
    let diff = later - earlier;
    diff / MS_PER_DAY
}

/// Whole hours between two representable instants, truncated toward zero.
pub fn hours_between(later: i64, earlier: i64) -> (d: i64)
    requires
        chrono_ms_in_range(later as int),
        chrono_ms_in_range(earlier as int),
    ensures
        d == whole_hours(later - earlier),
{
    let diff = later - earlier;
    diff / MS_PER_HOUR
}

/// `days` days before `now`, as an instant, when chrono can hold both the
/// span and the result (it panics otherwise).
pub open spec fn days_before_ok(now: i64, days: int) -> bool {
    &&& 0 <= days
    &&& days * 86_400_000 <= i64::MAX
    &&& chrono_ms_in_range(now - days * 86_400_000)
}

} // verus!

verus! {

/// Whether `days` days before `now` is an instant chrono can produce.
pub fn days_before_ok_exec(now: i64, days: u64) -> (b: bool)
    requires
        chrono_ms_in_range(now as int),
    ensures
        b == days_before_ok(now, days as int),
{
    if days > 106_751_991_167 {
        return false;
    }
    let span = (days as i64) * MS_PER_DAY;
    match now.checked_sub(span) {
        Some(t) => chrono_accepts_ms(t),
        None => false,
    }
}

} // verus!
