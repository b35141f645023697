//! The wall-clock text shown beside saved items.
use vstd::prelude::*;
use crate::text::digit_char;

verus! {

/// Two decimal digits of `n`, which is below 100.
pub open spec fn two_digits(n: int) -> Seq<char> {
    seq![digit_char((n / 10) as nat), digit_char((n % 10) as nat)]
}

/// `HH:MM`: the hour and minute, in UTC, of a Unix time in seconds.
pub open spec fn clock_text(secs: i64) -> Seq<char> {
    two_digits((secs as int % 86400) / 3600) + seq![':'] + two_digits((secs as int % 3600) / 60)
}

/// From the year 1 to the end of the year 9999.
pub open spec fn in_calendar(secs: i64) -> bool {
    -62135596800 <= secs && secs <= 253402300799
}

/// Relies on chrono::DateTime::from_timestamp and the `%H:%M` format of
/// chrono's formatter: the zero-padded UTC hour and minute of `secs`; `None`
/// only outside chrono's range, which holds every time of the years 1 to
/// 9999.
#[verifier::external_body]
fn utc_clock(secs: i64) -> (r: Option<String>)
    ensures
        r is Some ==> r->0@ == clock_text(secs),
        in_calendar(secs) ==> r is Some,
{
    match chrono::DateTime::from_timestamp(secs, 0) {
        Some(t) => Some(t.format("%H:%M").to_string()),
        None => None,
    }
}

/// The clock text of `secs`; empty for a time outside chrono's range.
pub fn display_time(secs: i64) -> (r: String)
    ensures
        r@ == clock_text(secs) || r@.len() == 0,
        in_calendar(secs) ==> r@ == clock_text(secs),
{
    match utc_clock(secs) {
        Some(t) => t,
        None => String::new(),
    }
}

} // verus!
