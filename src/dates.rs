//! Instants in the site's fixed time zone (Canada/Eastern).
use vstd::prelude::*;

verus! {

/// An instant, as whole seconds since the Unix epoch; it is shown in the
/// Canada/Eastern time zone.
#[derive(Debug, Clone, Copy, PartialEq, Eq, Structural)]
pub struct Timestamp {
    pub seconds: i64,
}

/// What a `YYYY-MM-DD` text denotes as local midnight in Canada/Eastern, the
/// earliest such instant where the local time is ambiguous.
pub uninterp spec fn eastern_midnight(s: Seq<char>) -> Option<i64>;

/// Relies on chrono's `NaiveDate::parse_from_str` with `%Y-%m-%d`, and on
/// chrono-tz's `Canada::Eastern` through `and_local_timezone(..).earliest()`,
/// for the instant of that day's local midnight.
#[verifier::external_body]
pub(crate) fn parse_eastern_date(s: &str) -> (r: Option<Timestamp>)
    ensures
        r == (match eastern_midnight(s@) {
            Some(t) => Some(Timestamp { seconds: t }),
            None => None::<Timestamp>,
        }),
{
    chrono::NaiveDate::parse_from_str(s, "%Y-%m-%d")
        .ok()
        .and_then(|d| d.and_hms_opt(0, 0, 0))
        .and_then(|d| d.and_local_timezone(chrono_tz::Canada::Eastern).earliest())
        .map(|t| Timestamp { seconds: t.timestamp() })
}

/// Relies on chrono's `Utc::now`: the current instant. Nothing is known of its value.
#[verifier::external_body]
pub(crate) fn current_timestamp() -> (r: Timestamp) {
    Timestamp { seconds: chrono::Utc::now().timestamp() }
}

} // verus!
