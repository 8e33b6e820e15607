//! The visible time window of a status: the bounds of the current local
//! calendar day, obtained from the system clock and time zone.

use vstd::prelude::*;
use crate::status::{
    build_status, spec_details, spec_image_of, spec_state, MetricKind, MetricSummary, StatusUpdate,
};

verus! {

/// Relies on chrono (`Local::now`, `TimeZone::from_local_datetime`,
/// `DateTime::timestamp`) for the Unix timestamps of the current local
/// day's start (00:00:00) and end (23:59:59). The result depends on the
/// system clock and time zone, so nothing is stated of it; `None` comes
/// back when a bound is nonexistent or ambiguous in the local time zone (a
/// daylight-saving transition over midnight), never a panic.
#[verifier::external_body]
pub(crate) fn local_day_window() -> Option<(u64, u64)> {
    let today = chrono::Local::now().date_naive();
    let day_start = chrono::TimeZone::from_local_datetime(
        &chrono::Local,
        &today.and_hms_opt(0, 0, 0)?,
    ).single()?;
    let day_end = chrono::TimeZone::from_local_datetime(
        &chrono::Local,
        &today.and_hms_opt(23, 59, 59)?,
    ).single()?;
    Some((day_start.timestamp() as u64, day_end.timestamp() as u64))
}

/// Builds the status update for a fetched summary with the current local
/// day as its visible time window. The window's bounds come from the
/// system clock, so nothing is stated of them; when the local day's bounds
/// cannot be mapped uniquely (a daylight-saving transition over midnight)
/// the status simply carries no window.
pub fn build_status_now(
    kind: MetricKind,
    summary: &MetricSummary,
    image_key: &Option<String>,
) -> (r: StatusUpdate)
    ensures
        r.details@ == spec_details(*summary),
        r.state@ == spec_state(*summary),
        (match r.image {
            Some(a) => spec_image_of(kind, *image_key) == Some((a.key@, a.hover@)),
            None => spec_image_of(kind, *image_key) is None,
        }),
{
    let window = local_day_window();
    build_status(kind, summary, window, image_key)
}

} // verus!
