//! Schedules and the local time of a named zone.
use vstd::prelude::*;

use crate::error::{Error, ErrorView};
use crate::kubesitter::model::{local_result_view, unknown_zone_message};
use crate::time::{shifted_naive, tz_name_known, tz_offset_seconds, NaiveDateTime, TimeZone, UtcDateTime};
use crate::work_time::{schedule_active, schedule_active_at};
pub use crate::work_time::{Schedule, WorkTime};

verus! {

/// The local time of the instant in a zone of the database, given the
/// zone's offset at that instant or the database's message: that message
/// as a `DeserializationError` when the zone is unknown.
pub open spec fn named_zone_time(t: UtcDateTime, zone: Result<int, Seq<char>>) -> Result<
    NaiveDateTime,
    ErrorView,
> {
    match zone {
        Ok(offset) => Ok(shifted_naive(t, offset)),
        Err(message) => Err(ErrorView::DeserializationError(message)),
    }
}

/// The local time of the instant in the zone named `time_zone`.
pub open spec fn named_zone_time_spec(t: UtcDateTime, time_zone: Seq<char>) -> Result<
    NaiveDateTime,
    ErrorView,
> {
    named_zone_time(
        t,
        if tz_name_known(time_zone) {
            Ok(tz_offset_seconds(time_zone, t.secs as int))
        } else {
            Err(unknown_zone_message(time_zone))
        },
    )
}

/// The local time of the instant, given the offset of its zone or the zone
/// database's message.
pub fn local_time_in_named_zone(time: &UtcDateTime, zone: Result<i32, String>) -> (r: Result<
    NaiveDateTime,
    Error,
>)
    requires
        time.wf(),
        zone matches Ok(o) ==> -86400 < o < 86400,
    ensures
        local_result_view(r) == named_zone_time(
            *time,
            match zone {
                Ok(o) => Ok(o as int),
                Err(e) => Err(e@),
            },
        ),
        r matches Ok(v) ==> v.wf(),
{
    match zone {
        Ok(offset) => Ok(time.naive_with_offset(offset)),
        Err(message) => Err(Error::DeserializationError(message)),
    }
}

/// The local date-time of an instant in the zone of the database named
/// `time_zone`; a `DeserializationError` for a name it does not know.
pub fn convert_to_local_time(time: &UtcDateTime, time_zone: &str) -> (r: Result<NaiveDateTime, Error>)
    requires
        time.wf(),
    ensures
        local_result_view(r) == named_zone_time_spec(*time, time_zone@),
        r matches Ok(v) ==> v.wf(),
{
    let zone = match TimeZone::parse(time_zone) {
        Ok(zone) => Ok(zone.utc_offset_at(time)),
        Err(message) => Err(message),
    };
    local_time_in_named_zone(time, zone)
}

/// Whether the schedule asks for work at `now` (it never fails).
pub fn determine_desired_state(schedule: &Schedule, now: &NaiveDateTime) -> (r: Result<bool, Error>)
    ensures
        r matches Ok(b) && b == schedule_active(schedule@, now.weekday_spec(), now.time),
{
    Ok(schedule_active_at(schedule, now))
}

} // verus!
