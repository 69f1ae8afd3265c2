//! The first conversion of Cloudsitter policies into `SchedulePolicy`
//! specs, with errors of its own.
use vstd::prelude::*;

use crate::controller::{NamespaceSelector, SchedulePolicySpec};
use crate::kubesitter::model::policy_namespace_names;
use crate::schedule_controller::model::namespace_names_of;
use crate::text::string_views;
use crate::uniskai_sdk::CloudsitterPolicy;
use crate::work_time::{
    describes_grid, grid_layout, grid_work_times, work_time_views, work_times_from_grid, Schedule,
    WorkTime,
};

verus! {

/// What can go wrong converting a policy.
#[derive(Clone, Copy, Debug, PartialEq, Eq, Structural)]
pub enum Error {
    /// The grid of the schedule has an unexpected length.
    InvalidSchedule,
    /// A day index is not a weekday.
    OutOfRange,
}

impl Error {
    /// The error's message.
    pub fn message(&self) -> (r: &'static str)
        ensures
            r@ == (match self {
                Error::InvalidSchedule => "Invalid schedule value"@,
                Error::OutOfRange => "Out of range"@,
            }),
    {
        match self {
            Error::InvalidSchedule => "Invalid schedule value",
            Error::OutOfRange => "Out of range",
        }
    }
}

/// The work times of a Cloudsitter grid of a week; `InvalidSchedule` for a
/// grid that is not 168, 336 or 672 periods long.
pub fn convert_to_work_times(periods: &Vec<bool>) -> (r: Result<Vec<WorkTime>, Error>)
    ensures
        r is Ok <==> grid_layout(periods@.len()) is Some,
        r matches Ok(times) ==> describes_grid(work_time_views(times@), periods@),
        r matches Ok(times) ==> grid_work_times(periods@, work_time_views(times@)),
        r matches Err(e) ==> e == Error::InvalidSchedule,
{
    match work_times_from_grid(periods) {
        Some(times) => Ok(times),
        None => Err(Error::InvalidSchedule),
    }
}

/// The spec of a Cloudsitter policy: its name as title, suspended when it
/// is disabled, its zone, its namespaces by name, and a schedule that holds
/// the moments that its grid holds. The grid must have one of the expected
/// lengths.
pub fn convert_to_schedule_policy(policy: &CloudsitterPolicy) -> (r: SchedulePolicySpec)
    requires
        grid_layout(policy.schedules.hours@.len()) is Some,
    ensures
        r.title@ == policy.name@,
        r.suspend == policy.disabled,
        r.time_zone matches Some(z) && z@ == policy.timezone@,
        r.namespace_selector matches NamespaceSelector::MatchNames(names) && string_views(names@)
            == policy_namespace_names(policy.resources@),
        describes_grid(r.schedule@, policy.schedules.hours@),
        grid_work_times(policy.schedules.hours@, r.schedule@),
{
    let work_times = match convert_to_work_times(&policy.schedules.hours) {
        Ok(w) => w,
        Err(_) => Vec::new(),
    };
    SchedulePolicySpec {
        title: policy.name.clone(),
        suspend: policy.disabled,
        time_zone: Some(policy.timezone.clone()),
        namespace_selector: NamespaceSelector::MatchNames(namespace_names_of(policy)),
        schedule: Schedule::WorkTimes(work_times),
    }
}

} // verus!
