//! The second generation of the operator: a `SchedulePolicy` puts all the
//! namespaces it selects to sleep or wakes them with its schedule, with no
//! assignments.
pub mod kubesitter;
pub mod model;
pub mod schedule;
pub mod uniskai;
