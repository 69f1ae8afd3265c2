//! Waking and putting to sleep the workloads of a namespace.
pub mod apps;
pub mod batch;
pub mod core_logic;


use vstd::prelude::*;

verus! {

/// The annotation that keeps the replica count of a sleeping workload.
pub const REPLICAS_ANNOTATION: &'static str = "cloudsitter.uniskai.com/original-replicas";

/// The annotation that marks a cron job suspended by the operator.
pub const SUSPENDED_ANNOTATION: &'static str = "cloudsitter.uniskai.com/is-suspended";

/// The annotation that keeps the node selector of a sleeping daemon set.
pub const NODE_SELECTOR_ANNOTATION: &'static str = "cloudsitter.uniskai.com/original-node-selector";

/// The annotation that exempts a workload from the schedule.
pub const SKIP_ANNOTATION: &'static str = "cloudsitter.uniskai.com/skip";

/// Namespaces of the system.
pub const DEFAULT_SYSTEM_NAMESPACES: [&'static str; 1] = ["kube-system"];

} // verus!
