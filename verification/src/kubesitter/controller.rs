//! The controller's decisions for a `SchedulePolicy`: what reconciling an
//! applied policy does, and the event that its deletion publishes.
use vstd::prelude::*;

use super::model::{SchedulePolicy, SchedulePolicyStatus};
use crate::error::{Error, ErrorView};
use crate::text::str_eq;

verus! {

/// The seconds after which a policy is reconciled again, after a reconcile
/// that succeeded, failed, or waited for Uniskai.
pub const REQUEUE_SECS: u64 = 30;

/// The reason of the event of a policy that becomes suspended.
pub const SUSPEND_REASON: &'static str = "SuspendRequested";

/// The reason of the event of a policy that is deleted.
pub const DELETE_REASON: &'static str = "DeleteRequested";

/// The name of a policy that the controller refuses to reconcile.
pub const ILLEGAL_NAME: &'static str = "illegal";

/// A normal event published about a policy.
pub struct PolicyEvent {
    pub reason: String,
    pub note: String,
    pub action: String,
}

pub struct PolicyEventView {
    pub reason: Seq<char>,
    pub note: Seq<char>,
    pub action: Seq<char>,
}

impl View for PolicyEvent {
    type V = PolicyEventView;

    open spec fn view(&self) -> PolicyEventView {
        PolicyEventView { reason: self.reason@, note: self.note@, action: self.action@ }
    }
}

/// The event of a policy that becomes suspended.
pub open spec fn suspend_event_view(name: Seq<char>) -> PolicyEventView {
    PolicyEventView {
        reason: "SuspendRequested"@,
        note: "Suspending `"@ + name + seq!['`'],
        action: "Hiding"@,
    }
}

/// The event of a policy that is deleted.
pub open spec fn delete_event_view(name: Seq<char>) -> PolicyEventView {
    PolicyEventView {
        reason: "DeleteRequested"@,
        note: "Delete `"@ + name + seq!['`'],
        action: "Deleting"@,
    }
}

/// What reconciling an applied policy does.
pub enum ReconcileStep {
    /// Uniskai is not connected: nothing is done, and the policy is looked at
    /// again after `REQUEUE_SECS`.
    Wait,
    /// The policy's resources are reconciled (a failure there is only
    /// reported), the event is published if there is one (a failure to
    /// publish fails the reconcile), then the outcome: the status to write
    /// before looking again after `REQUEUE_SECS`, or the error.
    Apply { suspend_event: Option<PolicyEvent>, outcome: Result<SchedulePolicyStatus, Error> },
}

/// The step of a connected reconcile: the suspend event exactly when the
/// policy is asked to be suspended and its status does not say so yet;
/// an `IllegalResource` error for the policy named `illegal`, else the
/// status recording whether it is suspended.
pub open spec fn applied_step(policy: SchedulePolicy, r: ReconcileStep) -> bool {
    step_for(
        policy.metadata.name_any_view(),
        policy.status matches Some(s) && s.suspended,
        policy.spec.suspend,
        r,
    )
}

/// The step of a connected reconcile of the policy `name`, given whether
/// its status says it was suspended and whether it is asked to be.
pub open spec fn step_for(name: Seq<char>, was_suspended: bool, should_suspend: bool, r: ReconcileStep) -> bool {
    match r {
        ReconcileStep::Wait => false,
        ReconcileStep::Apply { suspend_event, outcome } => {
            &&& (suspend_event is Some <==> (!was_suspended && should_suspend))
            &&& (suspend_event matches Some(e) ==> e@ == suspend_event_view(name))
            &&& (outcome is Err <==> name == "illegal"@)
            &&& (outcome matches Err(e) ==> e@ == ErrorView::IllegalResource)
            &&& (outcome matches Ok(s) ==> s.suspended == should_suspend)
        },
    }
}

fn event_note(prefix: &str, name: &str) -> (r: String)
    ensures
        r@ == prefix@ + name@ + seq!['`'],
{
    let mut note = prefix.to_owned();
    note.append(name);
    note.append("`");
    proof {
        reveal_strlit("`");
    }
    note
}

/// What reconciling a policy named `name` does: wait while Uniskai is not
/// connected; else an event when the policy has just been suspended (it is
/// asked to be and its status does not say so yet), and the status that
/// records whether it is suspended, or an `IllegalResource` error for the
/// policy named `illegal`.
pub fn reconcile_step(name: &str, was_suspended: bool, should_suspend: bool, connected: bool) -> (r:
    ReconcileStep)
    ensures
        !connected ==> r is Wait,
        connected ==> step_for(name@, was_suspended, should_suspend, r),
{
    if !connected {
        return ReconcileStep::Wait;
    }
    let suspend_event = if !was_suspended && should_suspend {
        Some(
            PolicyEvent {
                reason: SUSPEND_REASON.to_owned(),
                note: event_note("Suspending `", name),
                action: "Hiding".to_owned(),
            },
        )
    } else {
        None
    };
    let outcome = if str_eq(name, ILLEGAL_NAME) {
        Err(Error::IllegalResource)
    } else {
        Ok(SchedulePolicyStatus { suspended: should_suspend })
    };
    ReconcileStep::Apply { suspend_event, outcome }
}

/// What reconciling the policy does (see `reconcile_step`).
pub fn plan_reconcile(policy: &SchedulePolicy, connected: bool) -> (r: ReconcileStep)
    ensures
        !connected ==> r is Wait,
        connected ==> applied_step(*policy, r),
{
    let name = policy.metadata.name_any();
    reconcile_step(name.as_str(), policy.was_suspended(), policy.spec.suspend, connected)
}

/// The event that the deletion of a policy named `name` publishes.
pub fn delete_event(name: &str) -> (r: PolicyEvent)
    ensures
        r@ == delete_event_view(name@),
{
    PolicyEvent {
        reason: DELETE_REASON.to_owned(),
        note: event_note("Delete `", name),
        action: "Deleting".to_owned(),
    }
}

/// The event that the deletion of a policy publishes (it has nothing else
/// to clean up).
pub fn cleanup_event(policy: &SchedulePolicy) -> (r: PolicyEvent)
    ensures
        r@ == delete_event_view(policy.metadata.name_any_view()),
{
    let name = policy.metadata.name_any();
    delete_event(name.as_str())
}

} // verus!
