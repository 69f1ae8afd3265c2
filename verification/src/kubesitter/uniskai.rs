//! Keeping the `SchedulePolicy` resources in step with the Cloudsitter
//! policies of Uniskai: when the connection counts as lost, which policies
//! changed since they were last applied, and the resource of each.
use std::collections::HashMap;
use vstd::prelude::*;

use super::model::SchedulePolicySpec;
use crate::text::{replace_spaces_with_dashes, spaces_to_dashes, to_lowercase, unicode_lowercase};
use crate::uniskai_sdk::{CloudsitterPolicy, CloudsitterPolicyView};

verus! {

broadcast use vstd::std_specs::hash::group_hash_axioms;

/// Failed listings in a row after which Uniskai counts as disconnected,
/// once exceeded.
pub const CONNECTION_FAILURE_THRESHOLD: u32 = 2;

/// The namespace of the `SchedulePolicy` resources made from Cloudsitter
/// policies.
pub const SCHEDULES_NAMESPACE: &'static str = "uniskai";

/// The manager name of the patches that apply those resources.
pub const FIELD_MANAGER: &'static str = "uniskai-controller";

/// The state of the synchronisation: the failed listings in a row,
/// whether Uniskai counts as connected, and the last version of each policy
/// that was applied, by ID.
pub struct PolicySync {
    error_count: u32,
    connected: bool,
    store: HashMap<i64, CloudsitterPolicy>,
}

/// The failed listings in a row and the connection flag after one more
/// listing, `ok` when it succeeded: a success clears the failures and
/// connects; a failure counts, and disconnects once the failures exceed
/// `threshold`.
pub open spec fn sync_step(state: (nat, bool), ok: bool, threshold: nat) -> (nat, bool) {
    if ok {
        (0, true)
    } else if state.0 + 1 > threshold {
        ((state.0 + 1) as nat, false)
    } else {
        ((state.0 + 1) as nat, state.1)
    }
}

/// The failed listings in a row and the connection flag after the listings
/// `rounds` (`true` for a success), starting with no failure and the flag
/// `initial`.
pub open spec fn sync_after(initial: bool, threshold: nat, rounds: Seq<bool>) -> (nat, bool)
    decreases rounds.len(),
{
    if rounds.len() == 0 {
        (0, initial)
    } else {
        sync_step(sync_after(initial, threshold, rounds.drop_last()), rounds.last(), threshold)
    }
}

/// The policy must be applied: no version is known under its ID, or the
/// known one differs.
pub open spec fn needs_reconcile_spec(
    known: Map<i64, CloudsitterPolicyView>,
    policy: CloudsitterPolicyView,
) -> bool {
    !(known.contains_key(policy.id) && known[policy.id] == policy)
}

impl PolicySync {
    /// The failed listings in a row.
    pub closed spec fn failures(&self) -> nat {
        self.error_count as nat
    }

    /// Whether Uniskai counts as connected.
    pub closed spec fn connected(&self) -> bool {
        self.connected
    }

    /// The policies applied so far, by ID.
    pub closed spec fn known(&self) -> Map<i64, CloudsitterPolicyView> {
        Map::new(|id: i64| self.store@.contains_key(id), |id: i64| self.store@[id]@)
    }

    /// No failure yet, connected, and no policy applied.
    pub fn new() -> (r: PolicySync)
        ensures
            r.failures() == 0,
            r.connected(),
            r.known() == Map::<i64, CloudsitterPolicyView>::empty(),
    {
        PolicySync::starting(true)
    }

    /// No failure yet, the connection flag `connected`, and no policy
    /// applied.
    pub fn starting(connected: bool) -> (r: PolicySync)
        ensures
            r.failures() == 0,
            r.connected() == connected,
            r.known() == Map::<i64, CloudsitterPolicyView>::empty(),
    {
        let r = PolicySync { error_count: 0, connected, store: HashMap::new() };
        assert(r.known() =~= Map::<i64, CloudsitterPolicyView>::empty());
        r
    }

    /// The failed listings in a row.
    pub fn failure_count(&self) -> (r: u32)
        ensures
            r == self.failures(),
    {
        self.error_count
    }

    /// Whether Uniskai counts as connected.
    pub fn is_connected(&self) -> (r: bool)
        ensures
            r == self.connected(),
    {
        self.connected
    }

    /// A listing failed: one failure more, and disconnected once the
    /// failures in a row exceed `threshold`. Returns whether they do.
    pub fn record_failure(&mut self, threshold: u32) -> (exceeded: bool)
        requires
            old(self).failures() < u32::MAX,
        ensures
            (final(self).failures(), final(self).connected()) == sync_step(
                (old(self).failures(), old(self).connected()),
                false,
                threshold as nat,
            ),
            final(self).known() == old(self).known(),
            exceeded == (final(self).failures() > threshold),
    {
        self.error_count = self.error_count + 1;
        let exceeded = self.error_count > threshold;
        if exceeded {
            self.connected = false;
        }
        exceeded
    }

    /// A listing succeeded: no failure in a row, and connected.
    pub fn record_success(&mut self)
        ensures
            (final(self).failures(), final(self).connected()) == sync_step(
                (old(self).failures(), old(self).connected()),
                true,
                0,
            ),
            final(self).known() == old(self).known(),
    {
        self.error_count = 0;
        self.connected = true;
    }

    /// Whether the policy must be applied: it is new, or it differs from the
    /// version last applied under its ID.
    pub fn needs_reconcile(&self, policy: &CloudsitterPolicy) -> (r: bool)
        ensures
            r == needs_reconcile_spec(self.known(), policy@),
    {
        match self.store.get(&policy.id) {
            Some(existing) => !existing.same_as(policy),
            None => true,
        }
    }

    /// The policy was applied: it is the version known under its ID.
    pub fn remember(&mut self, policy: CloudsitterPolicy)
        ensures
            final(self).failures() == old(self).failures(),
            final(self).connected() == old(self).connected(),
            final(self).known() == old(self).known().insert(policy.id, policy@),
    {
        let ghost view = policy@;
        let id = policy.id;
        self.store.insert(id, policy);
        assert(self.known() =~= old(self).known().insert(id, view));
    }
}

/// The name of the resource of a policy: spaces replaced by dashes, then
/// lower case.
pub open spec fn schedule_name_of(policy_name: Seq<char>) -> Seq<char> {
    unicode_lowercase(spaces_to_dashes(policy_name))
}

/// The name of the `SchedulePolicy` resource of a Cloudsitter policy.
pub fn schedule_resource_name(policy_name: &str) -> (r: String)
    ensures
        r@ == schedule_name_of(policy_name@),
{
    let dashed = replace_spaces_with_dashes(policy_name);
    to_lowercase(dashed.as_str())
}

/// Whether the spec must be applied: no resource has it yet.
pub fn schedule_needs_apply(existing: Option<&SchedulePolicySpec>, desired: &SchedulePolicySpec) -> (r:
    bool)
    ensures
        r == !(existing matches Some(e) && e@ == desired@),
{
    match existing {
        Some(e) => !e.same_as(desired),
        None => true,
    }
}

} // verus!
