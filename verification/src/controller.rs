//! The first generation of the schedule controller: the `SchedulePolicy`
//! resource with a schedule and a namespace selector whose expressions
//! name their operator as text, and the controller's decisions for it.
pub mod kubesitter;

use vstd::prelude::*;

use crate::kubesitter::controller::{
    delete_event, delete_event_view, reconcile_step, step_for, PolicyEvent, ReconcileStep,
};
use crate::resources::ObjectMeta;
use crate::string_map::StringMap;
use crate::text::{ascii_lowercase, join, seq_join, string_views, to_ascii_lowercase};
use crate::work_time::Schedule;
pub use crate::kubesitter::model::SchedulePolicyStatus;

verus! {

/// The finalizer that the controller puts on each policy.
pub const DOCUMENT_FINALIZER: &'static str = "schedulepolicies.api.profisealabs.com";

/// The operators of a label selector requirement.
#[derive(Clone, Copy, Debug, PartialEq, Eq, Structural)]
pub enum LabelSelectorRequirementOperator {
    In,
    NotIn,
    Exists,
    DoesNotExist,
}

/// A requirement on a label, its operator given as text (`In`, `NotIn`,
/// `Exists` or `DoesNotExist`).
pub struct LabelSelectorRequirement {
    pub key: String,
    pub operator: String,
    pub values: Option<Vec<String>>,
}

/// The requirement in the syntax of a label selector: the key, a space,
/// the operator in ASCII lower case, then ` (v1,v2)` when there are values.
pub open spec fn requirement_text(
    key: Seq<char>,
    operator: Seq<char>,
    values: Option<Seq<Seq<char>>>,
) -> Seq<char> {
    key + seq![' '] + ascii_lowercase(operator) + match values {
        Some(vs) => " ("@ + seq_join(vs, ","@) + seq![')'],
        None => Seq::empty(),
    }
}

/// The views of an optional list of texts.
pub open spec fn values_view(v: Option<Vec<String>>) -> Option<Seq<Seq<char>>> {
    match v {
        Some(v) => Some(string_views(v@)),
        None => None,
    }
}

impl LabelSelectorRequirement {
    /// The requirement in the syntax of a label selector.
    pub fn to_label_selector(&self) -> (r: String)
        ensures
            r@ == requirement_text(self.key@, self.operator@, values_view(self.values)),
    {
        let mut selector = self.key.clone();
        selector.append(" ");
        let operator = to_ascii_lowercase(self.operator.as_str());
        selector.append(operator.as_str());
        proof {
            reveal_strlit(" ");
        }
        let ghost head = self.key@ + seq![' '] + ascii_lowercase(self.operator@);
        assert(selector@ =~= head);
        match &self.values {
            Some(values) => {
                selector.append(" (");
                let joined = join(values, ",");
                selector.append(joined.as_str());
                selector.append(")");
                proof {
                    reveal_strlit(")");
                }
                assert(selector@ =~= head + (" ("@ + seq_join(string_views(values@), ","@)
                    + seq![')']));
            },
            None => {
                assert(selector@ =~= head + Seq::<char>::empty());
            },
        }
        selector
    }
}

/// How a policy selects its namespaces.
pub enum NamespaceSelector {
    /// Regular expressions of namespace names, ORed.
    MatchNames(Vec<String>),
    /// Labels that a namespace must all carry with these values.
    MatchLabels(StringMap),
    /// Label selector requirements that a namespace must all meet.
    MatchExpressions(Vec<LabelSelectorRequirement>),
}

/// What a `SchedulePolicy` asks for.
pub struct SchedulePolicySpec {
    pub title: String,
    pub suspend: bool,
    pub namespace_selector: NamespaceSelector,
    pub schedule: Schedule,
    pub time_zone: Option<String>,
}

/// The `SchedulePolicy` resource.
pub struct SchedulePolicy {
    pub metadata: ObjectMeta,
    pub spec: SchedulePolicySpec,
    pub status: Option<SchedulePolicyStatus>,
}

impl SchedulePolicy {
    /// Whether the status says that the policy was suspended.
    pub fn was_suspended(&self) -> (r: bool)
        ensures
            r == (self.status matches Some(s) && s.suspended),
    {
        match &self.status {
            Some(s) => s.suspended,
            None => false,
        }
    }
}

/// What reconciling the policy does: an event when it has just been
/// suspended, and the status that records whether it is suspended, or an
/// `IllegalResource` error for the policy named `illegal`.
pub fn plan_reconcile(policy: &SchedulePolicy) -> (r: ReconcileStep)
    ensures
        step_for(
            policy.metadata.name_any_view(),
            policy.status matches Some(s) && s.suspended,
            policy.spec.suspend,
            r,
        ),
{
    let name = policy.metadata.name_any();
    reconcile_step(name.as_str(), policy.was_suspended(), policy.spec.suspend, true)
}

/// The event that the deletion of a policy publishes.
pub fn cleanup_event(policy: &SchedulePolicy) -> (r: PolicyEvent)
    ensures
        r@ == delete_event_view(policy.metadata.name_any_view()),
{
    let name = policy.metadata.name_any();
    delete_event(name.as_str())
}

} // verus!
