//! The `SchedulePolicy` resource of this generation: no assignments, and
//! label selector requirements whose keyword follows the key even for
//! `Exists` and `DoesNotExist`.
use vstd::prelude::*;

use crate::error::{Error, ErrorView};
use crate::kubesitter::model::{bad_grid_message, policy_namespace_names};
use crate::resources::ObjectMeta;
use crate::string_map::StringMap;
use crate::text::{join, opt_strings_view, seq_join, string_views};
use crate::uniskai_sdk::{is_namespace_type, CloudsitterPolicy};
use crate::work_time::{describes_grid, grid_layout, grid_work_times, Schedule};
pub use crate::kubesitter::model::{
    convert_to_work_times, RequirementOperator, SchedulePolicyStatus, POLICY_FINALIZER,
};

verus! {

/// A requirement on a label: the operator relates the key and the values.
pub struct LabelSelectorRequirement {
    pub key: String,
    pub operator: RequirementOperator,
    pub values: Option<Vec<String>>,
}

/// The requirement in the syntax of a Kubernetes label selector: the key,
/// a space and the operator's keyword, then ` (v1,v2)` for `In` and
/// `NotIn` when there are values.
pub open spec fn requirement_selector_text(
    key: Seq<char>,
    operator: RequirementOperator,
    values: Option<Seq<Seq<char>>>,
) -> Seq<char> {
    key + seq![' '] + operator.keyword() + match operator {
        RequirementOperator::Exists | RequirementOperator::DoesNotExist => Seq::empty(),
        _ => match values {
            Some(vs) => " ("@ + seq_join(vs, ","@) + seq![')'],
            None => Seq::empty(),
        },
    }
}

impl LabelSelectorRequirement {
    /// The requirement in the syntax of a label selector.
    pub fn to_label_selector(&self) -> (r: String)
        ensures
            r@ == requirement_selector_text(self.key@, self.operator, opt_strings_view(self.values)),
    {
        let mut selector = self.key.clone();
        selector.append(" ");
        selector.append(self.operator.as_str());
        proof {
            reveal_strlit(" ");
        }
        let ghost head = self.key@ + seq![' '] + self.operator.keyword();
        assert(selector@ =~= head);
        match self.operator {
            RequirementOperator::Exists | RequirementOperator::DoesNotExist => {
                assert(selector@ =~= head + Seq::<char>::empty());
            },
            _ => match &self.values {
                Some(values) => {
                    selector.append(" (");
                    let joined = join(values, ",");
                    selector.append(joined.as_str());
                    selector.append(")");
                    proof {
                        reveal_strlit(")");
                    }
                    assert(selector@ =~= head + (" ("@ + seq_join(string_views(values@), ","@)
                        + seq![')']));
                },
                None => {
                    assert(selector@ =~= head + Seq::<char>::empty());
                },
            },
        }
        selector
    }
}

/// How a policy selects its namespaces.
pub enum NamespaceSelector {
    /// Regular expressions of namespace names, ORed.
    MatchNames(Vec<String>),
    /// Labels that a namespace must all carry with these values.
    MatchLabels(StringMap),
    /// Label selector requirements that a namespace must all meet.
    MatchExpressions(Vec<LabelSelectorRequirement>),
}

/// What a `SchedulePolicy` asks for.
pub struct SchedulePolicySpec {
    pub title: String,
    pub suspend: bool,
    pub namespace_selector: NamespaceSelector,
    pub schedule: Schedule,
    pub time_zone: Option<String>,
}

/// The `SchedulePolicy` resource.
pub struct SchedulePolicy {
    pub metadata: ObjectMeta,
    pub spec: SchedulePolicySpec,
    pub status: Option<SchedulePolicyStatus>,
}

impl SchedulePolicy {
    /// Whether the status says that the policy was suspended.
    pub fn was_suspended(&self) -> (r: bool)
        ensures
            r == (self.status matches Some(s) && s.suspended),
    {
        match &self.status {
            Some(s) => s.suspended,
            None => false,
        }
    }
}

/// The spec made from a Cloudsitter policy: its name as title, suspended
/// when the policy is disabled, the policy's zone, its namespaces by name,
/// and a schedule that holds the moments that the policy's grid holds.
pub open spec fn legacy_spec_from_policy(s: SchedulePolicySpec, p: CloudsitterPolicy) -> bool {
    &&& s.title@ == p.name@
    &&& s.suspend == p.disabled
    &&& s.time_zone matches Some(z) && z@ == p.timezone@
    &&& s.namespace_selector matches NamespaceSelector::MatchNames(names) && string_views(names@)
        == policy_namespace_names(p.resources@)
    &&& describes_grid(s.schedule@, p.schedules.hours@)
    &&& grid_work_times(p.schedules.hours@, s.schedule@)
}

impl SchedulePolicySpec {
    /// The spec of a Cloudsitter policy; an `InvalidParameters` error when
    /// its grid has an unexpected length.
    pub fn try_from(policy: &CloudsitterPolicy) -> (r: Result<SchedulePolicySpec, Error>)
        ensures
            r is Ok <==> grid_layout(policy.schedules.hours@.len()) is Some,
            r matches Ok(spec) ==> legacy_spec_from_policy(spec, *policy),
            r matches Err(e) ==> e@ == ErrorView::InvalidParameters(bad_grid_message()),
    {
        let work_times = match convert_to_work_times(&policy.schedules.hours) {
            Ok(w) => w,
            Err(e) => return Err(e),
        };
        let names = namespace_names_of(policy);
        Ok(
            SchedulePolicySpec {
                title: policy.name.clone(),
                suspend: policy.disabled,
                time_zone: Some(policy.timezone.clone()),
                namespace_selector: NamespaceSelector::MatchNames(names),
                schedule: Schedule::WorkTimes(work_times),
            },
        )
    }
}

/// The names of the namespaces among a policy's resources, in order.
pub fn namespace_names_of(policy: &CloudsitterPolicy) -> (r: Vec<String>)
    ensures
        string_views(r@) == policy_namespace_names(policy.resources@),
{
    let ghost rs = policy.resources@;
    let mut names: Vec<String> = Vec::new();
    let mut i: usize = 0;
    while i < policy.resources.len()
        invariant
            i <= rs.len(),
            rs == policy.resources@,
            string_views(names@) == policy_namespace_names(rs.subrange(0, i as int)),
        decreases rs.len() - i,
    {
        let ghost prefix = rs.subrange(0, i as int);
        let ghost next = rs.subrange(0, i + 1);
        assert(next.drop_last() =~= prefix);
        assert(next.last() == rs[i as int]);
        let resource = &policy.resources[i];
        if is_namespace_type(resource.ty.as_str()) {
            match resource.identification.name() {
                Some(name) => {
                    names.push(name.to_owned());
                    assert(string_views(names@) =~= policy_namespace_names(prefix).push(name@));
                },
                None => {},
            }
        }
        i = i + 1;
    }
    assert(rs.subrange(0, rs.len() as int) =~= rs);
    names
}

} // verus!
