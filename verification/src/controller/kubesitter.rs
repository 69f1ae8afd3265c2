//! The resource logic of the first generation: the label selector of a
//! policy's namespaces, and the state that its schedule asks of them.
use vstd::prelude::*;

use super::{requirement_text, values_view, LabelSelectorRequirement, NamespaceSelector, SchedulePolicySpec};
use crate::error::{Error, ErrorView};
use crate::kubesitter::resources_logic::core_logic::{
    compile_name_patterns, compiling_patterns, labels_selector_text, pattern_sources,
    NamespaceQuery,
};
use crate::resources::opt_string_view;
use crate::schedule_controller::schedule::{
    convert_to_local_time, determine_desired_state, named_zone_time_spec,
};
use crate::string_map::{ascending_entries, entry_views};
use crate::text::{join, seq_join, string_views};
use crate::time::{shifted_naive, NaiveDateTime, UtcDateTime};
use crate::work_time::schedule_active;
pub use crate::schedule_controller::kubesitter::generate_deployment_patch;

verus! {

/// The label selector of a namespace selector: none for names, the
/// `key=value` terms of the labels in ascending key order, or the selectors
/// of the expressions, joined by commas.
pub open spec fn selector_text(selector: NamespaceSelector) -> Option<Seq<char>> {
    match selector {
        NamespaceSelector::MatchNames(_) => None,
        NamespaceSelector::MatchLabels(labels) => Some(labels_selector_text(ascending_entries(labels@))),
        NamespaceSelector::MatchExpressions(exprs) => Some(
            seq_join(
                exprs@.map_values(|e: LabelSelectorRequirement|
                    requirement_text(e.key@, e.operator@, values_view(e.values))),
                ","@,
            ),
        ),
    }
}

/// The query of a namespace selector: the names' patterns that compile, or
/// the label selector of the labels or expressions.
pub fn namespace_query(selector: &NamespaceSelector) -> (r: NamespaceQuery)
    ensures
        opt_string_view(r.label_selector) == selector_text(*selector),
        match *selector {
            NamespaceSelector::MatchNames(names) => r.name_patterns matches Some(ps)
                && pattern_sources(ps@) == compiling_patterns(string_views(names@)),
            _ => r.name_patterns is None,
        },
{
    match selector {
        NamespaceSelector::MatchNames(names) => NamespaceQuery {
            label_selector: None,
            name_patterns: Some(compile_name_patterns(names)),
        },
        NamespaceSelector::MatchLabels(labels) => {
            let entries = labels.entries();
            let ghost es = labels.entries_view();
            let mut terms: Vec<String> = Vec::new();
            let mut i: usize = 0;
            while i < entries.len()
                invariant
                    i <= entries@.len(),
                    es == entry_views(entries@),
                    terms@.len() == i,
                    forall|j: int|
                        0 <= j < i ==> #[trigger] terms@[j]@ == es[j].0 + seq!['='] + es[j].1,
                decreases entries@.len() - i,
            {
                let mut term = entries[i].0.clone();
                term.append("=");
                term.append(entries[i].1.as_str());
                proof {
                    reveal_strlit("=");
                }
                terms.push(term);
                i = i + 1;
            }
            assert(string_views(terms@) =~= es.map_values(
                |e: (Seq<char>, Seq<char>)| e.0 + seq!['='] + e.1,
            ));
            NamespaceQuery { label_selector: Some(join(&terms, ",")), name_patterns: None }
        },
        NamespaceSelector::MatchExpressions(exprs) => {
            let mut terms: Vec<String> = Vec::new();
            let mut i: usize = 0;
            while i < exprs.len()
                invariant
                    i <= exprs@.len(),
                    terms@.len() == i,
                    forall|j: int|
                        0 <= j < i ==> #[trigger] terms@[j]@ == requirement_text(
                            exprs@[j].key@,
                            exprs@[j].operator@,
                            values_view(exprs@[j].values),
                        ),
                decreases exprs@.len() - i,
            {
                terms.push(exprs[i].to_label_selector());
                i = i + 1;
            }
            assert(string_views(terms@) =~= exprs@.map_values(
                |e: LabelSelectorRequirement|
                    requirement_text(e.key@, e.operator@, values_view(e.values)),
            ));
            NamespaceQuery { label_selector: Some(join(&terms, ",")), name_patterns: None }
        },
    }
}

/// The state that the policy's schedule asks of all its namespaces at the
/// instant `now`: at the local time of its zone (a `DeserializationError`
/// for an unknown zone), or of UTC without one.
pub open spec fn policy_state(spec: SchedulePolicySpec, now: UtcDateTime) -> Result<bool, ErrorView> {
    let local = match spec.time_zone {
        Some(tz) => named_zone_time_spec(now, tz@),
        None => Ok(shifted_naive(now, 0)),
    };
    match local {
        Ok(t) => Ok(schedule_active(spec.schedule@, t.weekday_spec(), t.time)),
        Err(e) => Err(e),
    }
}

/// The view of a decided state.
pub open spec fn state_view(r: Result<bool, Error>) -> Result<bool, ErrorView> {
    match r {
        Ok(b) => Ok(b),
        Err(e) => Err(e@),
    }
}

/// Whether the namespaces of the policy should be awake at the instant
/// `now`.
pub fn policy_desired_state(spec: &SchedulePolicySpec, now: &UtcDateTime) -> (r: Result<bool, Error>)
    requires
        now.wf(),
    ensures
        state_view(r) == policy_state(*spec, *now),
{
    let current_time: NaiveDateTime = match &spec.time_zone {
        Some(tz) => match convert_to_local_time(now, tz.as_str()) {
            Ok(t) => t,
            Err(e) => return Err(e),
        },
        None => now.naive_utc(),
    };
    determine_desired_state(&spec.schedule, &current_time)
}

} // verus!
