//! What a policy asks of its namespaces: whether its schedule is on, which
//! assignment holds for a namespace, which namespaces its selector picks,
//! and the patch of each workload of a namespace.
use vstd::prelude::*;

use super::apps::{
    daemon_set_patch, generate_daemon_set_patch, generate_deployment_patch,
    generate_replica_set_patch, generate_replication_controller_patch,
    generate_stateful_set_patch, pod_node_selector, replicas_patch,
};
use super::batch::{cron_job_patch, cron_job_suspend, generate_cron_job_patch};
use super::SKIP_ANNOTATION;
use crate::error::{Error, ErrorView};
use crate::kubesitter::model::{
    assignment_active, convert_to_local_time, fixed_offset_fits, label_selector_text,
    local_time_spec, namespace_reference,
    references_match, Assignment, AssignmentType, AssignmentView, NamespaceSelector,
    ResourceFilter, ResourceFilterView, ResourceReference, ResourceReferenceView, Schedule,
    SchedulePolicySpec, SchedulePolicySpecView,
};
use crate::resources::{
    opt_patch_view, opt_string_view, spec_replicas, CronJob, DaemonSet, Deployment, ObjectMeta,
    Patch, PatchView, ReplicaSet, ReplicationController, StatefulSet,
};
use crate::string_map::{ascending_entries, entry_views};
use crate::text::{join, seq_join, string_views};
use crate::time::{NaiveDateTime, UtcDateTime};
use crate::work_time::{schedule_active, schedule_active_at};

verus! {

/// Whether the schedule asks for work at `now` (it never fails).
pub fn determine_schedule_state(schedule: &Schedule, now: &NaiveDateTime) -> (r: Result<
    bool,
    Error,
>)
    ensures
        r matches Ok(b) && b == schedule_active(schedule@, now.weekday_spec(), now.time),
{
    Ok(schedule_active_at(schedule, now))
}

/// The filter holds for the resource: one of its references matches it.
pub open spec fn filter_matches(f: ResourceFilterView, resource: ResourceReferenceView) -> bool {
    references_any(f->MatchResources_0, resource)
}

/// One of the references matches the resource.
pub open spec fn references_any(refs: Seq<ResourceReferenceView>, resource: ResourceReferenceView) -> bool {
    exists|i: int| 0 <= i < refs.len() && references_match(#[trigger] refs[i], resource)
}

impl ResourceFilter {
    /// Whether one of the filter's references matches the resource.
    #[verifier::loop_isolation(false)]
    pub fn matches(&self, resource: &ResourceReference) -> (r: bool)
        ensures
            r == filter_matches(self@, resource@),
    {
        match self {
            ResourceFilter::MatchResources(filters) => {
                let ghost refs = filters@.map_values(|x: ResourceReference| x@);
                assert(self@ == ResourceFilterView::MatchResources(refs));
                let mut i: usize = 0;
                while i < filters.len()
                    invariant
                        i <= filters@.len(),
                        refs == filters@.map_values(|x: ResourceReference| x@),
                        forall|j: int| 0 <= j < i ==> !references_match(#[trigger] refs[j], resource@),
                    decreases filters@.len() - i,
                {
                    if filters[i].matches(resource) {
                        assert(references_match(refs[i as int], resource@));
                        return true;
                    }
                    i = i + 1;
                }
                false
            },
        }
    }
}

/// The assignment holds for the resource at the moment: it is active and
/// its filter, if it has one, matches the resource.
pub open spec fn assignment_applies(
    a: AssignmentView,
    resource: ResourceReferenceView,
    t: NaiveDateTime,
) -> bool {
    &&& assignment_active(a, t)
    &&& (a.resource_filter matches Some(f) ==> filter_matches(f, resource))
}

/// The type of the last assignment that holds for the resource.
pub open spec fn last_applying(
    s: Seq<AssignmentView>,
    resource: ResourceReferenceView,
    t: NaiveDateTime,
) -> Option<AssignmentType>
    decreases s.len(),
{
    if s.len() == 0 {
        None
    } else if assignment_applies(s.last(), resource, t) {
        Some(s.last().ty)
    } else {
        last_applying(s.drop_last(), resource, t)
    }
}

/// What the resource gets: the type of the last assignment that holds for
/// it, else work when the schedule is on and sleep when it is off.
pub open spec fn assigned_type(
    assignments: Option<Seq<AssignmentView>>,
    resource: ResourceReferenceView,
    t: NaiveDateTime,
    schedule_state: bool,
) -> AssignmentType {
    let found = match assignments {
        Some(s) => last_applying(s, resource, t),
        None => None,
    };
    match found {
        Some(ty) => ty,
        None => if schedule_state {
            AssignmentType::Work
        } else {
            AssignmentType::Sleep
        },
    }
}

/// The views of an optional reference to a list of assignments.
pub open spec fn opt_assignments_ref_view(a: Option<&Vec<Assignment>>) -> Option<
    Seq<AssignmentView>,
> {
    match a {
        Some(v) => Some(v@.map_values(|x: Assignment| x@)),
        None => None,
    }
}

/// What the resource gets at `current_time`: the last active assignment
/// whose filter matches it decides; without one, the schedule does.
#[verifier::loop_isolation(false)]
pub fn determine_assignment_type(
    resource: &ResourceReference,
    assignments: Option<&Vec<Assignment>>,
    current_time: &NaiveDateTime,
    schedule_state: bool,
) -> (r: AssignmentType)
    ensures
        r == assigned_type(
            opt_assignments_ref_view(assignments),
            resource@,
            *current_time,
            schedule_state,
        ),
{
    let fallback = if schedule_state {
        AssignmentType::Work
    } else {
        AssignmentType::Sleep
    };
    match assignments {
        None => fallback,
        Some(list) => {
            let ghost s = list@.map_values(|x: Assignment| x@);
            assert(s.subrange(0, s.len() as int) =~= s);
            let mut i: usize = list.len();
            while i > 0
                invariant
                    i <= list@.len(),
                    s == list@.map_values(|x: Assignment| x@),
                    last_applying(s, resource@, *current_time) == last_applying(
                        s.subrange(0, i as int),
                        resource@,
                        *current_time,
                    ),
                decreases i,
            {
                let ghost prefix = s.subrange(0, i as int);
                assert(prefix.drop_last() =~= s.subrange(0, i - 1));
                assert(prefix.last() == list@[i - 1]@);
                let assignment = &list[i - 1];
                let applies = assignment.is_active_at(current_time) && match &assignment.resource_filter {
                    Some(filter) => filter.matches(resource),
                    None => true,
                };
                assert(applies == assignment_applies(prefix.last(), resource@, *current_time));
                if applies {
                    return assignment.ty;
                }
                i = i - 1;
            }
            assert(s.subrange(0, 0) =~= Seq::<AssignmentView>::empty());
            fallback
        },
    }
}

/// Whether a policy's patterns compile with the `regex` crate.
pub uninterp spec fn regex_compiles(pattern: Seq<char>) -> bool;

/// Whether the compiled pattern finds a match anywhere in the text.
pub uninterp spec fn regex_finds(pattern: Seq<char>, haystack: Seq<char>) -> bool;

#[verifier::external_type_specification]
#[verifier::external_body]
pub struct ExRegex(regex::Regex);

/// A regular expression of namespace names, with the text it was compiled
/// from.
pub struct NamePattern {
    source: String,
    regex: regex::Regex,
}

impl NamePattern {
    /// The text the pattern was compiled from.
    pub closed spec fn source(&self) -> Seq<char> {
        self.source@
    }

    /// `Regex::new`: the compiled pattern, `None` when the pattern is
    /// invalid or too large.
    #[verifier::external_body]
    fn compile(pattern: &str) -> (r: Option<NamePattern>)
        ensures
            r is Some <==> regex_compiles(pattern@),
            r matches Some(p) ==> p.source() == pattern@,
    {
        match regex::Regex::new(pattern) {
            Ok(regex) => Some(NamePattern { source: pattern.to_string(), regex }),
            Err(_) => None,
        }
    }

    /// `Regex::is_match`: whether the pattern matches somewhere in `name`.
    #[verifier::external_body]
    fn is_match(&self, name: &str) -> (r: bool)
        ensures
            r == regex_finds(self.source(), name@),
    {
        self.regex.is_match(name)
    }
}

/// The patterns that compile, in their order.
pub open spec fn compiling_patterns(names: Seq<Seq<char>>) -> Seq<Seq<char>>
    decreases names.len(),
{
    if names.len() == 0 {
        Seq::empty()
    } else if regex_compiles(names.last()) {
        compiling_patterns(names.drop_last()).push(names.last())
    } else {
        compiling_patterns(names.drop_last())
    }
}

/// The texts of a list of patterns.
pub open spec fn pattern_sources(ps: Seq<NamePattern>) -> Seq<Seq<char>> {
    ps.map_values(|p: NamePattern| p.source())
}

/// The patterns of the names, those that do not compile left out.
pub fn compile_name_patterns(names: &Vec<String>) -> (r: Vec<NamePattern>)
    ensures
        pattern_sources(r@) == compiling_patterns(string_views(names@)),
{
    let mut patterns: Vec<NamePattern> = Vec::new();
    let mut i: usize = 0;
    while i < names.len()
        invariant
            i <= names@.len(),
            pattern_sources(patterns@) == compiling_patterns(
                string_views(names@.subrange(0, i as int)),
            ),
        decreases names@.len() - i,
    {
        let ghost before = string_views(names@.subrange(0, i as int));
        let ghost after = string_views(names@.subrange(0, i + 1));
        assert(after.drop_last() =~= before);
        assert(after.last() == names@[i as int]@);
        match NamePattern::compile(names[i].as_str()) {
            Some(p) => {
                patterns.push(p);
                assert(pattern_sources(patterns@) =~= compiling_patterns(before).push(
                    names@[i as int]@,
                ));
            },
            None => {},
        }
        i = i + 1;
    }
    assert(names@.subrange(0, names@.len() as int) =~= names@);
    patterns
}

/// Some pattern finds a match in the name.
pub open spec fn name_selected(patterns: Seq<Seq<char>>, name: Seq<char>) -> bool {
    exists|j: int| 0 <= j < patterns.len() && regex_finds(#[trigger] patterns[j], name)
}

/// The names that some pattern matches, in their order.
pub open spec fn names_matching(names: Seq<Seq<char>>, patterns: Seq<Seq<char>>) -> Seq<Seq<char>>
    decreases names.len(),
{
    if names.len() == 0 {
        Seq::empty()
    } else if name_selected(patterns, names.last()) {
        names_matching(names.drop_last(), patterns).push(names.last())
    } else {
        names_matching(names.drop_last(), patterns)
    }
}

fn any_pattern_matches(patterns: &Vec<NamePattern>, name: &str) -> (r: bool)
    ensures
        r == name_selected(pattern_sources(patterns@), name@),
{
    let ghost ps = pattern_sources(patterns@);
    let mut j: usize = 0;
    while j < patterns.len()
        invariant
            j <= patterns@.len(),
            ps == pattern_sources(patterns@),
            forall|k: int| 0 <= k < j ==> !regex_finds(#[trigger] ps[k], name@),
        decreases patterns@.len() - j,
    {
        if patterns[j].is_match(name) {
            assert(regex_finds(ps[j as int], name@));
            return true;
        }
        j = j + 1;
    }
    false
}

/// The label selector of `key=value` terms of a list of entries, in their
/// order.
pub open spec fn labels_selector_text(entries: Seq<(Seq<char>, Seq<char>)>) -> Seq<char> {
    seq_join(entries.map_values(|e: (Seq<char>, Seq<char>)| e.0 + seq!['='] + e.1), ","@)
}

/// The label selector that a namespace selector sends to the API server:
/// none for names, the `key=value` terms of the labels in ascending key
/// order, or the selectors of the expressions, joined by commas.
pub open spec fn label_selector_of(selector: NamespaceSelector) -> Option<Seq<char>> {
    match selector {
        NamespaceSelector::MatchNames(_) => None,
        NamespaceSelector::MatchLabels(labels) => Some(labels_selector_text(ascending_entries(labels@))),
        NamespaceSelector::MatchExpressions(exprs) => Some(
            seq_join(
                exprs@.map_values(|e: crate::kubesitter::model::LabelSelectorRequirement|
                    label_selector_text(e@)),
                ","@,
            ),
        ),
    }
}

/// How to find the namespaces of a selector: the label selector to list
/// them with, and the patterns that their names must match.
pub struct NamespaceQuery {
    pub label_selector: Option<String>,
    pub name_patterns: Option<Vec<NamePattern>>,
}

/// The query of a namespace selector: the names' patterns that compile
/// (invalid ones are skipped), or the label selector of the labels or
/// expressions.
pub fn namespace_query(selector: &NamespaceSelector) -> (r: NamespaceQuery)
    ensures
        opt_string_view(r.label_selector) == label_selector_of(*selector),
        match *selector {
            NamespaceSelector::MatchNames(names) => r.name_patterns matches Some(ps)
                && pattern_sources(ps@) == compiling_patterns(string_views(names@)),
            _ => r.name_patterns is None,
        },
{
    match selector {
        NamespaceSelector::MatchNames(names) => NamespaceQuery {
            label_selector: None,
            name_patterns: Some(compile_name_patterns(names)),
        },
        NamespaceSelector::MatchLabels(labels) => {
            let entries = labels.entries();
            let ghost es = labels.entries_view();
            let mut terms: Vec<String> = Vec::new();
            let mut i: usize = 0;
            while i < entries.len()
                invariant
                    i <= entries@.len(),
                    es == entry_views(entries@),
                    terms@.len() == i,
                    forall|j: int|
                        0 <= j < i ==> #[trigger] terms@[j]@ == es[j].0 + seq!['='] + es[j].1,
                decreases entries@.len() - i,
            {
                let mut term = entries[i].0.clone();
                term.append("=");
                term.append(entries[i].1.as_str());
                proof {
                    reveal_strlit("=");
                }
                terms.push(term);
                i = i + 1;
            }
            assert(string_views(terms@) =~= es.map_values(
                |e: (Seq<char>, Seq<char>)| e.0 + seq!['='] + e.1,
            ));
            NamespaceQuery { label_selector: Some(join(&terms, ",")), name_patterns: None }
        },
        NamespaceSelector::MatchExpressions(exprs) => {
            let mut terms: Vec<String> = Vec::new();
            let mut i: usize = 0;
            while i < exprs.len()
                invariant
                    i <= exprs@.len(),
                    terms@.len() == i,
                    forall|j: int|
                        0 <= j < i ==> #[trigger] terms@[j]@ == label_selector_text(exprs@[j]@),
                decreases exprs@.len() - i,
            {
                terms.push(exprs[i].to_label_selector());
                i = i + 1;
            }
            assert(string_views(terms@) =~= exprs@.map_values(
                |e: crate::kubesitter::model::LabelSelectorRequirement| label_selector_text(e@),
            ));
            NamespaceQuery { label_selector: Some(join(&terms, ",")), name_patterns: None }
        },
    }
}

/// The query of a policy's namespaces; none for a suspended policy, whose
/// namespaces are left alone.
pub fn namespace_query_for(spec: &SchedulePolicySpec) -> (r: Option<NamespaceQuery>)
    ensures
        r is None <==> spec.suspend,
        r matches Some(q) ==> opt_string_view(q.label_selector) == label_selector_of(
            spec.namespace_selector,
        ),
        r matches Some(q) ==> match spec.namespace_selector {
            NamespaceSelector::MatchNames(names) => q.name_patterns matches Some(ps)
                && pattern_sources(ps@) == compiling_patterns(string_views(names@)),
            _ => q.name_patterns is None,
        },
{
    if spec.suspend {
        None
    } else {
        Some(namespace_query(&spec.namespace_selector))
    }
}

/// The names among those listed that the query keeps: all of them without
/// patterns, else those that one of the patterns matches.
pub open spec fn selected_names(patterns: Option<Seq<Seq<char>>>, names: Seq<Seq<char>>) -> Seq<
    Seq<char>,
> {
    match patterns {
        None => names,
        Some(ps) => names_matching(names, ps),
    }
}

/// The patterns of a query.
pub open spec fn query_patterns(q: NamespaceQuery) -> Option<Seq<Seq<char>>> {
    match q.name_patterns {
        Some(ps) => Some(pattern_sources(ps@)),
        None => None,
    }
}

/// The namespaces, among those the label selector listed, that the query
/// selects: a name is kept when any pattern matches it.
pub fn select_namespace_names(query: &NamespaceQuery, names: Vec<String>) -> (r: Vec<String>)
    ensures
        string_views(r@) == selected_names(query_patterns(*query), string_views(names@)),
{
    match &query.name_patterns {
        None => names,
        Some(patterns) => {
            let ghost ps = pattern_sources(patterns@);
            let mut kept: Vec<String> = Vec::new();
            let mut i: usize = 0;
            while i < names.len()
                invariant
                    i <= names@.len(),
                    ps == pattern_sources(patterns@),
                    string_views(kept@) == names_matching(
                        string_views(names@.subrange(0, i as int)),
                        ps,
                    ),
                decreases names@.len() - i,
            {
                let ghost before = string_views(names@.subrange(0, i as int));
                let ghost after = string_views(names@.subrange(0, i + 1));
                assert(after.drop_last() =~= before);
                assert(after.last() == names@[i as int]@);
                if any_pattern_matches(patterns, names[i].as_str()) {
                    kept.push(names[i].clone());
                    assert(string_views(kept@) =~= names_matching(before, ps).push(
                        names@[i as int]@,
                    ));
                }
                i = i + 1;
            }
            assert(names@.subrange(0, names@.len() as int) =~= names@);
            kept
        },
    }
}

/// The state that an assignment type asks for: awake for work, asleep for
/// sleep, none for skip.
pub open spec fn desired_state_of(ty: AssignmentType) -> Option<bool> {
    match ty {
        AssignmentType::Work => Some(true),
        AssignmentType::Sleep => Some(false),
        AssignmentType::Skip => None,
    }
}

/// The desired state of each namespace that is not skipped, in order.
pub open spec fn namespace_states(
    spec: SchedulePolicySpecView,
    names: Seq<Seq<char>>,
    t: NaiveDateTime,
) -> Seq<(Seq<char>, bool)>
    decreases names.len(),
{
    if names.len() == 0 {
        Seq::empty()
    } else {
        let before = namespace_states(spec, names.drop_last(), t);
        let schedule_state = schedule_active(spec.schedule, t.weekday_spec(), t.time);
        match desired_state_of(
            assigned_type(
                spec.assignments,
                namespace_reference(names.last()),
                t,
                schedule_state,
            ),
        ) {
            Some(b) => before.push((names.last(), b)),
            None => before,
        }
    }
}

/// The views of a list of namespace states.
pub open spec fn states_view(v: Seq<(String, bool)>) -> Seq<(Seq<char>, bool)> {
    v.map_values(|e: (String, bool)| (e.0@, e.1))
}

/// The desired state of each selected namespace at the local time
/// `current_time`; skipped namespaces are left out.
pub fn desired_namespace_states(
    spec: &SchedulePolicySpec,
    names: &Vec<String>,
    current_time: &NaiveDateTime,
) -> (r: Vec<(String, bool)>)
    ensures
        states_view(r@) == namespace_states(spec@, string_views(names@), *current_time),
{
    let schedule_state = schedule_active_at(&spec.schedule, current_time);
    let mut states: Vec<(String, bool)> = Vec::new();
    let mut i: usize = 0;
    while i < names.len()
        invariant
            i <= names@.len(),
            schedule_state == schedule_active(
                spec@.schedule,
                current_time.weekday_spec(),
                current_time.time,
            ),
            states_view(states@) == namespace_states(
                spec@,
                string_views(names@.subrange(0, i as int)),
                *current_time,
            ),
        decreases names@.len() - i,
    {
        let ghost before = string_views(names@.subrange(0, i as int));
        let ghost after = string_views(names@.subrange(0, i + 1));
        assert(after.drop_last() =~= before);
        assert(after.last() == names@[i as int]@);
        let reference = ResourceReference::new_namespace(names[i].as_str());
        let assignments = spec.assignments.as_ref();
        assert(opt_assignments_ref_view(assignments) == spec@.assignments);
        let ty = determine_assignment_type(&reference, assignments, current_time, schedule_state);
        match ty {
            AssignmentType::Work => {
                states.push((names[i].clone(), true));
                assert(states_view(states@) =~= namespace_states(spec@, before, *current_time).push(
                    (names@[i as int]@, true),
                ));
            },
            AssignmentType::Sleep => {
                states.push((names[i].clone(), false));
                assert(states_view(states@) =~= namespace_states(spec@, before, *current_time).push(
                    (names@[i as int]@, false),
                ));
            },
            AssignmentType::Skip => {},
        }
        i = i + 1;
    }
    assert(names@.subrange(0, names@.len() as int) =~= names@);
    states
}

/// What reconciling a policy's resources does with the selected
/// namespaces at the instant `now`: nothing for a suspended policy; else
/// each namespace that is not skipped with its desired state at the local
/// time of the policy's zone, or the error of that zone.
pub open spec fn policy_plan(
    spec: SchedulePolicySpecView,
    names: Seq<Seq<char>>,
    now: UtcDateTime,
) -> Result<Seq<(Seq<char>, bool)>, ErrorView> {
    if spec.suspend {
        Ok(Seq::empty())
    } else {
        match local_time_spec(now, spec.time_zone) {
            Ok(t) => Ok(namespace_states(spec, names, t)),
            Err(e) => Err(e),
        }
    }
}

/// The view of a plan.
pub open spec fn plan_view(r: Result<Vec<(String, bool)>, Error>) -> Result<
    Seq<(Seq<char>, bool)>,
    ErrorView,
> {
    match r {
        Ok(v) => Ok(states_view(v@)),
        Err(e) => Err(e@),
    }
}

/// The namespaces of a policy to wake (`true`) or put to sleep (`false`)
/// at the instant `now`, among those selected.
pub fn plan_policy_resources(spec: &SchedulePolicySpec, names: &Vec<String>, now: &UtcDateTime) -> (r:
    Result<Vec<(String, bool)>, Error>)
    requires
        now.wf(),
        spec.time_zone matches Some(z) ==> fixed_offset_fits(z@),
    ensures
        plan_view(r) == policy_plan(spec@, string_views(names@), *now),
{
    if spec.suspend {
        let none: Vec<(String, bool)> = Vec::new();
        assert(states_view(none@) =~= Seq::<(Seq<char>, bool)>::empty());
        return Ok(none);
    }
    let current_time = match convert_to_local_time(now, spec.time_zone.as_ref()) {
        Ok(t) => t,
        Err(e) => return Err(e),
    };
    Ok(desired_namespace_states(spec, names, &current_time))
}

/// A workload of a namespace that a schedule wakes and puts to sleep.
pub enum Workload {
    Deployment(Deployment),
    StatefulSet(StatefulSet),
    ReplicaSet(ReplicaSet),
    ReplicationController(ReplicationController),
    CronJob(CronJob),
    DaemonSet(DaemonSet),
}

impl Workload {
    /// The workload's metadata.
    pub open spec fn meta(&self) -> ObjectMeta {
        match self {
            Workload::Deployment(w) => w.metadata,
            Workload::StatefulSet(w) => w.metadata,
            Workload::ReplicaSet(w) => w.metadata,
            Workload::ReplicationController(w) => w.metadata,
            Workload::CronJob(w) => w.metadata,
            Workload::DaemonSet(w) => w.metadata,
        }
    }
}

/// The workload carries the skip annotation.
pub open spec fn is_skipped(meta: ObjectMeta) -> bool {
    meta.annotations_view().contains_key(SKIP_ANNOTATION@)
}

/// The patch that brings a workload to the desired state; none for a
/// workload that carries the skip annotation.
pub open spec fn workload_patch(w: Workload, desired_state: bool) -> Option<PatchView> {
    if is_skipped(w.meta()) {
        None
    } else {
        match w {
            Workload::Deployment(d) => replicas_patch(
                "apps/v1"@,
                "Deployment"@,
                d.metadata.annotations_view(),
                spec_replicas(d.spec),
                desired_state,
            ),
            Workload::StatefulSet(d) => replicas_patch(
                "apps/v1"@,
                "StatefulSet"@,
                d.metadata.annotations_view(),
                spec_replicas(d.spec),
                desired_state,
            ),
            Workload::ReplicaSet(d) => if d.metadata.owner_references is Some {
                None
            } else {
                replicas_patch(
                    "apps/v1"@,
                    "ReplicaSet"@,
                    d.metadata.annotations_view(),
                    spec_replicas(d.spec),
                    desired_state,
                )
            },
            Workload::ReplicationController(d) => replicas_patch(
                "v1"@,
                "ReplicationController"@,
                d.metadata.annotations_view(),
                spec_replicas(d.spec),
                desired_state,
            ),
            Workload::CronJob(c) => cron_job_patch(
                c.metadata.annotations_view(),
                cron_job_suspend(c.spec),
                desired_state,
            ),
            Workload::DaemonSet(d) => daemon_set_patch(
                d.metadata.annotations_view(),
                pod_node_selector(d.spec),
                desired_state,
            ),
        }
    }
}

/// The patch to send for a workload of a namespace whose desired state is
/// `desired_state`.
pub fn plan_workload_patch(workload: &Workload, desired_state: bool) -> (r: Option<Patch>)
    ensures
        opt_patch_view(r) == workload_patch(*workload, desired_state),
{
    let meta = match workload {
        Workload::Deployment(w) => &w.metadata,
        Workload::StatefulSet(w) => &w.metadata,
        Workload::ReplicaSet(w) => &w.metadata,
        Workload::ReplicationController(w) => &w.metadata,
        Workload::CronJob(w) => &w.metadata,
        Workload::DaemonSet(w) => &w.metadata,
    };
    if meta.annotation(SKIP_ANNOTATION).is_some() {
        return None;
    }
    match workload {
        Workload::Deployment(w) => generate_deployment_patch(w, desired_state),
        Workload::StatefulSet(w) => generate_stateful_set_patch(w, desired_state),
        Workload::ReplicaSet(w) => generate_replica_set_patch(w, desired_state),
        Workload::ReplicationController(w) => generate_replication_controller_patch(
            w,
            desired_state,
        ),
        Workload::CronJob(w) => generate_cron_job_patch(w, desired_state),
        Workload::DaemonSet(w) => generate_daemon_set_patch(w, desired_state),
    }
}

} // verus!
