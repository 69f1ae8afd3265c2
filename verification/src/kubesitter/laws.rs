//! Properties that hold across the operator's decisions: what a patch
//! undoes of another, when a decision repeats nothing, which assignment
//! wins and when an assignment holds, how weekdays follow each other, when
//! a schedule asks for work, which namespaces a selector keeps, and what
//! the controller and the synchronisation do on a second look.
use vstd::prelude::*;

use super::controller::{applied_step, ReconcileStep};
use super::model::{
    assignment_active, has_pause, is_named_namespace, namespace_reference, pause_assignment,
    policy_assignments, resource_name_of, AssignmentType, AssignmentView, ResourceFilterView,
    ResourceReferenceView, SchedulePolicy, SchedulePolicyStatus,
};
use super::resources_logic::apps::{
    daemon_set_patch, replicas_patch, sleeping_node_selector_view, woken_node_selector,
    SLEEPING_NODE_SELECTOR_KEY,
};
use super::resources_logic::batch::cron_job_patch;
use super::resources_logic::core_logic::{
    assigned_type, assignment_applies, filter_matches, is_skipped, labels_selector_text,
    last_applying, name_selected, names_matching, workload_patch, Workload,
};
use crate::controller::SchedulePolicySpec;
use crate::schedule_controller::kubesitter::policy_namespace_plan;
use crate::string_map::{ascending_entries, keys_ascending, lemma_ascending_entries_of, map_of_entries};
use crate::time::{weekday_of_day, NaiveDateTime, NaiveTime, UtcDateTime, Weekday};
use crate::work_time::{schedule_active, work_time_covers, WorkTimeView};
use crate::controller::kubesitter::selector_text;
use crate::controller::{requirement_text, values_view};
use crate::text::{lemma_seq_join_holds_each_part, seq_join};
use super::model::{label_selector_text, LabelSelectorRequirement, NamespaceSelector};
use super::resources_logic::core_logic::label_selector_of;
use crate::schedule_controller::kubesitter::legacy_replicas_patch;
use super::resources_logic::{NODE_SELECTOR_ANNOTATION, REPLICAS_ANNOTATION, SUSPENDED_ANNOTATION};
use crate::resources::{AnnotationValueView, PatchView, SpecPatchView};
use crate::string_map::{json_optional_string_map, json_text_of_optional_map};
use crate::text::{int_decimal, lemma_parse_decimal_i32, parse_i32_spec};
use super::uniskai::{needs_reconcile_spec, sync_after, CONNECTION_FAILURE_THRESHOLD};
use crate::uniskai_sdk::{CloudsitterPolicyView, CloudsitterResource};

verus! {

/// Putting a scalable workload with `replicas` replicas to sleep sets zero
/// replicas and records the count in the replicas annotation; once that
/// patch is applied, waking the workload sets the recorded count again.
pub proof fn law_sleep_then_wake_restores_replicas(
    api_version: Seq<char>,
    kind: Seq<char>,
    annotations: Map<Seq<char>, Seq<char>>,
    replicas: i32,
)
    requires
        replicas != 0,
    ensures
        replicas_patch(api_version, kind, annotations, Some(replicas), false) == Some(
            PatchView {
                api_version,
                kind,
                annotations: Some(
                    seq![
                        (REPLICAS_ANNOTATION@, AnnotationValueView::Text(
                            int_decimal(replicas as int),
                        )),
                    ],
                ),
                spec: SpecPatchView::Replicas(0),
            },
        ),
        replicas_patch(
            api_version,
            kind,
            annotations.insert(REPLICAS_ANNOTATION@, int_decimal(replicas as int)),
            Some(0),
            true,
        ) == Some(
            PatchView { api_version, kind, annotations: None, spec: SpecPatchView::Replicas(replicas) },
        ),
{
    lemma_parse_decimal_i32(replicas);
}

/// A workload at zero replicas is not put to sleep again, and a workload
/// that already runs the recorded count is not woken again.
pub proof fn law_replica_patches_repeat_nothing(
    api_version: Seq<char>,
    kind: Seq<char>,
    annotations: Map<Seq<char>, Seq<char>>,
    replicas: i32,
)
    ensures
        replicas_patch(api_version, kind, annotations, Some(0), false) is None,
        annotations.contains_key(REPLICAS_ANNOTATION@) && parse_i32_spec(
            annotations[REPLICAS_ANNOTATION@],
        ) == Some(replicas) ==> replicas_patch(
            api_version,
            kind,
            annotations,
            Some(replicas),
            true,
        ) is None,
{
}

/// Putting a running cron job to sleep suspends it and marks it with the
/// suspended annotation; once that patch is applied, it is not suspended
/// again, and waking it resumes it.
pub proof fn law_cron_job_suspend_then_resume(annotations: Map<Seq<char>, Seq<char>>)
    ensures
        cron_job_patch(annotations, Some(false), false) == Some(
            PatchView {
                api_version: "batch/v1"@,
                kind: "CronJob"@,
                annotations: Some(
                    seq![(SUSPENDED_ANNOTATION@, AnnotationValueView::Text("true"@))],
                ),
                spec: SpecPatchView::Suspend(true),
            },
        ),
        cron_job_patch(annotations.insert(SUSPENDED_ANNOTATION@, "true"@), Some(true), false)
            is None,
        cron_job_patch(annotations.insert(SUSPENDED_ANNOTATION@, "true"@), Some(true), true)
            == Some(
            PatchView {
                api_version: "batch/v1"@,
                kind: "CronJob"@,
                annotations: Some(
                    seq![(SUSPENDED_ANNOTATION@, AnnotationValueView::Text("false"@))],
                ),
                spec: SpecPatchView::Suspend(false),
            },
        ),
{
}

/// Putting a daemon set to sleep always patches it, unless it already
/// carries only the sleeping selector: the patch records the JSON that
/// serde_json writes for its node selector (`null` when it has none) and
/// sets the sleeping selector.
pub proof fn law_daemon_set_sleep_records_selector(
    annotations: Map<Seq<char>, Seq<char>>,
    selector: Option<Map<Seq<char>, Seq<char>>>,
)
    requires
        !(selector matches Some(m) && m.dom().subset_of(sleeping_node_selector_view().dom())),
    ensures
        daemon_set_patch(annotations, Some(selector), false) == Some(
            PatchView {
                api_version: "apps/v1"@,
                kind: "DaemonSet"@,
                annotations: Some(
                    seq![
                        (NODE_SELECTOR_ANNOTATION@, AnnotationValueView::Text(
                            json_text_of_optional_map(selector)->Some_0,
                        )),
                    ],
                ),
                spec: SpecPatchView::NodeSelector(Some(sleeping_node_selector_view())),
            },
        ),
{
}

/// Once the sleep patch of a daemon set is applied, waking it sets the
/// recorded selector again, without the sleeping label. The premise is what
/// `optional_map_to_json` states of every text it writes: serde_json reads
/// the selector back from it; `generate_daemon_set_patch` states the
/// conclusion of every sleep patch it makes.
pub proof fn law_daemon_set_sleep_then_wake_restores_selector(
    annotations: Map<Seq<char>, Seq<char>>,
    selector: Option<Map<Seq<char>, Seq<char>>>,
)
    requires
        json_optional_string_map(json_text_of_optional_map(selector)->Some_0) == Some(selector),
    ensures
        daemon_set_patch(
            annotations.insert(NODE_SELECTOR_ANNOTATION@, json_text_of_optional_map(selector)->Some_0),
            Some(Some(sleeping_node_selector_view())),
            true,
        ) == Some(
            PatchView {
                api_version: "apps/v1"@,
                kind: "DaemonSet"@,
                annotations: None,
                spec: SpecPatchView::NodeSelector(woken_node_selector(selector)),
            },
        ),
{
    let restored = match selector {
        Some(m) => Some(m.remove(SLEEPING_NODE_SELECTOR_KEY@)),
        None => None,
    };
    if let Some(m) = selector {
        assert(!m.remove(SLEEPING_NODE_SELECTOR_KEY@).contains_key(SLEEPING_NODE_SELECTOR_KEY@));
        assert(sleeping_node_selector_view().contains_key(SLEEPING_NODE_SELECTOR_KEY@));
    }
    assert(Some(sleeping_node_selector_view()) != restored);
}

/// A daemon set that already carries only the sleeping selector is not put
/// to sleep again.
pub proof fn law_daemon_set_sleep_repeats_nothing(annotations: Map<Seq<char>, Seq<char>>)
    ensures
        daemon_set_patch(annotations, Some(Some(sleeping_node_selector_view())), false) is None,
{
}

/// A workload that carries the skip annotation gets no patch, whatever the
/// desired state.
pub proof fn law_skipped_workloads_are_left_alone(w: Workload, desired_state: bool)
    requires
        is_skipped(w.meta()),
    ensures
        workload_patch(w, desired_state) is None,
{
}

/// The last assignment that holds for a resource decides what it gets,
/// whatever the schedule and the assignments before it say.
pub proof fn law_last_matching_assignment_wins(
    assignments: Seq<AssignmentView>,
    i: int,
    resource: ResourceReferenceView,
    t: crate::time::NaiveDateTime,
    schedule_state: bool,
)
    requires
        0 <= i < assignments.len(),
        assignment_applies(assignments[i], resource, t),
        forall|j: int| i < j < assignments.len() ==> !assignment_applies(#[trigger] assignments[j], resource, t),
    ensures
        assigned_type(Some(assignments), resource, t, schedule_state) == assignments[i].ty,
    decreases assignments.len(),
{
    if i < assignments.len() - 1 {
        let shorter = assignments.drop_last();
        assert(!assignment_applies(assignments[assignments.len() - 1], resource, t));
        assert forall|j: int| i < j < shorter.len() implies !assignment_applies(
            #[trigger] shorter[j],
            resource,
            t,
        ) by {
            assert(shorter[j] == assignments[j]);
        }
        law_last_matching_assignment_wins(shorter, i, resource, t, schedule_state);
    }
}

/// Without an assignment that holds for a resource, the schedule decides:
/// work when it is on, sleep when it is off.
pub proof fn law_schedule_decides_without_assignment(
    assignments: Seq<AssignmentView>,
    resource: ResourceReferenceView,
    t: crate::time::NaiveDateTime,
    schedule_state: bool,
)
    requires
        forall|j: int| 0 <= j < assignments.len() ==> !assignment_applies(#[trigger] assignments[j], resource, t),
    ensures
        assigned_type(Some(assignments), resource, t, schedule_state) == (if schedule_state {
            AssignmentType::Work
        } else {
            AssignmentType::Sleep
        }),
    decreases assignments.len(),
{
    if assignments.len() > 0 {
        let shorter = assignments.drop_last();
        assert(!assignment_applies(assignments[assignments.len() - 1], resource, t));
        assert forall|j: int| 0 <= j < shorter.len() implies !assignment_applies(
            #[trigger] shorter[j],
            resource,
            t,
        ) by {
            assert(shorter[j] == assignments[j]);
        }
        law_schedule_decides_without_assignment(shorter, resource, t, schedule_state);
    }
}

/// The name patterns of a selector are ORed: a listed namespace is kept
/// exactly when one of the patterns matches its name.
pub proof fn law_namespace_kept_iff_some_pattern_matches(
    names: Seq<Seq<char>>,
    patterns: Seq<Seq<char>>,
    name: Seq<char>,
)
    ensures
        names_matching(names, patterns).contains(name) <==> (names.contains(name) && name_selected(
            patterns,
            name,
        )),
    decreases names.len(),
{
    if names.len() > 0 {
        let shorter = names.drop_last();
        let last = names.last();
        law_namespace_kept_iff_some_pattern_matches(shorter, patterns, name);
        let kept = names_matching(shorter, patterns);
        let result = names_matching(names, patterns);
        assert(names[names.len() - 1] == last);
        if name_selected(patterns, last) {
            assert(result == kept.push(last));
        } else {
            assert(result == kept);
        }
        if names.contains(name) && name_selected(patterns, name) {
            let k = choose|k: int| 0 <= k < names.len() && names[k] == name;
            if k < names.len() - 1 {
                assert(shorter[k] == name);
                assert(kept.contains(name));
                let k2 = choose|k2: int| 0 <= k2 < kept.len() && kept[k2] == name;
                assert(kept.push(last)[k2] == name);
            } else {
                assert(kept.push(last)[kept.len() as int] == name);
            }
            assert(result.contains(name));
        }
        if result.contains(name) {
            let k = choose|k: int| 0 <= k < result.len() && result[k] == name;
            if name_selected(patterns, last) && k == kept.len() {
                assert(name == last);
            } else {
                assert(kept[k] == name);
                assert(kept.contains(name));
                let k3 = choose|k3: int| 0 <= k3 < shorter.len() && shorter[k3] == name;
                assert(names[k3] == name);
            }
        }
    }
}

/// The label selector of a label map lists its `key=value` terms in
/// ascending key order, whatever order the labels were set in: the map that
/// entries in ascending key order hold gives back those entries.
pub proof fn law_label_selector_in_key_order(entries: Seq<(Seq<char>, Seq<char>)>)
    requires
        keys_ascending(entries),
    ensures
        labels_selector_text(ascending_entries(map_of_entries(entries))) == labels_selector_text(
            entries,
        ),
{
    lemma_ascending_entries_of(entries);
}

/// A suspended policy of the second generation wakes and puts to sleep no
/// namespace.
pub proof fn law_suspended_policy_plans_nothing(
    spec: SchedulePolicySpec,
    names: Seq<Seq<char>>,
    now: UtcDateTime,
)
    requires
        spec.suspend,
    ensures
        policy_namespace_plan(spec, names, now) == Ok::<Seq<(Seq<char>, bool)>, crate::error::ErrorView>(
            Seq::empty(),
        ),
{
}

/// Once the controller has written a policy's status, a second reconcile
/// of the same policy publishes no suspend event: the event is published
/// once per suspension.
pub proof fn law_suspend_event_published_once(policy: SchedulePolicy, step: ReconcileStep)
    requires
        policy.status == Some(SchedulePolicyStatus { suspended: policy.spec.suspend }),
        applied_step(policy, step),
    ensures
        step matches ReconcileStep::Apply { suspend_event, .. } && suspend_event is None,
{
}

/// Once a policy has been remembered, the same policy needs no reconcile,
/// and any other version of it under the same ID does.
pub proof fn law_remembered_policy_is_current(
    known: Map<i64, CloudsitterPolicyView>,
    policy: CloudsitterPolicyView,
    other: CloudsitterPolicyView,
)
    ensures
        !needs_reconcile_spec(known.insert(policy.id, policy), policy),
        other.id == policy.id && other != policy ==> needs_reconcile_spec(
            known.insert(policy.id, policy),
            other,
        ),
{
}

/// A policy whose reconcile failed is not remembered, so it is reconciled
/// again in the next round: remembering the other policies of the round
/// leaves it to be applied.
pub proof fn law_failed_reconcile_is_retried(
    known: Map<i64, CloudsitterPolicyView>,
    policy: CloudsitterPolicyView,
    others: Seq<CloudsitterPolicyView>,
)
    requires
        needs_reconcile_spec(known, policy),
        forall|i: int| 0 <= i < others.len() ==> (#[trigger] others[i]).id != policy.id,
    ensures
        needs_reconcile_spec(remembered_all(known, others), policy),
    decreases others.len(),
{
    if others.len() > 0 {
        law_failed_reconcile_is_retried(known, policy, others.drop_last());
        assert(others[others.len() - 1].id != policy.id);
    }
}

/// The known policies after remembering each of `others` in turn.
pub open spec fn remembered_all(
    known: Map<i64, CloudsitterPolicyView>,
    others: Seq<CloudsitterPolicyView>,
) -> Map<i64, CloudsitterPolicyView>
    decreases others.len(),
{
    if others.len() == 0 {
        known
    } else {
        remembered_all(known, others.drop_last()).insert(others.last().id, others.last())
    }
}

/// The failed listings at the end of `rounds` (`true` for a success).
pub open spec fn trailing_failures(rounds: Seq<bool>) -> nat
    decreases rounds.len(),
{
    if rounds.len() == 0 {
        0
    } else if rounds.last() {
        0
    } else {
        trailing_failures(rounds.drop_last()) + 1
    }
}

proof fn lemma_sync_counts_trailing_failures(initial: bool, threshold: nat, rounds: Seq<bool>)
    ensures
        sync_after(initial, threshold, rounds).0 == trailing_failures(rounds),
    decreases rounds.len(),
{
    if rounds.len() > 0 {
        lemma_sync_counts_trailing_failures(initial, threshold, rounds.drop_last());
    }
}

/// The last three listings failed.
pub open spec fn last_three_failed(rounds: Seq<bool>) -> bool {
    rounds.len() >= 3 && !rounds[rounds.len() - 1] && !rounds[rounds.len() - 2]
        && !rounds[rounds.len() - 3]
}

proof fn lemma_three_trailing_failures(rounds: Seq<bool>)
    ensures
        trailing_failures(rounds) >= 3 <==> last_three_failed(rounds),
{
    reveal_with_fuel(trailing_failures, 4);
    let n = rounds.len() as int;
    if n >= 1 && !rounds[n - 1] {
        let r1 = rounds.drop_last();
        assert(r1.len() == n - 1);
        if n >= 2 && !rounds[n - 2] {
            assert(r1.last() == rounds[n - 2]);
            let r2 = r1.drop_last();
            if n >= 3 {
                assert(r2.last() == rounds[n - 3]);
            }
        } else if n >= 2 {
            assert(r1.last() == rounds[n - 2]);
        }
    }
}

/// Starting connected, Uniskai counts as disconnected exactly when the last
/// three listings failed: more than `CONNECTION_FAILURE_THRESHOLD` (2)
/// failures in a row disconnect it, and any success connects it again.
pub proof fn law_disconnected_after_three_failures_in_a_row(rounds: Seq<bool>)
    ensures
        sync_after(true, CONNECTION_FAILURE_THRESHOLD as nat, rounds).1 == !last_three_failed(
            rounds,
        ),
    decreases rounds.len(),
{
    let t = CONNECTION_FAILURE_THRESHOLD as nat;
    lemma_three_trailing_failures(rounds);
    lemma_sync_counts_trailing_failures(true, t, rounds);
    if rounds.len() > 0 && !rounds.last() {
        let prev = rounds.drop_last();
        law_disconnected_after_three_failures_in_a_row(prev);
        lemma_three_trailing_failures(prev);
        lemma_sync_counts_trailing_failures(true, t, prev);
    }
}

proof fn lemma_policy_assignments_work(rs: Seq<CloudsitterResource>, tz: Seq<char>)
    ensures
        forall|i: int|
            0 <= i < policy_assignments(rs, tz).len() ==> (#[trigger] policy_assignments(rs, tz)[i]).ty
                == AssignmentType::Work,
    decreases rs.len(),
{
    if rs.len() > 0 {
        lemma_policy_assignments_work(rs.drop_last(), tz);
    }
}

proof fn lemma_pause_assignment_listed(rs: Seq<CloudsitterResource>, tz: Seq<char>, k: int)
    requires
        0 <= k < rs.len(),
        is_named_namespace(rs[k]),
        has_pause(rs[k]),
    ensures
        policy_assignments(rs, tz).contains(pause_assignment(rs[k], tz)),
    decreases rs.len(),
{
    let shorter = rs.drop_last();
    let before = policy_assignments(shorter, tz);
    if k == rs.len() - 1 {
        assert(policy_assignments(rs, tz) == before.push(pause_assignment(rs[k], tz)));
        assert(before.push(pause_assignment(rs[k], tz))[before.len() as int] == pause_assignment(
            rs[k],
            tz,
        ));
    } else {
        assert(shorter[k] == rs[k]);
        lemma_pause_assignment_listed(shorter, tz, k);
        let i = choose|i: int| 0 <= i < before.len() && before[i] == pause_assignment(rs[k], tz);
        if is_named_namespace(rs.last()) && has_pause(rs.last()) {
            assert(policy_assignments(rs, tz) == before.push(pause_assignment(rs.last(), tz)));
            assert(before.push(pause_assignment(rs.last(), tz))[i] == before[i]);
        }
    }
}

proof fn lemma_work_assignment_applies(
    s: Seq<AssignmentView>,
    resource: ResourceReferenceView,
    t: crate::time::NaiveDateTime,
    i: int,
)
    requires
        forall|j: int| 0 <= j < s.len() ==> (#[trigger] s[j]).ty == AssignmentType::Work,
        0 <= i < s.len(),
        assignment_applies(s[i], resource, t),
    ensures
        last_applying(s, resource, t) == Some(AssignmentType::Work),
    decreases s.len(),
{
    if !assignment_applies(s.last(), resource, t) {
        assert(i < s.len() - 1);
        assert(s.drop_last()[i] == s[i]);
        lemma_work_assignment_applies(s.drop_last(), resource, t, i);
    } else {
        assert(s[s.len() - 1].ty == AssignmentType::Work);
    }
}

/// A namespace of a Cloudsitter policy that is paused is awake during its
/// pause: the assignment made from the pause holds for it, and every
/// assignment made from a policy asks for work.
pub proof fn law_paused_namespace_is_awake_during_its_pause(
    rs: Seq<CloudsitterResource>,
    tz: Seq<char>,
    k: int,
    t: crate::time::NaiveDateTime,
    schedule_state: bool,
)
    requires
        0 <= k < rs.len(),
        is_named_namespace(rs[k]),
        has_pause(rs[k]),
        assignment_active(pause_assignment(rs[k], tz), t),
    ensures
        assigned_type(
            Some(policy_assignments(rs, tz)),
            namespace_reference(resource_name_of(rs[k])->Some_0),
            t,
            schedule_state,
        ) == AssignmentType::Work,
{
    let s = policy_assignments(rs, tz);
    let reference = namespace_reference(resource_name_of(rs[k])->Some_0);
    lemma_policy_assignments_work(rs, tz);
    lemma_pause_assignment_listed(rs, tz, k);
    let i = choose|i: int| 0 <= i < s.len() && s[i] == pause_assignment(rs[k], tz);
    let refs = seq![reference];
    assert(refs[0] == reference);
    assert(filter_matches(ResourceFilterView::MatchResources(refs), reference));
    assert(assignment_applies(s[i], reference, t));
    lemma_work_assignment_applies(s, reference, t, i);
}

/// The weekday of a day number advances by one each day, and 0001-01-01
/// (day 1) was a Monday.
pub proof fn law_weekday_advances_daily(d: int)
    ensures
        weekday_of_day(d) < 7,
        weekday_of_day(d + 1) == (weekday_of_day(d) + 1) % 7,
        weekday_of_day(1) == 0,
{
    assert(((d + 1) + 6) % 7 == (((d + 6) % 7) + 1) % 7) by {
        vstd::arithmetic::div_mod::lemma_add_mod_noop(d + 6, 1, 7);
    }
}

/// The same weekday comes back every seven days.
pub proof fn law_weekday_repeats_weekly(d: int)
    ensures
        weekday_of_day(d + 7) == weekday_of_day(d),
{
    vstd::arithmetic::div_mod::lemma_mod_add_multiples_vanish(d + 6, 7);
}

/// An assignment holds at no moment after its upper bound, nor before its
/// lower bound, whether or not it has the other bound; without bounds it
/// holds at every moment.
pub proof fn law_assignment_holds_only_within_its_bounds(a: AssignmentView, t: NaiveDateTime)
    ensures
        a.to matches Some(to) && !t.le(to) ==> !assignment_active(a, t),
        a.from matches Some(from) && !from.le(t) ==> !assignment_active(a, t),
        a.from is None && a.to is None ==> assignment_active(a, t),
        (a.from matches Some(from) ==> from.le(t)) && (a.to matches Some(to) ==> t.le(to))
            ==> assignment_active(a, t),
{
}

/// An assignment that holds at two moments holds at every moment between
/// them.
pub proof fn law_assignment_holds_between_two_moments(
    a: AssignmentView,
    t1: NaiveDateTime,
    t: NaiveDateTime,
    t2: NaiveDateTime,
)
    requires
        assignment_active(a, t1),
        assignment_active(a, t2),
        t1.le(t),
        t.le(t2),
    ensures
        assignment_active(a, t),
{
}

/// The requirements of a selector are ANDed: its label selector is the text
/// of every requirement, in order, joined by commas, and the text of each
/// requirement stands whole in it.
pub proof fn law_expression_selector_holds_every_requirement(
    exprs: Vec<LabelSelectorRequirement>,
    i: int,
)
    requires
        0 <= i < exprs@.len(),
    ensures
        label_selector_of(NamespaceSelector::MatchExpressions(exprs)) == Some(
            seq_join(
                exprs@.map_values(|e: LabelSelectorRequirement| label_selector_text(e@)),
                ","@,
            ),
        ),
        exists|k: int|
            0 <= k && k + label_selector_text(exprs@[i]@).len() <= label_selector_of(
                NamespaceSelector::MatchExpressions(exprs),
            )->0.len() && #[trigger] label_selector_of(
                NamespaceSelector::MatchExpressions(exprs),
            )->0.subrange(k, k + label_selector_text(exprs@[i]@).len()) == label_selector_text(
                exprs@[i]@,
            ),
{
    let parts = exprs@.map_values(|e: LabelSelectorRequirement| label_selector_text(e@));
    assert(parts[i] == label_selector_text(exprs@[i]@));
    let k = lemma_seq_join_holds_each_part(parts, ","@, i);
    assert(label_selector_of(NamespaceSelector::MatchExpressions(exprs))->0.subrange(
        k,
        k + label_selector_text(exprs@[i]@).len(),
    ) == label_selector_text(exprs@[i]@));
}

/// Waking a scalable workload whose replicas annotation reads `n` sets `n`
/// replicas whatever count it runs, unless it already runs `n`.
pub proof fn law_wake_sets_recorded_replicas(
    api_version: Seq<char>,
    kind: Seq<char>,
    annotations: Map<Seq<char>, Seq<char>>,
    current: i32,
    n: i32,
)
    requires
        annotations.contains_key(REPLICAS_ANNOTATION@),
        parse_i32_spec(annotations[REPLICAS_ANNOTATION@]) == Some(n),
        current != n,
    ensures
        replicas_patch(api_version, kind, annotations, Some(current), true) == Some(
            PatchView { api_version, kind, annotations: None, spec: SpecPatchView::Replicas(n) },
        ),
{
}

/// Putting a scalable workload to sleep does not depend on its
/// annotations.
pub proof fn law_sleep_ignores_annotations(
    api_version: Seq<char>,
    kind: Seq<char>,
    a1: Map<Seq<char>, Seq<char>>,
    a2: Map<Seq<char>, Seq<char>>,
    current: Option<i32>,
)
    ensures
        replicas_patch(api_version, kind, a1, current, false) == replicas_patch(
            api_version,
            kind,
            a2,
            current,
            false,
        ),
{
}

/// In the second generation, waking a scalable workload whose replicas
/// annotation reads `n` sets `n` replicas and clears the annotations,
/// whatever count it runs.
pub proof fn law_legacy_wake_sets_recorded_replicas(
    api_version: Seq<char>,
    kind: Seq<char>,
    annotations: Map<Seq<char>, Seq<char>>,
    current: Option<i32>,
    n: i32,
)
    requires
        annotations.contains_key(REPLICAS_ANNOTATION@),
        parse_i32_spec(annotations[REPLICAS_ANNOTATION@]) == Some(n),
    ensures
        legacy_replicas_patch(api_version, kind, annotations, current, true) == Some(
            PatchView {
                api_version,
                kind,
                annotations: Some(Seq::empty()),
                spec: SpecPatchView::Replicas(n),
            },
        ),
{
}

/// A cron job that is already suspended, by whoever, is not put to sleep:
/// whatever its annotations, it gets no patch, so waking never resumes a
/// job that the operator did not suspend. Putting a cron job to sleep does
/// not depend on its annotations, and waking it does not depend on its
/// suspend flag, only on the suspended annotation.
pub proof fn law_suspended_cron_job_is_left_asleep(
    annotations: Map<Seq<char>, Seq<char>>,
    other: Map<Seq<char>, Seq<char>>,
    suspend: Option<bool>,
    other_suspend: Option<bool>,
)
    ensures
        cron_job_patch(annotations, Some(true), false) is None,
        cron_job_patch(annotations, None, false) is None,
        cron_job_patch(annotations, suspend, false) == cron_job_patch(other, suspend, false),
        cron_job_patch(annotations, suspend, true) == cron_job_patch(annotations, other_suspend, true),
        cron_job_patch(annotations, suspend, true) is Some <==> annotations.contains_key(
            SUSPENDED_ANNOTATION@,
        ),
{
}

/// Work times are ORed: a moment of a day that one work time lists, from
/// its start to its stop, is work time, whatever the other work times say,
/// and stays so when another work time is added.
pub proof fn law_schedule_works_within_any_work_time(
    times: Seq<WorkTimeView>,
    i: int,
    day: Weekday,
    t: NaiveTime,
    extra: WorkTimeView,
)
    requires
        0 <= i < times.len(),
        times[i].days.contains(day),
        times[i].start.le(t),
        t.le(times[i].stop),
    ensures
        schedule_active(times, day, t),
        schedule_active(times.push(extra), day, t),
{
    assert(work_time_covers(times[i], day, t));
    assert(times.push(extra)[i] == times[i]);
    assert(work_time_covers(times.push(extra)[i], day, t));
}

/// A moment is not work time when every work time leaves it out: its day is
/// not listed, or the moment is before the start or after the stop.
pub proof fn law_schedule_sleeps_outside_every_work_time(
    times: Seq<WorkTimeView>,
    day: Weekday,
    t: NaiveTime,
)
    requires
        forall|i: int|
            0 <= i < times.len() ==> !(#[trigger] times[i]).days.contains(day) || !times[i].start.le(t)
                || !t.le(times[i].stop),
    ensures
        !schedule_active(times, day, t),
{
}

/// In the first generation too, the requirements of a selector are ANDed:
/// its label selector is the text of every requirement, in order, joined by
/// commas, and the text of each requirement stands whole in it.
pub proof fn law_first_expression_selector_holds_every_requirement(
    exprs: Vec<crate::controller::LabelSelectorRequirement>,
    i: int,
)
    requires
        0 <= i < exprs@.len(),
    ensures
        selector_text(crate::controller::NamespaceSelector::MatchExpressions(exprs)) == Some(
            seq_join(
                exprs@.map_values(|e: crate::controller::LabelSelectorRequirement|
                    requirement_text(e.key@, e.operator@, values_view(e.values))),
                ","@,
            ),
        ),
        exists|k: int|
            0 <= k && #[trigger] selector_text(
                crate::controller::NamespaceSelector::MatchExpressions(exprs),
            )->0.subrange(
                k,
                k + requirement_text(exprs@[i].key@, exprs@[i].operator@, values_view(exprs@[i].values)).len(),
            ) == requirement_text(exprs@[i].key@, exprs@[i].operator@, values_view(exprs@[i].values)),
{
    let parts = exprs@.map_values(|e: crate::controller::LabelSelectorRequirement|
        requirement_text(e.key@, e.operator@, values_view(e.values)));
    let part = requirement_text(exprs@[i].key@, exprs@[i].operator@, values_view(exprs@[i].values));
    assert(parts[i] == part);
    let k = lemma_seq_join_holds_each_part(parts, ","@, i);
    assert(selector_text(crate::controller::NamespaceSelector::MatchExpressions(exprs))->0.subrange(
        k,
        k + part.len(),
    ) == part);
}

} // verus!
