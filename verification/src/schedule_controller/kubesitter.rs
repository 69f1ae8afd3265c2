//! The resource logic of this generation: which namespaces a policy wakes
//! or puts to sleep, and the patches. Waking a workload also clears its
//! annotations of the patch, the former daemon set selector is kept as a
//! JSON object, replication controllers are not handled, and the skip
//! annotation exempts a workload.
use vstd::prelude::*;

use crate::kubesitter::resources_logic::apps::{
    node_selector_of, pod_node_selector, sleeping_node_selector, sleeping_node_selector_view,
    SLEEPING_NODE_SELECTOR_KEY,
};
use crate::kubesitter::resources_logic::batch::{cron_job_patch, cron_job_suspend};
use crate::kubesitter::resources_logic::core_logic::is_skipped;
use crate::kubesitter::resources_logic::{NODE_SELECTOR_ANNOTATION, REPLICAS_ANNOTATION, SKIP_ANNOTATION};
use crate::resources::{
    daemon_set_type, deployment_type, make_patch, opt_patch_view, replica_set_type, replicas_of,
    spec_replicas, stateful_set_type, text_annotation, AnnotationValue, AnnotationValueView,
    CronJob, DaemonSet, Deployment, ObjectMeta, Patch, PatchView, ReplicaSet, SpecPatch,
    SpecPatchView, StatefulSet, TypeMeta,
};
use crate::controller::kubesitter::{policy_desired_state, policy_state};
use crate::controller::SchedulePolicySpec;
use crate::error::{Error, ErrorView};
use crate::string_map::{json_string_map, parse_json_map};
use crate::text::string_views;
use crate::time::UtcDateTime;
use crate::text::{i32_to_string, int_decimal, parse_i32, parse_i32_spec};
pub use crate::kubesitter::resources_logic::batch::generate_cron_job_patch;
pub use crate::controller::kubesitter::namespace_query;
pub use crate::kubesitter::resources_logic::core_logic::select_namespace_names;

verus! {

/// The patch that scales a workload to zero, recording its replica count
/// in the replicas annotation, or back to the recorded count (with an
/// empty set of annotations).
pub open spec fn legacy_replicas_patch(
    api_version: Seq<char>,
    kind: Seq<char>,
    annotations: Map<Seq<char>, Seq<char>>,
    current: Option<i32>,
    desired_state: bool,
) -> Option<PatchView> {
    if desired_state {
        if !annotations.contains_key(REPLICAS_ANNOTATION@) {
            None
        } else {
            match parse_i32_spec(annotations[REPLICAS_ANNOTATION@]) {
                None => None,
                Some(original) => Some(
                    PatchView {
                        api_version,
                        kind,
                        annotations: Some(Seq::empty()),
                        spec: SpecPatchView::Replicas(original),
                    },
                ),
            }
        }
    } else {
        match current {
            None => None,
            Some(current) => if current == 0 {
                None
            } else {
                Some(
                    PatchView {
                        api_version,
                        kind,
                        annotations: Some(
                            seq![
                                (REPLICAS_ANNOTATION@, AnnotationValueView::Text(
                                    int_decimal(current as int),
                                )),
                            ],
                        ),
                        spec: SpecPatchView::Replicas(0),
                    },
                )
            },
        }
    }
}

fn generate_legacy_replicas_patch(
    type_meta: TypeMeta,
    metadata: &ObjectMeta,
    current: Option<i32>,
    desired_state: bool,
) -> (r: Option<Patch>)
    ensures
        opt_patch_view(r) == legacy_replicas_patch(
            type_meta.api_version@,
            type_meta.kind@,
            metadata.annotations_view(),
            current,
            desired_state,
        ),
{
    if desired_state {
        let original_replicas = match metadata.annotation(REPLICAS_ANNOTATION) {
            Some(v) => v,
            None => return None,
        };
        let original_replicas = match parse_i32(original_replicas.as_str()) {
            Some(n) => n,
            None => return None,
        };
        let annotations: Vec<(String, AnnotationValue)> = Vec::new();
        assert(annotations@.map_values(|a: (String, AnnotationValue)| (a.0@, a.1@)) =~= Seq::<
            (Seq<char>, AnnotationValueView),
        >::empty());
        Some(make_patch(type_meta, Some(annotations), SpecPatch::Replicas(original_replicas)))
    } else {
        let current_replicas = match current {
            Some(c) => c,
            None => return None,
        };
        if current_replicas == 0 {
            return None;
        }
        let annotations = text_annotation(REPLICAS_ANNOTATION, i32_to_string(current_replicas));
        Some(make_patch(type_meta, Some(annotations), SpecPatch::Replicas(0)))
    }
}

/// The patch that scales a deployment to zero or back.
pub fn generate_deployment_patch(resource: &Deployment, desired_state: bool) -> (r: Option<Patch>)
    ensures
        opt_patch_view(r) == legacy_replicas_patch(
            "apps/v1"@,
            "Deployment"@,
            resource.metadata.annotations_view(),
            spec_replicas(resource.spec),
            desired_state,
        ),
{
    generate_legacy_replicas_patch(
        deployment_type(),
        &resource.metadata,
        replicas_of(&resource.spec),
        desired_state,
    )
}

/// The patch that scales a stateful set to zero or back.
pub fn generate_stateful_set_patch(resource: &StatefulSet, desired_state: bool) -> (r: Option<
    Patch,
>)
    ensures
        opt_patch_view(r) == legacy_replicas_patch(
            "apps/v1"@,
            "StatefulSet"@,
            resource.metadata.annotations_view(),
            spec_replicas(resource.spec),
            desired_state,
        ),
{
    generate_legacy_replicas_patch(
        stateful_set_type(),
        &resource.metadata,
        replicas_of(&resource.spec),
        desired_state,
    )
}

/// The patch that scales a replica set to zero or back; none for a replica
/// set that another object owns.
pub fn generate_replica_set_patch(resource: &ReplicaSet, desired_state: bool) -> (r: Option<Patch>)
    ensures
        opt_patch_view(r) == (if resource.metadata.owner_references is Some {
            None
        } else {
            legacy_replicas_patch(
                "apps/v1"@,
                "ReplicaSet"@,
                resource.metadata.annotations_view(),
                spec_replicas(resource.spec),
                desired_state,
            )
        }),
{
    let type_meta = replica_set_type();
    if resource.metadata.owner_references.is_some() {
        return None;
    }
    generate_legacy_replicas_patch(type_meta, &resource.metadata, replicas_of(&resource.spec), desired_state)
}

/// The patch that parks a daemon set that has a node selector on the
/// sleeping selector, keeping the former selector as a JSON object in an
/// annotation, or that restores the selector read back from it (without
/// the sleeping label).
pub open spec fn legacy_daemon_set_patch(
    annotations: Map<Seq<char>, Seq<char>>,
    node_selector: Option<Option<Map<Seq<char>, Seq<char>>>>,
    desired_state: bool,
) -> Option<PatchView> {
    match node_selector {
        Some(Some(m)) => if desired_state {
            if !annotations.contains_key(NODE_SELECTOR_ANNOTATION@) {
                None
            } else {
                match json_string_map(annotations[NODE_SELECTOR_ANNOTATION@]) {
                    None => None,
                    Some(original) => Some(
                        PatchView {
                            api_version: "apps/v1"@,
                            kind: "DaemonSet"@,
                            annotations: Some(Seq::empty()),
                            spec: SpecPatchView::NodeSelector(
                                Some(original.remove(SLEEPING_NODE_SELECTOR_KEY@)),
                            ),
                        },
                    ),
                }
            }
        } else if m.dom().subset_of(sleeping_node_selector_view().dom()) {
            None
        } else {
            Some(
                PatchView {
                    api_version: "apps/v1"@,
                    kind: "DaemonSet"@,
                    annotations: Some(
                        seq![(NODE_SELECTOR_ANNOTATION@, AnnotationValueView::Object(m))],
                    ),
                    spec: SpecPatchView::NodeSelector(Some(sleeping_node_selector_view())),
                },
            )
        },
        _ => None,
    }
}

/// The patch that parks a daemon set or brings it back.
pub fn generate_daemon_set_patch(resource: &DaemonSet, desired_state: bool) -> (r: Option<Patch>)
    ensures
        opt_patch_view(r) == legacy_daemon_set_patch(
            resource.metadata.annotations_view(),
            pod_node_selector(resource.spec),
            desired_state,
        ),
{
    let type_meta = daemon_set_type();
    let node_selector = match node_selector_of(resource) {
        Some(Some(m)) => m,
        _ => return None,
    };
    if desired_state {
        let original_text = match resource.metadata.annotation(NODE_SELECTOR_ANNOTATION) {
            Some(t) => t,
            None => return None,
        };
        let mut original = match parse_json_map(original_text.as_str()) {
            Some(m) => m,
            None => return None,
        };
        original.remove(SLEEPING_NODE_SELECTOR_KEY);
        let annotations: Vec<(String, AnnotationValue)> = Vec::new();
        assert(annotations@.map_values(|a: (String, AnnotationValue)| (a.0@, a.1@)) =~= Seq::<
            (Seq<char>, AnnotationValueView),
        >::empty());
        Some(make_patch(type_meta, Some(annotations), SpecPatch::NodeSelector(Some(original))))
    } else {
        let sleeping = sleeping_node_selector();
        if node_selector.keys_within(&sleeping) {
            return None;
        }
        let mut annotations: Vec<(String, AnnotationValue)> = Vec::new();
        annotations.push(
            (NODE_SELECTOR_ANNOTATION.to_owned(), AnnotationValue::Object(node_selector.duplicate())),
        );
        assert(annotations@.map_values(|a: (String, AnnotationValue)| (a.0@, a.1@)) =~= seq![
            (NODE_SELECTOR_ANNOTATION@, AnnotationValueView::Object(node_selector@)),
        ]);
        Some(make_patch(type_meta, Some(annotations), SpecPatch::NodeSelector(Some(sleeping))))
    }
}

/// A workload of a namespace that this generation handles.
pub enum LegacyWorkload {
    Deployment(Deployment),
    StatefulSet(StatefulSet),
    ReplicaSet(ReplicaSet),
    CronJob(CronJob),
    DaemonSet(DaemonSet),
}

impl LegacyWorkload {
    /// The workload's metadata.
    pub open spec fn meta(&self) -> ObjectMeta {
        match self {
            LegacyWorkload::Deployment(w) => w.metadata,
            LegacyWorkload::StatefulSet(w) => w.metadata,
            LegacyWorkload::ReplicaSet(w) => w.metadata,
            LegacyWorkload::CronJob(w) => w.metadata,
            LegacyWorkload::DaemonSet(w) => w.metadata,
        }
    }
}

/// The patch that brings a workload to the desired state; none for a
/// workload that carries the skip annotation.
pub open spec fn legacy_workload_patch(w: LegacyWorkload, desired_state: bool) -> Option<PatchView> {
    if is_skipped(w.meta()) {
        None
    } else {
        match w {
            LegacyWorkload::Deployment(d) => legacy_replicas_patch(
                "apps/v1"@,
                "Deployment"@,
                d.metadata.annotations_view(),
                spec_replicas(d.spec),
                desired_state,
            ),
            LegacyWorkload::StatefulSet(d) => legacy_replicas_patch(
                "apps/v1"@,
                "StatefulSet"@,
                d.metadata.annotations_view(),
                spec_replicas(d.spec),
                desired_state,
            ),
            LegacyWorkload::ReplicaSet(d) => if d.metadata.owner_references is Some {
                None
            } else {
                legacy_replicas_patch(
                    "apps/v1"@,
                    "ReplicaSet"@,
                    d.metadata.annotations_view(),
                    spec_replicas(d.spec),
                    desired_state,
                )
            },
            LegacyWorkload::CronJob(c) => cron_job_patch(
                c.metadata.annotations_view(),
                cron_job_suspend(c.spec),
                desired_state,
            ),
            LegacyWorkload::DaemonSet(d) => legacy_daemon_set_patch(
                d.metadata.annotations_view(),
                pod_node_selector(d.spec),
                desired_state,
            ),
        }
    }
}

/// The patch to send for a workload of a namespace whose desired state is
/// `desired_state`.
pub fn plan_legacy_workload_patch(workload: &LegacyWorkload, desired_state: bool) -> (r: Option<
    Patch,
>)
    ensures
        opt_patch_view(r) == legacy_workload_patch(*workload, desired_state),
{
    let meta = match workload {
        LegacyWorkload::Deployment(w) => &w.metadata,
        LegacyWorkload::StatefulSet(w) => &w.metadata,
        LegacyWorkload::ReplicaSet(w) => &w.metadata,
        LegacyWorkload::CronJob(w) => &w.metadata,
        LegacyWorkload::DaemonSet(w) => &w.metadata,
    };
    if meta.annotation(SKIP_ANNOTATION).is_some() {
        return None;
    }
    match workload {
        LegacyWorkload::Deployment(w) => generate_deployment_patch(w, desired_state),
        LegacyWorkload::StatefulSet(w) => generate_stateful_set_patch(w, desired_state),
        LegacyWorkload::ReplicaSet(w) => generate_replica_set_patch(w, desired_state),
        LegacyWorkload::CronJob(w) => generate_cron_job_patch(w, desired_state),
        LegacyWorkload::DaemonSet(w) => generate_daemon_set_patch(w, desired_state),
    }
}

/// What a policy asks of the namespaces it selected, at the instant `now`:
/// nothing while it is suspended, else the state of its schedule for each
/// of them, or the error of finding that state.
pub open spec fn policy_namespace_plan(
    spec: SchedulePolicySpec,
    names: Seq<Seq<char>>,
    now: UtcDateTime,
) -> Result<Seq<(Seq<char>, bool)>, ErrorView> {
    if spec.suspend {
        Ok(Seq::empty())
    } else {
        match policy_state(spec, now) {
            Ok(b) => Ok(names.map_values(|n: Seq<char>| (n, b))),
            Err(e) => Err(e),
        }
    }
}

/// The view of a list of namespaces and their states.
pub open spec fn namespace_states_view(v: Seq<(String, bool)>) -> Seq<(Seq<char>, bool)> {
    v.map_values(|e: (String, bool)| (e.0@, e.1))
}

/// The view of a plan.
pub open spec fn namespace_plan_view(r: Result<Vec<(String, bool)>, Error>) -> Result<
    Seq<(Seq<char>, bool)>,
    ErrorView,
> {
    match r {
        Ok(v) => Ok(namespace_states_view(v@)),
        Err(e) => Err(e@),
    }
}

/// The namespaces of a policy to wake (`true`) or put to sleep (`false`) at
/// the instant `now`, among those selected, in their order.
pub fn plan_policy_resources(spec: &SchedulePolicySpec, names: &Vec<String>, now: &UtcDateTime) -> (r:
    Result<Vec<(String, bool)>, Error>)
    requires
        now.wf(),
    ensures
        namespace_plan_view(r) == policy_namespace_plan(*spec, string_views(names@), *now),
{
    let mut states: Vec<(String, bool)> = Vec::new();
    if spec.suspend {
        assert(namespace_states_view(states@) =~= Seq::<(Seq<char>, bool)>::empty());
        return Ok(states);
    }
    let desired_state = match policy_desired_state(spec, now) {
        Ok(b) => b,
        Err(e) => return Err(e),
    };
    let mut i: usize = 0;
    while i < names.len()
        invariant
            i <= names@.len(),
            states@.len() == i,
            forall|j: int|
                0 <= j < i ==> #[trigger] states@[j] == (names@[j], desired_state),
        decreases names@.len() - i,
    {
        states.push((names[i].clone(), desired_state));
        i = i + 1;
    }
    assert(namespace_states_view(states@) =~= string_views(names@).map_values(
        |n: Seq<char>| (n, desired_state),
    ));
    Ok(states)
}

} // verus!
