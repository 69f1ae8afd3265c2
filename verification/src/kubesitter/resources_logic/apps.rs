//! Patches for the workloads of the `apps` group and for replication
//! controllers: scaling to zero and back, and parking daemon sets on a
//! node selector that no node carries.
use vstd::prelude::*;

use super::{NODE_SELECTOR_ANNOTATION, REPLICAS_ANNOTATION};
use crate::resources::{
    daemon_set_type, deployment_type, make_patch, opt_patch_view, replica_set_type, replicas_of,
    replication_controller_type, spec_replicas, stateful_set_type, text_annotation,
    AnnotationValueView, DaemonSet, DaemonSetSpec, Deployment, ObjectMeta, Patch, PatchView,
    ReplicaSet, ReplicationController, SpecPatch, SpecPatchView, StatefulSet, TypeMeta,
};
use crate::kubesitter::laws::law_daemon_set_sleep_then_wake_restores_selector;
use crate::string_map::{
    json_optional_string_map, json_text_of_optional_map, optional_map_to_json,
    optional_map_view, parse_json_optional_map, StringMap,
};
use crate::text::{i32_to_string, int_decimal, parse_i32, parse_i32_spec};

verus! {

/// The label of the node selector that parks a daemon set.
pub const SLEEPING_NODE_SELECTOR_KEY: &'static str = "non-existent-label";

/// The value of the node selector that parks a daemon set.
pub const SLEEPING_NODE_SELECTOR_VALUE: &'static str = "non-existent-name";

/// The node selector of a sleeping daemon set: a label that no node has.
pub open spec fn sleeping_node_selector_view() -> Map<Seq<char>, Seq<char>> {
    Map::empty().insert(SLEEPING_NODE_SELECTOR_KEY@, SLEEPING_NODE_SELECTOR_VALUE@)
}

/// The node selector of a sleeping daemon set.
pub fn sleeping_node_selector() -> (r: StringMap)
    ensures
        r@ == sleeping_node_selector_view(),
{
    let mut m = StringMap::new();
    m.insert(SLEEPING_NODE_SELECTOR_KEY.to_owned(), SLEEPING_NODE_SELECTOR_VALUE.to_owned());
    m
}

/// The patch that brings a scalable object with `current` replicas to the
/// desired state. Asleep means zero replicas and the former count kept in
/// the replicas annotation; awake means the count read back from it.
pub open spec fn replicas_patch(
    api_version: Seq<char>,
    kind: Seq<char>,
    annotations: Map<Seq<char>, Seq<char>>,
    current: Option<i32>,
    desired_state: bool,
) -> Option<PatchView> {
    match current {
        None => None,
        Some(current) => if desired_state {
            if !annotations.contains_key(REPLICAS_ANNOTATION@) {
                None
            } else {
                match parse_i32_spec(annotations[REPLICAS_ANNOTATION@]) {
                    None => None,
                    Some(original) => if original == current {
                        None
                    } else {
                        Some(
                            PatchView {
                                api_version,
                                kind,
                                annotations: None,
                                spec: SpecPatchView::Replicas(original),
                            },
                        )
                    },
                }
            }
        } else if current == 0 {
            None
        } else {
            Some(
                PatchView {
                    api_version,
                    kind,
                    annotations: Some(
                        seq![
                            (REPLICAS_ANNOTATION@, AnnotationValueView::Text(
                                int_decimal(current as int),
                            )),
                        ],
                    ),
                    spec: SpecPatchView::Replicas(0),
                },
            )
        },
    }
}

fn generate_replicas_patch(
    type_meta: TypeMeta,
    metadata: &ObjectMeta,
    current: Option<i32>,
    desired_state: bool,
) -> (r: Option<Patch>)
    ensures
        opt_patch_view(r) == replicas_patch(
            type_meta.api_version@,
            type_meta.kind@,
            metadata.annotations_view(),
            current,
            desired_state,
        ),
{
    let current_replicas = match current {
        Some(c) => c,
        None => return None,
    };
    if desired_state {
        let original_replicas = match metadata.annotation(REPLICAS_ANNOTATION) {
            Some(v) => v,
            None => return None,
        };
        let original_replicas = match parse_i32(original_replicas.as_str()) {
            Some(n) => n,
            None => return None,
        };
        if original_replicas == current_replicas {
            return None;
        }
        Some(make_patch(type_meta, None, SpecPatch::Replicas(original_replicas)))
    } else {
        if current_replicas == 0 {
            return None;
        }
        let annotations = text_annotation(REPLICAS_ANNOTATION, i32_to_string(current_replicas));
        Some(make_patch(type_meta, Some(annotations), SpecPatch::Replicas(0)))
    }
}

/// The patch that scales a deployment to zero or back.
pub fn generate_deployment_patch(resource: &Deployment, desired_state: bool) -> (r: Option<Patch>)
    ensures
        opt_patch_view(r) == replicas_patch(
            "apps/v1"@,
            "Deployment"@,
            resource.metadata.annotations_view(),
            spec_replicas(resource.spec),
            desired_state,
        ),
{
    generate_replicas_patch(
        deployment_type(),
        &resource.metadata,
        replicas_of(&resource.spec),
        desired_state,
    )
}

/// The patch that scales a stateful set to zero or back.
pub fn generate_stateful_set_patch(resource: &StatefulSet, desired_state: bool) -> (r: Option<
    Patch,
>)
    ensures
        opt_patch_view(r) == replicas_patch(
            "apps/v1"@,
            "StatefulSet"@,
            resource.metadata.annotations_view(),
            spec_replicas(resource.spec),
            desired_state,
        ),
{
    generate_replicas_patch(
        stateful_set_type(),
        &resource.metadata,
        replicas_of(&resource.spec),
        desired_state,
    )
}

/// The patch that scales a replica set to zero or back; none for a replica
/// set that another object owns.
pub fn generate_replica_set_patch(resource: &ReplicaSet, desired_state: bool) -> (r: Option<Patch>)
    ensures
        opt_patch_view(r) == (if resource.metadata.owner_references is Some {
            None
        } else {
            replicas_patch(
                "apps/v1"@,
                "ReplicaSet"@,
                resource.metadata.annotations_view(),
                spec_replicas(resource.spec),
                desired_state,
            )
        }),
{
    let type_meta = replica_set_type();
    if resource.metadata.owner_references.is_some() {
        return None;
    }
    generate_replicas_patch(type_meta, &resource.metadata, replicas_of(&resource.spec), desired_state)
}

/// The patch that scales a replication controller to zero or back.
pub fn generate_replication_controller_patch(
    resource: &ReplicationController,
    desired_state: bool,
) -> (r: Option<Patch>)
    ensures
        opt_patch_view(r) == replicas_patch(
            "v1"@,
            "ReplicationController"@,
            resource.metadata.annotations_view(),
            spec_replicas(resource.spec),
            desired_state,
        ),
{
    generate_replicas_patch(
        replication_controller_type(),
        &resource.metadata,
        replicas_of(&resource.spec),
        desired_state,
    )
}

/// The node selector of a daemon set's pods: `None` when the daemon set
/// has no spec or its template no pod spec, else the optional selector.
pub open spec fn pod_node_selector(spec: Option<DaemonSetSpec>) -> Option<
    Option<Map<Seq<char>, Seq<char>>>,
> {
    match spec {
        None => None,
        Some(s) => match s.template.spec {
            None => None,
            Some(p) => match p.node_selector {
                Some(m) => Some(Some(m@)),
                None => Some(None),
            },
        },
    }
}

/// The patch that parks a daemon set on the sleeping node selector, keeping
/// the JSON of its former selector in an annotation, or that restores the
/// selector read back from it (without the sleeping label).
pub open spec fn daemon_set_patch(
    annotations: Map<Seq<char>, Seq<char>>,
    node_selector: Option<Option<Map<Seq<char>, Seq<char>>>>,
    desired_state: bool,
) -> Option<PatchView> {
    match node_selector {
        None => None,
        Some(node_selector) => if desired_state {
            if node_selector is None {
                None
            } else if !annotations.contains_key(NODE_SELECTOR_ANNOTATION@) {
                None
            } else {
                match json_optional_string_map(annotations[NODE_SELECTOR_ANNOTATION@]) {
                    None => None,
                    Some(parsed) => {
                        let original = match parsed {
                            Some(m) => Some(m.remove(SLEEPING_NODE_SELECTOR_KEY@)),
                            None => None,
                        };
                        if node_selector == original {
                            None
                        } else {
                            Some(
                                PatchView {
                                    api_version: "apps/v1"@,
                                    kind: "DaemonSet"@,
                                    annotations: None,
                                    spec: SpecPatchView::NodeSelector(original),
                                },
                            )
                        }
                    },
                }
            }
        } else if node_selector matches Some(m) && m.dom().subset_of(
            sleeping_node_selector_view().dom(),
        ) {
            None
        } else {
            Some(
                PatchView {
                    api_version: "apps/v1"@,
                    kind: "DaemonSet"@,
                    annotations: Some(
                        seq![
                            (NODE_SELECTOR_ANNOTATION@, AnnotationValueView::Text(
                                json_text_of_optional_map(node_selector)->Some_0,
                            )),
                        ],
                    ),
                    spec: SpecPatchView::NodeSelector(Some(sleeping_node_selector_view())),
                },
            )
        },
    }
}

pub(crate) fn node_selector_of(resource: &DaemonSet) -> (r: Option<Option<&StringMap>>)
    ensures
        match r {
            None => pod_node_selector(resource.spec) is None,
            Some(None) => pod_node_selector(resource.spec) == Some(
                None::<Map<Seq<char>, Seq<char>>>,
            ),
            Some(Some(m)) => pod_node_selector(resource.spec) == Some(Some(m@)),
        },
{
    match &resource.spec {
        None => None,
        Some(s) => match &s.template.spec {
            None => None,
            Some(p) => match &p.node_selector {
                Some(m) => Some(Some(m)),
                None => Some(None),
            },
        },
    }
}

fn same_optional_maps(a: Option<&StringMap>, b: Option<&StringMap>) -> (r: bool)
    ensures
        r == (crate::string_map::optional_map_view(a) == crate::string_map::optional_map_view(b)),
{
    match (a, b) {
        (Some(a), Some(b)) => a.same_as(b),
        (None, None) => true,
        _ => false,
    }
}

/// A former node selector as waking restores it: without the sleeping
/// label.
pub open spec fn woken_node_selector(selector: Option<Map<Seq<char>, Seq<char>>>) -> Option<
    Map<Seq<char>, Seq<char>>,
> {
    match selector {
        Some(m) => Some(m.remove(SLEEPING_NODE_SELECTOR_KEY@)),
        None => None,
    }
}

/// The patch that parks a daemon set or brings it back. Once a sleep patch
/// is applied, waking the daemon set sets its former selector again.
pub fn generate_daemon_set_patch(resource: &DaemonSet, desired_state: bool) -> (r: Option<Patch>)
    ensures
        opt_patch_view(r) == daemon_set_patch(
            resource.metadata.annotations_view(),
            pod_node_selector(resource.spec),
            desired_state,
        ),
        !desired_state && r is Some ==> (pod_node_selector(resource.spec) matches Some(selector)
            && daemon_set_patch(
            resource.metadata.annotations_view().insert(
                NODE_SELECTOR_ANNOTATION@,
                json_text_of_optional_map(selector)->Some_0,
            ),
            Some(Some(sleeping_node_selector_view())),
            true,
        ) == Some(
            PatchView {
                api_version: "apps/v1"@,
                kind: "DaemonSet"@,
                annotations: None,
                spec: SpecPatchView::NodeSelector(woken_node_selector(selector)),
            },
        )),
{
    let type_meta = daemon_set_type();
    let node_selector = match node_selector_of(resource) {
        Some(n) => n,
        None => return None,
    };
    if desired_state {
        if node_selector.is_none() {
            return None;
        }
        let original_text = match resource.metadata.annotation(NODE_SELECTOR_ANNOTATION) {
            Some(t) => t,
            None => return None,
        };
        let original_node_selector = match parse_json_optional_map(original_text.as_str()) {
            Some(Some(mut m)) => {
                m.remove(SLEEPING_NODE_SELECTOR_KEY);
                Some(m)
            },
            Some(None) => None,
            None => return None,
        };
        if same_optional_maps(node_selector, original_node_selector.as_ref()) {
            return None;
        }
        Some(make_patch(type_meta, None, SpecPatch::NodeSelector(original_node_selector)))
    } else {
        let sleeping = sleeping_node_selector();
        if let Some(m) = node_selector {
            if m.keys_within(&sleeping) {
                return None;
            }
        }
        let text = match optional_map_to_json(node_selector) {
            Some(t) => t,
            None => return None,
        };
        proof {
            law_daemon_set_sleep_then_wake_restores_selector(
                resource.metadata.annotations_view(),
                optional_map_view(node_selector),
            );
        }
        let annotations = text_annotation(NODE_SELECTOR_ANNOTATION, text);
        Some(make_patch(type_meta, Some(annotations), SpecPatch::NodeSelector(Some(sleeping))))
    }
}

} // verus!
