//! The parts of Kubernetes objects that the scheduling logic reads, and
//! the server-side apply patches that it writes.
use vstd::prelude::*;

use crate::string_map::StringMap;

verus! {

/// The `apiVersion` and `kind` of an object type.
pub struct TypeMeta {
    pub api_version: String,
    pub kind: String,
}

/// `Deployment::API_VERSION` and `Deployment::KIND` of k8s-openapi:
/// "apps/v1" and "Deployment".
#[verifier::external_body]
pub(crate) fn deployment_type() -> (r: TypeMeta)
    ensures
        r.api_version@ == "apps/v1"@,
        r.kind@ == "Deployment"@,
{
    TypeMeta { api_version: <k8s_openapi::api::apps::v1::Deployment as k8s_openapi::Resource>::API_VERSION.to_string(), kind: <k8s_openapi::api::apps::v1::Deployment as k8s_openapi::Resource>::KIND.to_string() }
}

/// `StatefulSet::API_VERSION` and `StatefulSet::KIND` of k8s-openapi:
/// "apps/v1" and "StatefulSet".
#[verifier::external_body]
pub(crate) fn stateful_set_type() -> (r: TypeMeta)
    ensures
        r.api_version@ == "apps/v1"@,
        r.kind@ == "StatefulSet"@,
{
    TypeMeta { api_version: <k8s_openapi::api::apps::v1::StatefulSet as k8s_openapi::Resource>::API_VERSION.to_string(), kind: <k8s_openapi::api::apps::v1::StatefulSet as k8s_openapi::Resource>::KIND.to_string() }
}

/// `ReplicaSet::API_VERSION` and `ReplicaSet::KIND` of k8s-openapi:
/// "apps/v1" and "ReplicaSet".
#[verifier::external_body]
pub(crate) fn replica_set_type() -> (r: TypeMeta)
    ensures
        r.api_version@ == "apps/v1"@,
        r.kind@ == "ReplicaSet"@,
{
    TypeMeta { api_version: <k8s_openapi::api::apps::v1::ReplicaSet as k8s_openapi::Resource>::API_VERSION.to_string(), kind: <k8s_openapi::api::apps::v1::ReplicaSet as k8s_openapi::Resource>::KIND.to_string() }
}

/// `ReplicationController::API_VERSION` and `ReplicationController::KIND`
/// of k8s-openapi: "v1" and "ReplicationController".
#[verifier::external_body]
pub(crate) fn replication_controller_type() -> (r: TypeMeta)
    ensures
        r.api_version@ == "v1"@,
        r.kind@ == "ReplicationController"@,
{
    TypeMeta {
        api_version: <k8s_openapi::api::core::v1::ReplicationController as k8s_openapi::Resource>::API_VERSION.to_string(),
        kind: <k8s_openapi::api::core::v1::ReplicationController as k8s_openapi::Resource>::KIND.to_string(),
    }
}

/// `DaemonSet::API_VERSION` and `DaemonSet::KIND` of k8s-openapi:
/// "apps/v1" and "DaemonSet".
#[verifier::external_body]
pub(crate) fn daemon_set_type() -> (r: TypeMeta)
    ensures
        r.api_version@ == "apps/v1"@,
        r.kind@ == "DaemonSet"@,
{
    TypeMeta { api_version: <k8s_openapi::api::apps::v1::DaemonSet as k8s_openapi::Resource>::API_VERSION.to_string(), kind: <k8s_openapi::api::apps::v1::DaemonSet as k8s_openapi::Resource>::KIND.to_string() }
}

/// `CronJob::API_VERSION` and `CronJob::KIND` of k8s-openapi: "batch/v1"
/// and "CronJob".
#[verifier::external_body]
pub(crate) fn cron_job_type() -> (r: TypeMeta)
    ensures
        r.api_version@ == "batch/v1"@,
        r.kind@ == "CronJob"@,
{
    TypeMeta { api_version: <k8s_openapi::api::batch::v1::CronJob as k8s_openapi::Resource>::API_VERSION.to_string(), kind: <k8s_openapi::api::batch::v1::CronJob as k8s_openapi::Resource>::KIND.to_string() }
}

/// `Namespace::API_VERSION` and `Namespace::KIND` of k8s-openapi: "v1" and
/// "Namespace".
#[verifier::external_body]
pub(crate) fn namespace_type() -> (r: TypeMeta)
    ensures
        r.api_version@ == "v1"@,
        r.kind@ == "Namespace"@,
{
    TypeMeta { api_version: <k8s_openapi::api::core::v1::Namespace as k8s_openapi::Resource>::API_VERSION.to_string(), kind: <k8s_openapi::api::core::v1::Namespace as k8s_openapi::Resource>::KIND.to_string() }
}

/// A reference from an object to the object that owns it.
pub struct OwnerReference {
    pub api_version: String,
    pub kind: String,
    pub name: String,
    pub uid: String,
}

/// Object metadata.
pub struct ObjectMeta {
    pub name: Option<String>,
    pub generate_name: Option<String>,
    pub namespace: Option<String>,
    pub annotations: Option<StringMap>,
    pub owner_references: Option<Vec<OwnerReference>>,
}

pub open spec fn opt_string_view(s: Option<String>) -> Option<Seq<char>> {
    match s {
        Some(s) => Some(s@),
        None => None,
    }
}

impl ObjectMeta {
    /// The annotations, none when the object has no annotation map.
    pub open spec fn annotations_view(&self) -> Map<Seq<char>, Seq<char>> {
        match self.annotations {
            Some(m) => m@,
            None => Map::empty(),
        }
    }

    /// `ResourceExt::name_any`: the name, else the name prefix, else empty.
    pub open spec fn name_any_view(&self) -> Seq<char> {
        match self.name {
            Some(n) => n@,
            None => match self.generate_name {
                Some(g) => g@,
                None => Seq::empty(),
            },
        }
    }

    /// The value of an annotation (`annotations().get(key)`).
    pub fn annotation(&self, key: &str) -> (r: Option<&String>)
        ensures
            r is Some <==> self.annotations_view().contains_key(key@),
            r matches Some(v) ==> v@ == self.annotations_view()[key@],
    {
        match &self.annotations {
            Some(m) => m.get(key),
            None => None,
        }
    }

    /// `ResourceExt::name_any`.
    pub fn name_any(&self) -> (r: String)
        ensures
            r@ == self.name_any_view(),
    {
        match &self.name {
            Some(n) => n.clone(),
            None => match &self.generate_name {
                Some(g) => g.clone(),
                None => String::new(),
            },
        }
    }
}

/// The replica count that a scalable object asks for.
pub struct ReplicasSpec {
    pub replicas: Option<i32>,
}

pub struct Deployment {
    pub metadata: ObjectMeta,
    pub spec: Option<ReplicasSpec>,
}

pub struct StatefulSet {
    pub metadata: ObjectMeta,
    pub spec: Option<ReplicasSpec>,
}

pub struct ReplicaSet {
    pub metadata: ObjectMeta,
    pub spec: Option<ReplicasSpec>,
}

pub struct ReplicationController {
    pub metadata: ObjectMeta,
    pub spec: Option<ReplicasSpec>,
}

/// `spec.replicas` of a scalable object, if both are present.
pub open spec fn spec_replicas(spec: Option<ReplicasSpec>) -> Option<i32> {
    match spec {
        Some(s) => s.replicas,
        None => None,
    }
}

pub fn replicas_of(spec: &Option<ReplicasSpec>) -> (r: Option<i32>)
    ensures
        r == spec_replicas(*spec),
{
    match spec {
        Some(s) => s.replicas,
        None => None,
    }
}

pub struct PodSpec {
    pub node_selector: Option<StringMap>,
}

pub struct PodTemplateSpec {
    pub spec: Option<PodSpec>,
}

pub struct DaemonSetSpec {
    pub template: PodTemplateSpec,
}

pub struct DaemonSet {
    pub metadata: ObjectMeta,
    pub spec: Option<DaemonSetSpec>,
}

pub struct CronJobSpec {
    pub suspend: Option<bool>,
}

pub struct CronJob {
    pub metadata: ObjectMeta,
    pub spec: Option<CronJobSpec>,
}

pub struct Namespace {
    pub metadata: ObjectMeta,
}

/// The value of an annotation in a patch: a text, or a JSON object.
pub enum AnnotationValue {
    Text(String),
    Object(StringMap),
}

/// The `metadata` of a patch: the annotations that it sets.
pub struct PatchMetadata {
    pub annotations: Vec<(String, AnnotationValue)>,
}

/// The `spec` of a patch.
pub enum SpecPatch {
    /// `spec.replicas`
    Replicas(i32),
    /// `spec.suspend`
    Suspend(bool),
    /// `spec.template.spec.nodeSelector`, `null` for `None`
    NodeSelector(Option<StringMap>),
}

/// The object that a patch applies.
pub struct ResourcePatch {
    pub api_version: String,
    pub kind: String,
    pub metadata: Option<PatchMetadata>,
    pub spec: SpecPatch,
}

/// A patch to send to the API server (only server-side apply is used).
pub enum Patch {
    Apply(ResourcePatch),
}

pub enum AnnotationValueView {
    Text(Seq<char>),
    Object(Map<Seq<char>, Seq<char>>),
}

pub enum SpecPatchView {
    Replicas(i32),
    Suspend(bool),
    NodeSelector(Option<Map<Seq<char>, Seq<char>>>),
}

pub struct PatchView {
    pub api_version: Seq<char>,
    pub kind: Seq<char>,
    pub annotations: Option<Seq<(Seq<char>, AnnotationValueView)>>,
    pub spec: SpecPatchView,
}

impl View for AnnotationValue {
    type V = AnnotationValueView;

    open spec fn view(&self) -> AnnotationValueView {
        match self {
            AnnotationValue::Text(t) => AnnotationValueView::Text(t@),
            AnnotationValue::Object(m) => AnnotationValueView::Object(m@),
        }
    }
}

impl View for SpecPatch {
    type V = SpecPatchView;

    open spec fn view(&self) -> SpecPatchView {
        match self {
            SpecPatch::Replicas(n) => SpecPatchView::Replicas(*n),
            SpecPatch::Suspend(b) => SpecPatchView::Suspend(*b),
            SpecPatch::NodeSelector(Some(m)) => SpecPatchView::NodeSelector(Some(m@)),
            SpecPatch::NodeSelector(None) => SpecPatchView::NodeSelector(None),
        }
    }
}

impl View for Patch {
    type V = PatchView;

    open spec fn view(&self) -> PatchView {
        match self {
            Patch::Apply(p) => PatchView {
                api_version: p.api_version@,
                kind: p.kind@,
                annotations: match p.metadata {
                    Some(m) => Some(
                        m.annotations@.map_values(|a: (String, AnnotationValue)| (a.0@, a.1@)),
                    ),
                    None => None,
                },
                spec: p.spec@,
            },
        }
    }
}

/// The view of an optional patch.
pub open spec fn opt_patch_view(p: Option<Patch>) -> Option<PatchView> {
    match p {
        Some(p) => Some(p@),
        None => None,
    }
}

/// A patch of a typed object with the given annotations and spec.
pub fn make_patch(
    type_meta: TypeMeta,
    annotations: Option<Vec<(String, AnnotationValue)>>,
    spec: SpecPatch,
) -> (r: Patch)
    ensures
        r@.api_version == type_meta.api_version@,
        r@.kind == type_meta.kind@,
        r@.annotations == (match annotations {
            Some(a) => Some(a@.map_values(|a: (String, AnnotationValue)| (a.0@, a.1@))),
            None => None,
        }),
        r@.spec == spec@,
{
    let metadata = match annotations {
        Some(a) => Some(PatchMetadata { annotations: a }),
        None => None,
    };
    Patch::Apply(ResourcePatch { api_version: type_meta.api_version, kind: type_meta.kind, metadata, spec })
}

/// A single annotation set to a text.
pub fn text_annotation(key: &str, value: String) -> (r: Vec<(String, AnnotationValue)>)
    ensures
        r@.map_values(|a: (String, AnnotationValue)| (a.0@, a.1@)) == seq![
            (key@, AnnotationValueView::Text(value@)),
        ],
{
    let mut v: Vec<(String, AnnotationValue)> = Vec::new();
    v.push((key.to_owned(), AnnotationValue::Text(value)));
    assert(v@.map_values(|a: (String, AnnotationValue)| (a.0@, a.1@)) =~= seq![
        (key@, AnnotationValueView::Text(value@)),
    ]);
    v
}

} // verus!
