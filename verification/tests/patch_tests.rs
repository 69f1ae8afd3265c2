use kubesitter::kubesitter::resources_logic::apps::{
    generate_daemon_set_patch, generate_deployment_patch, generate_replica_set_patch,
    generate_replication_controller_patch, generate_stateful_set_patch,
};
use kubesitter::kubesitter::resources_logic::batch::generate_cron_job_patch;
use kubesitter::kubesitter::resources_logic::core_logic::{plan_workload_patch, Workload};
use kubesitter::kubesitter::resources_logic::{
    NODE_SELECTOR_ANNOTATION, REPLICAS_ANNOTATION, SKIP_ANNOTATION, SUSPENDED_ANNOTATION,
};
use kubesitter::resources::{
    AnnotationValue, CronJob, CronJobSpec, DaemonSet, DaemonSetSpec, Deployment, ObjectMeta,
    OwnerReference, Patch, PodSpec, PodTemplateSpec, ReplicaSet, ReplicasSpec,
    ReplicationController, SpecPatch, StatefulSet,
};
use kubesitter::schedule_controller::kubesitter as legacy;
use kubesitter::string_map::StringMap;

fn meta(annotations: &[(&str, &str)]) -> ObjectMeta {
    let annotations = if annotations.is_empty() {
        None
    } else {
        let mut m = StringMap::new();
        for (k, v) in annotations {
            m.insert(k.to_string(), v.to_string());
        }
        Some(m)
    };
    ObjectMeta {
        name: Some("web".to_string()),
        generate_name: None,
        namespace: Some("team-a".to_string()),
        annotations,
        owner_references: None,
    }
}

fn deployment(annotations: &[(&str, &str)], replicas: Option<i32>) -> Deployment {
    Deployment { metadata: meta(annotations), spec: Some(ReplicasSpec { replicas }) }
}

/// The type, the text annotations and the spec of a patch.
fn parts(patch: Patch) -> (String, String, Option<Vec<(String, String)>>, SpecPatch) {
    match patch {
        Patch::Apply(p) => {
            let annotations = p.metadata.as_ref().map(|m| {
                m.annotations
                    .iter()
                    .map(|(k, v)| match v {
                        AnnotationValue::Text(t) => (k.clone(), t.clone()),
                        AnnotationValue::Object(_) => (k.clone(), "<object>".to_string()),
                    })
                    .collect()
            });
            (p.api_version, p.kind, annotations, p.spec)
        }
    }
}

fn replicas(spec: &SpecPatch) -> i32 {
    match spec {
        SpecPatch::Replicas(n) => *n,
        _ => panic!("expected replicas"),
    }
}

#[test]
fn sleeping_deployment_keeps_its_replicas() {
    let patch = generate_deployment_patch(&deployment(&[], Some(3)), false).unwrap();
    let (api_version, kind, annotations, spec) = parts(patch);
    assert_eq!(api_version, "apps/v1");
    assert_eq!(kind, "Deployment");
    assert_eq!(annotations, Some(vec![(REPLICAS_ANNOTATION.to_string(), "3".to_string())]));
    assert_eq!(replicas(&spec), 0);
}

#[test]
fn sleep_then_wake_restores_replicas() {
    let patch = generate_deployment_patch(&deployment(&[], Some(-4)), false).unwrap();
    let (_, _, annotations, _) = parts(patch);
    let recorded = annotations.unwrap()[0].1.clone();
    assert_eq!(recorded, "-4");
    let asleep = deployment(&[(REPLICAS_ANNOTATION, &recorded)], Some(0));
    let patch = generate_deployment_patch(&asleep, true).unwrap();
    let (_, _, annotations, spec) = parts(patch);
    assert_eq!(annotations, None);
    assert_eq!(replicas(&spec), -4);
}

#[test]
fn recorded_replicas_are_read_as_rust_parses_i32() {
    for text in ["7", "+7", "-7", "007", "2147483647", "-2147483648", "2147483648", "-2147483649", "", "+", "-", "7a", " 7", "99999999999999999999"] {
        let asleep = deployment(&[(REPLICAS_ANNOTATION, text)], Some(0));
        let woken = generate_deployment_patch(&asleep, true).map(|p| replicas(&parts(p).3));
        assert_eq!(woken, text.parse::<i32>().ok().filter(|&n| n != 0), "{text:?}");
    }
}

#[test]
fn replica_patches_repeat_nothing() {
    assert!(generate_deployment_patch(&deployment(&[], Some(0)), false).is_none());
    assert!(generate_deployment_patch(&deployment(&[(REPLICAS_ANNOTATION, "2")], Some(2)), true).is_none());
    assert!(generate_deployment_patch(&deployment(&[], Some(2)), true).is_none());
    assert!(generate_deployment_patch(&deployment(&[(REPLICAS_ANNOTATION, "two")], Some(0)), true).is_none());
    assert!(generate_deployment_patch(&deployment(&[(REPLICAS_ANNOTATION, "2")], None), true).is_none());
}

#[test]
fn other_scalable_kinds() {
    let s = StatefulSet { metadata: meta(&[]), spec: Some(ReplicasSpec { replicas: Some(1) }) };
    let (api_version, kind, _, _) = parts(generate_stateful_set_patch(&s, false).unwrap());
    assert_eq!((api_version.as_str(), kind.as_str()), ("apps/v1", "StatefulSet"));
    let r = ReplicationController { metadata: meta(&[]), spec: Some(ReplicasSpec { replicas: Some(1) }) };
    let (api_version, kind, _, _) = parts(generate_replication_controller_patch(&r, false).unwrap());
    assert_eq!((api_version.as_str(), kind.as_str()), ("v1", "ReplicationController"));
    let mut owned = meta(&[]);
    owned.owner_references = Some(vec![OwnerReference {
        api_version: "apps/v1".to_string(),
        kind: "Deployment".to_string(),
        name: "web".to_string(),
        uid: "1".to_string(),
    }]);
    let rs = ReplicaSet { metadata: owned, spec: Some(ReplicasSpec { replicas: Some(1) }) };
    assert!(generate_replica_set_patch(&rs, false).is_none());
    let rs = ReplicaSet { metadata: meta(&[]), spec: Some(ReplicasSpec { replicas: Some(1) }) };
    let (_, kind, _, _) = parts(generate_replica_set_patch(&rs, false).unwrap());
    assert_eq!(kind, "ReplicaSet");
}

fn cron_job(annotations: &[(&str, &str)], suspend: Option<bool>) -> CronJob {
    CronJob { metadata: meta(annotations), spec: Some(CronJobSpec { suspend }) }
}

#[test]
fn cron_job_suspend_then_resume() {
    let (api_version, kind, annotations, spec) =
        parts(generate_cron_job_patch(&cron_job(&[], Some(false)), false).unwrap());
    assert_eq!((api_version.as_str(), kind.as_str()), ("batch/v1", "CronJob"));
    assert_eq!(annotations, Some(vec![(SUSPENDED_ANNOTATION.to_string(), "true".to_string())]));
    assert!(matches!(spec, SpecPatch::Suspend(true)));
    let suspended = cron_job(&[(SUSPENDED_ANNOTATION, "true")], Some(true));
    assert!(generate_cron_job_patch(&suspended, false).is_none());
    let (_, _, annotations, spec) = parts(generate_cron_job_patch(&suspended, true).unwrap());
    assert_eq!(annotations, Some(vec![(SUSPENDED_ANNOTATION.to_string(), "false".to_string())]));
    assert!(matches!(spec, SpecPatch::Suspend(false)));
    assert!(generate_cron_job_patch(&cron_job(&[], Some(true)), true).is_none());
    assert!(generate_cron_job_patch(&cron_job(&[], None), false).is_none());
}

fn daemon_set(annotations: &[(&str, &str)], node_selector: Option<StringMap>) -> DaemonSet {
    DaemonSet {
        metadata: meta(annotations),
        spec: Some(DaemonSetSpec {
            template: PodTemplateSpec { spec: Some(PodSpec { node_selector }) },
        }),
    }
}

fn selector(pairs: &[(&str, &str)]) -> StringMap {
    let mut m = StringMap::new();
    for (k, v) in pairs {
        m.insert(k.to_string(), v.to_string());
    }
    m
}

fn node_selector_of(spec: &SpecPatch) -> Option<Vec<(String, String)>> {
    match spec {
        SpecPatch::NodeSelector(m) => m.as_ref().map(|m| m.entries().clone()),
        _ => panic!("expected a node selector"),
    }
}

#[test]
fn patches_deamonset_with_null_selector() {
    let ds = daemon_set(&[], None);

    let patch = generate_daemon_set_patch(&ds, true);
    assert!(patch.is_none());

    let patch = generate_daemon_set_patch(&ds, false);
    assert!(patch.is_some());
}

#[test]
fn daemon_set_sleep_then_wake_restores_selector() {
    let ds = daemon_set(&[], Some(selector(&[("disk", "ssd")])));
    let (_, kind, annotations, spec) = parts(generate_daemon_set_patch(&ds, false).unwrap());
    assert_eq!(kind, "DaemonSet");
    let recorded = annotations.unwrap();
    assert_eq!(recorded, vec![(NODE_SELECTOR_ANNOTATION.to_string(), "{\"disk\":\"ssd\"}".to_string())]);
    assert_eq!(
        node_selector_of(&spec),
        Some(vec![("non-existent-label".to_string(), "non-existent-name".to_string())])
    );
    let asleep = daemon_set(
        &[(NODE_SELECTOR_ANNOTATION, &recorded[0].1)],
        Some(selector(&[("non-existent-label", "non-existent-name")])),
    );
    assert!(generate_daemon_set_patch(&asleep, false).is_none());
    let (_, _, annotations, spec) = parts(generate_daemon_set_patch(&asleep, true).unwrap());
    assert_eq!(annotations, None);
    assert_eq!(node_selector_of(&spec), Some(vec![("disk".to_string(), "ssd".to_string())]));
}

#[test]
fn null_selector_wakes_back_to_null() {
    let asleep = daemon_set(
        &[(NODE_SELECTOR_ANNOTATION, "null")],
        Some(selector(&[("non-existent-label", "non-existent-name")])),
    );
    let (_, _, _, spec) = parts(generate_daemon_set_patch(&asleep, true).unwrap());
    assert_eq!(node_selector_of(&spec), None);
    let broken = daemon_set(
        &[(NODE_SELECTOR_ANNOTATION, "{not json")],
        Some(selector(&[("non-existent-label", "non-existent-name")])),
    );
    assert!(generate_daemon_set_patch(&broken, true).is_none());
}

#[test]
fn skipped_workloads_are_left_alone() {
    let w = Workload::Deployment(deployment(&[(SKIP_ANNOTATION, "true")], Some(3)));
    assert!(plan_workload_patch(&w, false).is_none());
    let w = Workload::Deployment(deployment(&[], Some(3)));
    assert!(plan_workload_patch(&w, false).is_some());
    let w = Workload::CronJob(cron_job(&[(SKIP_ANNOTATION, "")], Some(false)));
    assert!(plan_workload_patch(&w, false).is_none());
}

#[test]
fn legacy_wake_clears_annotations() {
    let asleep = deployment(&[(REPLICAS_ANNOTATION, "5")], Some(0));
    let (_, _, annotations, spec) = parts(legacy::generate_deployment_patch(&asleep, true).unwrap());
    assert_eq!(annotations, Some(Vec::new()));
    assert_eq!(replicas(&spec), 5);
    let awake = deployment(&[(REPLICAS_ANNOTATION, "5")], Some(5));
    assert!(legacy::generate_deployment_patch(&awake, true).is_some());
    let (_, _, annotations, spec) = parts(legacy::generate_deployment_patch(&deployment(&[], Some(2)), false).unwrap());
    assert_eq!(annotations, Some(vec![(REPLICAS_ANNOTATION.to_string(), "2".to_string())]));
    assert_eq!(replicas(&spec), 0);
}

#[test]
fn legacy_daemon_set_keeps_selector_as_object() {
    let ds = daemon_set(&[], Some(selector(&[("disk", "ssd")])));
    let (_, _, annotations, _) = parts(legacy::generate_daemon_set_patch(&ds, false).unwrap());
    assert_eq!(annotations, Some(vec![(NODE_SELECTOR_ANNOTATION.to_string(), "<object>".to_string())]));
    assert!(legacy::generate_daemon_set_patch(&daemon_set(&[], None), false).is_none());
    let asleep = daemon_set(
        &[(NODE_SELECTOR_ANNOTATION, "{\"disk\":\"ssd\",\"non-existent-label\":\"x\"}")],
        Some(selector(&[("non-existent-label", "non-existent-name")])),
    );
    let (_, _, annotations, spec) = parts(legacy::generate_daemon_set_patch(&asleep, true).unwrap());
    assert_eq!(annotations, Some(Vec::new()));
    assert_eq!(node_selector_of(&spec), Some(vec![("disk".to_string(), "ssd".to_string())]));
}
