use kubesitter::kubesitter::cli::parse_desired_state;
use kubesitter::error::Error;
use kubesitter::kubesitter::controller::{cleanup_event, plan_reconcile, ReconcileStep, REQUEUE_SECS};
use kubesitter::kubesitter::model::{
    Assignment, AssignmentType, NamespaceSelector, ResourceFilter, ResourceReference,
    SchedulePolicy, SchedulePolicySpec, SchedulePolicyStatus,
};
use kubesitter::kubesitter::resources_logic::core_logic::{
    determine_assignment_type, namespace_query, namespace_query_for, plan_policy_resources,
    select_namespace_names,
};
use kubesitter::kubesitter::uniskai::{
    schedule_needs_apply, schedule_resource_name, PolicySync, CONNECTION_FAILURE_THRESHOLD,
};
use kubesitter::resources::ObjectMeta;
use kubesitter::string_map::StringMap;
use kubesitter::time::{NaiveDate, NaiveDateTime, NaiveTime, UtcDateTime, Weekday};
use kubesitter::uniskai_sdk::{CloudsitterPolicy, CloudsitterResource, CloudsitterSchedule, Identification};
use kubesitter::work_time::{Schedule, WorkTime};
use chrono::{Datelike, Timelike};

fn at(text: &str) -> NaiveDateTime {
    let d = chrono::NaiveDateTime::parse_from_str(text, "%Y-%m-%dT%H:%M:%S").unwrap();
    NaiveDateTime::new(
        NaiveDate { days_from_ce: d.date().num_days_from_ce() },
        NaiveTime { secs: d.time().num_seconds_from_midnight(), frac: d.time().nanosecond() },
    )
}

fn instant(rfc3339: &str) -> UtcDateTime {
    let d = chrono::DateTime::parse_from_rfc3339(rfc3339).unwrap();
    UtcDateTime::from_timestamp(d.timestamp(), d.timestamp_subsec_nanos()).unwrap()
}

fn meta(name: &str) -> ObjectMeta {
    ObjectMeta {
        name: Some(name.to_string()),
        generate_name: None,
        namespace: Some("default".to_string()),
        annotations: None,
        owner_references: None,
    }
}

fn office_hours() -> Schedule {
    Schedule::WorkTimes(vec![WorkTime {
        start: NaiveTime::from_hms_opt(8, 0, 0).unwrap(),
        stop: NaiveTime::from_hms_opt(17, 0, 0).unwrap(),
        days: vec![Weekday::Mon, Weekday::Tue, Weekday::Wed, Weekday::Thu, Weekday::Fri],
    }])
}

fn spec(suspend: bool, assignments: Option<Vec<Assignment>>, time_zone: Option<&str>) -> SchedulePolicySpec {
    SchedulePolicySpec {
        title: "test".to_string(),
        suspend,
        namespace_selector: NamespaceSelector::MatchNames(vec!["^team-".to_string()]),
        schedule: office_hours(),
        assignments,
        time_zone: time_zone.map(|z| z.to_string()),
    }
}

fn policy(name: &str, suspend: bool, status: Option<bool>) -> SchedulePolicy {
    SchedulePolicy {
        metadata: meta(name),
        spec: spec(suspend, None, None),
        status: status.map(|suspended| SchedulePolicyStatus { suspended }),
    }
}

#[test]
fn illegal_doc_reconcile_errors() {
    match plan_reconcile(&policy("illegal", false, None), true) {
        ReconcileStep::Apply { suspend_event: None, outcome: Err(Error::IllegalResource) } => {}
        _ => panic!("expected an illegal resource error"),
    }
}

#[test]
fn suspension_publishes_one_event() {
    match plan_reconcile(&policy("test", true, Some(false)), true) {
        ReconcileStep::Apply { suspend_event: Some(e), outcome: Ok(status) } => {
            assert_eq!(e.reason, "SuspendRequested");
            assert_eq!(e.note, "Suspending `test`");
            assert_eq!(e.action, "Hiding");
            assert!(status.suspended);
        }
        _ => panic!("expected a suspend event"),
    }
    match plan_reconcile(&policy("test", true, Some(true)), true) {
        ReconcileStep::Apply { suspend_event: None, outcome: Ok(status) } => assert!(status.suspended),
        _ => panic!("expected no event"),
    }
}

#[test]
fn disconnected_reconcile_waits() {
    assert!(matches!(plan_reconcile(&policy("test", true, None), false), ReconcileStep::Wait));
    assert_eq!(REQUEUE_SECS, 30);
}

#[test]
fn deletion_publishes_delete_event() {
    let e = cleanup_event(&policy("test", false, None));
    assert_eq!(e.reason, "DeleteRequested");
    assert_eq!(e.note, "Delete `test`");
    assert_eq!(e.action, "Deleting");
}

fn assignment(ty: AssignmentType, from: Option<&str>, to: Option<&str>, name: Option<&str>) -> Assignment {
    Assignment {
        ty,
        from: from.map(at),
        to: to.map(at),
        resource_filter: name.map(|n| ResourceFilter::MatchResources(vec![ResourceReference::new_namespace(n)])),
    }
}

#[test]
fn last_matching_assignment_wins() {
    let team_a = ResourceReference::new_namespace("team-a");
    let now = at("2023-09-02T12:00:00");
    let assignments = vec![
        assignment(AssignmentType::Sleep, None, None, None),
        assignment(AssignmentType::Work, Some("2023-09-02T00:00:00"), Some("2023-09-03T00:00:00"), Some("team-a")),
        assignment(AssignmentType::Skip, Some("2023-09-03T00:00:00"), None, Some("team-a")),
        assignment(AssignmentType::Skip, None, None, Some("team-b")),
    ];
    assert_eq!(determine_assignment_type(&team_a, Some(&assignments), &now, false), AssignmentType::Work);
    let team_c = ResourceReference::new_namespace("team-c");
    assert_eq!(determine_assignment_type(&team_c, Some(&assignments), &now, true), AssignmentType::Sleep);
}

#[test]
fn schedule_decides_without_assignment() {
    let team_a = ResourceReference::new_namespace("team-a");
    let now = at("2023-09-02T12:00:00");
    assert_eq!(determine_assignment_type(&team_a, None, &now, true), AssignmentType::Work);
    assert_eq!(determine_assignment_type(&team_a, Some(&Vec::new()), &now, false), AssignmentType::Sleep);
    let later = vec![assignment(AssignmentType::Skip, Some("2023-09-03T00:00:00"), None, None)];
    assert_eq!(determine_assignment_type(&team_a, Some(&later), &now, false), AssignmentType::Sleep);
}

#[test]
fn name_patterns_are_ored() {
    let query = namespace_query(&NamespaceSelector::MatchNames(vec![
        "^team-".to_string(),
        "(unclosed".to_string(),
        "^prod$".to_string(),
    ]));
    assert!(query.label_selector.is_none());
    let kept = select_namespace_names(
        &query,
        vec!["team-a".to_string(), "prod".to_string(), "production".to_string(), "kube-system".to_string()],
    );
    assert_eq!(kept, vec!["team-a".to_string(), "prod".to_string()]);
}

#[test]
fn label_selector_of_labels() {
    let mut labels = StringMap::new();
    labels.insert("env".to_string(), "prod".to_string());
    labels.insert("team".to_string(), "a".to_string());
    let query = namespace_query(&NamespaceSelector::MatchLabels(labels));
    assert_eq!(query.label_selector, Some("env=prod,team=a".to_string()));
    let names = vec!["x".to_string()];
    assert_eq!(select_namespace_names(&query, names.clone()), names);
}

#[test]
fn label_selector_lists_keys_in_ascending_order() {
    let mut labels = StringMap::new();
    labels.insert("zone".to_string(), "eu".to_string());
    labels.insert("team".to_string(), "a".to_string());
    labels.insert("app".to_string(), "web".to_string());
    labels.insert("team".to_string(), "b".to_string());
    let query = namespace_query(&NamespaceSelector::MatchLabels(labels));
    assert_eq!(query.label_selector, Some("app=web,team=b,zone=eu".to_string()));
}

#[test]
fn map_entries_come_in_ascending_key_order() {
    let mut m = StringMap::new();
    m.insert("b".to_string(), "2".to_string());
    m.insert("ab".to_string(), "3".to_string());
    m.insert("a".to_string(), "1".to_string());
    m.insert("B".to_string(), "4".to_string());
    let keys: Vec<&str> = m.entries().iter().map(|(k, _)| k.as_str()).collect();
    assert_eq!(keys, vec!["B", "a", "ab", "b"]);
    m.remove("ab");
    let keys: Vec<&str> = m.entries().iter().map(|(k, _)| k.as_str()).collect();
    assert_eq!(keys, vec!["B", "a", "b"]);
}

#[test]
fn suspended_policy_leaves_namespaces_alone() {
    assert!(namespace_query_for(&spec(true, None, None)).is_none());
    assert!(namespace_query_for(&spec(false, None, None)).is_some());
    let plan = plan_policy_resources(&spec(true, None, None), &vec!["team-a".to_string()], &instant("2023-09-01T10:00:00Z")).unwrap();
    assert!(plan.is_empty());
}

#[test]
fn plan_of_policy_resources() {
    let names = vec!["team-a".to_string(), "team-b".to_string()];
    let assignments = vec![assignment(AssignmentType::Skip, None, None, Some("team-b"))];
    // Friday 2023-09-01 06:00 UTC is 09:00 in Kyiv: work time.
    let plan = plan_policy_resources(
        &spec(false, Some(assignments), Some("Europe/Kyiv")),
        &names,
        &instant("2023-09-01T06:00:00Z"),
    )
    .unwrap();
    assert_eq!(plan, vec![("team-a".to_string(), true)]);
    let plan = plan_policy_resources(&spec(false, None, Some("UTC")), &names, &instant("2023-09-01T06:00:00Z")).unwrap();
    assert_eq!(plan, vec![("team-a".to_string(), false), ("team-b".to_string(), false)]);
    assert!(plan_policy_resources(&spec(false, None, Some("Nowhere")), &names, &instant("2023-09-01T06:00:00Z")).is_err());
}

fn cloudsitter_policy(id: i64, name: &str) -> CloudsitterPolicy {
    CloudsitterPolicy {
        id,
        name: name.to_string(),
        schedules: CloudsitterSchedule { hours: vec![false; 168] },
        resources: Vec::new(),
        disabled: false,
        timezone: "UTC".to_string(),
        gmt: "+00:00".to_string(),
        brake_reason: None,
        broken: false,
        next_state: false,
        emails: Some(vec!["ops@example.com".to_string()]),
    }
}

#[test]
fn remembered_policy_is_current() {
    let mut sync = PolicySync::new();
    let p = cloudsitter_policy(1, "Office");
    assert!(sync.needs_reconcile(&p));
    sync.remember(cloudsitter_policy(1, "Office"));
    assert!(!sync.needs_reconcile(&p));
    assert!(sync.needs_reconcile(&cloudsitter_policy(1, "Office 2")));
    assert!(sync.needs_reconcile(&cloudsitter_policy(2, "Office")));
}

#[test]
fn failures_in_a_row_disconnect() {
    let mut sync = PolicySync::new();
    assert_eq!(CONNECTION_FAILURE_THRESHOLD, 2);
    assert!(!sync.record_failure(CONNECTION_FAILURE_THRESHOLD));
    assert!(!sync.record_failure(CONNECTION_FAILURE_THRESHOLD));
    assert!(sync.record_failure(CONNECTION_FAILURE_THRESHOLD));
    assert_eq!(sync.failure_count(), 3);
    sync.record_success();
    assert_eq!(sync.failure_count(), 0);
    assert!(!sync.record_failure(CONNECTION_FAILURE_THRESHOLD));
}

#[test]
fn resource_name_of_a_policy() {
    assert_eq!(schedule_resource_name("Office Hours EU"), "office-hours-eu");
    assert_eq!(schedule_resource_name("ÄRGER"), "ärger");
}

#[test]
fn spec_is_applied_only_when_it_changed() {
    let desired = spec(false, None, None);
    assert!(schedule_needs_apply(None, &desired));
    assert!(!schedule_needs_apply(Some(&spec(false, None, None)), &desired));
    assert!(schedule_needs_apply(Some(&spec(true, None, None)), &desired));
}

#[test]
fn desired_state_arguments() {
    assert_eq!(parse_desired_state("on"), Some(true));
    assert_eq!(parse_desired_state("1"), Some(true));
    assert_eq!(parse_desired_state("off"), Some(false));
    assert_eq!(parse_desired_state("0"), Some(false));
    assert_eq!(parse_desired_state("ON"), None);
}

#[test]
fn paused_namespace_is_awake_during_its_pause() {
    let mut p = cloudsitter_policy(3, "Paused");
    p.timezone = "Europe/Kyiv".to_string();
    p.resources = vec![CloudsitterResource {
        id: "ns".to_string(),
        ty: "kubernetes-namespace".to_string(),
        identification: Identification::AzureIdentification {
            rn: "clusters/c1/namespaces/team-a".to_string(),
            region: "westeurope".to_string(),
        },
        pause_from: Some(instant("2023-09-01T00:00:00Z")),
        pause_to: Some(instant("2023-09-02T00:00:00Z")),
    }];
    let spec = SchedulePolicySpec::try_from(&p).unwrap();
    let team_a = ResourceReference::new_namespace("team-a");
    let assignments = spec.assignments.as_ref();
    // The pause runs from 03:00 on the 1st to 03:00 on the 2nd, Kyiv time.
    assert_eq!(determine_assignment_type(&team_a, assignments, &at("2023-09-01T03:00:00"), false), AssignmentType::Work);
    assert_eq!(determine_assignment_type(&team_a, assignments, &at("2023-09-02T03:00:00"), false), AssignmentType::Work);
    assert_eq!(determine_assignment_type(&team_a, assignments, &at("2023-09-02T03:00:01"), false), AssignmentType::Sleep);
    let team_b = ResourceReference::new_namespace("team-b");
    assert_eq!(determine_assignment_type(&team_b, assignments, &at("2023-09-01T12:00:00"), false), AssignmentType::Sleep);
}
