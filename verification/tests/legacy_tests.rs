use kubesitter::controller::kubesitter::{namespace_query, policy_desired_state};
use kubesitter::controller::{
    plan_reconcile, LabelSelectorRequirement, NamespaceSelector, SchedulePolicy, SchedulePolicySpec,
};
use kubesitter::kubesitter::controller::ReconcileStep;
use kubesitter::kubesitter::model::RequirementOperator;
use kubesitter::resources::ObjectMeta;
use kubesitter::schedule_controller::kubesitter::plan_policy_resources as plan_v2;
use kubesitter::schedule_controller::model as model_v2;
use kubesitter::time::{NaiveTime, UtcDateTime, Weekday};
use kubesitter::uniskai::{convert_to_schedule_policy, convert_to_work_times, Error};
use kubesitter::uniskai_sdk::{CloudsitterPolicy, CloudsitterResource, CloudsitterSchedule, Identification};
use kubesitter::work_time::{Schedule, WorkTime};

fn instant(rfc3339: &str) -> UtcDateTime {
    let d = chrono::DateTime::parse_from_rfc3339(rfc3339).unwrap();
    UtcDateTime::from_timestamp(d.timestamp(), d.timestamp_subsec_nanos()).unwrap()
}

#[test]
fn text_operator_is_lower_cased() {
    let r = LabelSelectorRequirement {
        key: "tier".to_string(),
        operator: "NotIn".to_string(),
        values: Some(vec!["db".to_string(), "cache".to_string()]),
    };
    assert_eq!(r.to_label_selector(), "tier notin (db,cache)");
    let r = LabelSelectorRequirement { key: "tier".to_string(), operator: "Exists".to_string(), values: None };
    assert_eq!(r.to_label_selector(), "tier exists");
    let query = namespace_query(&NamespaceSelector::MatchExpressions(vec![
        LabelSelectorRequirement { key: "a".to_string(), operator: "In".to_string(), values: Some(vec!["1".to_string()]) },
        LabelSelectorRequirement { key: "b".to_string(), operator: "DoesNotExist".to_string(), values: None },
    ]));
    assert_eq!(query.label_selector, Some("a in (1),b doesnotexist".to_string()));
}

#[test]
fn second_generation_label_selector() {
    let r = model_v2::LabelSelectorRequirement {
        key: "label1".to_string(),
        operator: RequirementOperator::In,
        values: Some(vec!["value1".to_string(), "value2".to_string()]),
    };
    assert_eq!(r.to_label_selector(), "label1 in (value1,value2)");
    let r = model_v2::LabelSelectorRequirement {
        key: "label3".to_string(),
        operator: RequirementOperator::Exists,
        values: Some(vec!["ignored".to_string()]),
    };
    assert_eq!(r.to_label_selector(), "label3 exists");
}

fn spec(time_zone: Option<&str>) -> SchedulePolicySpec {
    SchedulePolicySpec {
        title: "t".to_string(),
        suspend: false,
        namespace_selector: NamespaceSelector::MatchNames(Vec::new()),
        schedule: Schedule::WorkTimes(vec![WorkTime {
            start: NaiveTime::from_hms_opt(8, 0, 0).unwrap(),
            stop: NaiveTime::from_hms_opt(17, 0, 0).unwrap(),
            days: vec![Weekday::Fri],
        }]),
        time_zone: time_zone.map(|z| z.to_string()),
    }
}

#[test]
fn desired_state_in_the_policy_zone() {
    let now = instant("2023-09-01T06:00:00Z");
    assert_eq!(policy_desired_state(&spec(Some("Europe/Kyiv")), &now).unwrap(), true);
    assert_eq!(policy_desired_state(&spec(None), &now).unwrap(), false);
    assert!(policy_desired_state(&spec(Some("+03:00")), &now).is_err());
}

#[test]
fn second_generation_plan_of_namespaces() {
    let now = instant("2023-09-01T06:00:00Z");
    let names = vec!["team-a".to_string(), "team-b".to_string()];
    let plan = plan_v2(&spec(Some("Europe/Kyiv")), &names, &now).unwrap();
    assert_eq!(plan, vec![("team-a".to_string(), true), ("team-b".to_string(), true)]);
    let plan = plan_v2(&spec(None), &names, &now).unwrap();
    assert_eq!(plan, vec![("team-a".to_string(), false), ("team-b".to_string(), false)]);
    assert!(plan_v2(&spec(Some("Mars/Olympus")), &names, &now).is_err());
    let mut suspended = spec(Some("Mars/Olympus"));
    suspended.suspend = true;
    assert_eq!(plan_v2(&suspended, &names, &now).unwrap(), Vec::new());
}

#[test]
fn first_generation_reconcile() {
    let p = SchedulePolicy {
        metadata: ObjectMeta {
            name: Some("illegal".to_string()),
            generate_name: None,
            namespace: Some("default".to_string()),
            annotations: None,
            owner_references: None,
        },
        spec: spec(None),
        status: None,
    };
    assert!(matches!(plan_reconcile(&p), ReconcileStep::Apply { suspend_event: None, outcome: Err(_) }));
}

fn cloudsitter_policy(hours: usize) -> CloudsitterPolicy {
    CloudsitterPolicy {
        id: 1,
        name: "Policy".to_string(),
        schedules: CloudsitterSchedule { hours: vec![true; hours] },
        resources: vec![CloudsitterResource {
            id: "1".to_string(),
            ty: "kubernetes-namespace".to_string(),
            identification: Identification::GcpIdentification {
                grn: "projects/p/namespaces/team-a".to_string(),
                region: "eu".to_string(),
            },
            pause_from: None,
            pause_to: None,
        }],
        disabled: true,
        timezone: "UTC".to_string(),
        gmt: "+00:00".to_string(),
        brake_reason: None,
        broken: false,
        next_state: false,
        emails: None,
    }
}

#[test]
fn first_conversion_of_a_policy() {
    let s = convert_to_schedule_policy(&cloudsitter_policy(336));
    assert_eq!(s.title, "Policy");
    assert!(s.suspend);
    match s.namespace_selector {
        NamespaceSelector::MatchNames(names) => assert_eq!(names, vec!["team-a".to_string()]),
        _ => panic!("expected names"),
    }
    match s.schedule {
        Schedule::WorkTimes(times) => {
            assert_eq!(times.len(), 1);
            assert_eq!(times[0].start, NaiveTime::from_hms_opt(0, 0, 0).unwrap());
            assert_eq!(times[0].stop, NaiveTime::from_hms_opt(23, 59, 59).unwrap());
            assert_eq!(times[0].days.len(), 7);
        }
    }
    assert!(matches!(convert_to_work_times(&vec![true; 5]), Err(Error::InvalidSchedule)));
    assert_eq!(Error::InvalidSchedule.message(), "Invalid schedule value");
}

#[test]
fn second_conversion_of_a_policy() {
    let s = model_v2::SchedulePolicySpec::try_from(&cloudsitter_policy(672)).unwrap();
    match s.namespace_selector {
        model_v2::NamespaceSelector::MatchNames(names) => assert_eq!(names, vec!["team-a".to_string()]),
        _ => panic!("expected names"),
    }
    assert!(model_v2::SchedulePolicySpec::try_from(&cloudsitter_policy(3)).is_err());
}
