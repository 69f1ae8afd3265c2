use chrono::{Datelike, Timelike};
use kubesitter::error::Error;
use kubesitter::kubesitter::model::{
    convert_to_local_time, convert_to_work_times, fixed_offset_fits_exec, local_time_with_zone,
    parse_fixed_offset, AssignmentType, LabelSelectorRequirement, RequirementOperator,
    ResourceReference, SchedulePolicy, SchedulePolicySpec, SchedulePolicyStatus,
    NamespaceSelector,
};
use kubesitter::kubesitter::safe_date_time::deserialize;
use kubesitter::resources::ObjectMeta;
use kubesitter::schedule_controller::schedule::convert_to_local_time as convert_in_named_zone;
use kubesitter::time::{NaiveDate, NaiveDateTime, NaiveTime, UtcDateTime};
use kubesitter::uniskai_sdk::{
    CloudsitterPolicy, CloudsitterResource, CloudsitterSchedule, Identification,
};
use kubesitter::work_time::Schedule;

fn at(text: &str) -> NaiveDateTime {
    let d = chrono::NaiveDateTime::parse_from_str(text, "%Y-%m-%dT%H:%M:%S").unwrap();
    NaiveDateTime::new(
        NaiveDate { days_from_ce: d.date().num_days_from_ce() },
        NaiveTime { secs: d.time().num_seconds_from_midnight(), frac: d.time().nanosecond() },
    )
}

fn instant(rfc3339: &str) -> UtcDateTime {
    let d = chrono::DateTime::parse_from_rfc3339(rfc3339).unwrap();
    UtcDateTime::from_timestamp(d.timestamp(), d.timestamp_subsec_nanos()).unwrap()
}

#[test]
fn model_converts_to_local_time() {
    let now = instant("2023-09-01T00:00:00Z");
    assert_eq!(convert_to_local_time(&now, None).unwrap(), at("2023-09-01T00:00:00"));
    assert_eq!(
        convert_to_local_time(&now, Some(&"Europe/Kyiv".to_string())).unwrap(),
        at("2023-09-01T03:00:00")
    );
    assert_eq!(convert_to_local_time(&now, Some(&"Z".to_string())).unwrap(), at("2023-09-01T00:00:00"));
    assert_eq!(
        convert_to_local_time(&now, Some(&"+03:00".to_string())).unwrap(),
        at("2023-09-01T03:00:00")
    );
    assert_eq!(
        convert_to_local_time(&now, Some(&"-2".to_string())).unwrap(),
        at("2023-08-31T22:00:00")
    );
}

#[test]
fn schedule_converts_to_local_time() {
    let now = instant("2023-09-01T00:00:00Z");
    let now = convert_in_named_zone(&now, "Europe/Kyiv").unwrap();
    assert_eq!(now, at("2023-09-01T03:00:00"));
}

#[test]
fn unknown_zone_is_an_invalid_parameter() {
    let now = instant("2023-09-01T00:00:00Z");
    match convert_to_local_time(&now, Some(&"Mars/Olympus".to_string())) {
        Err(Error::InvalidParameters(m)) => assert_eq!(m, "'Mars/Olympus' is not a valid timezone"),
        _ => panic!("expected an error"),
    }
}

#[test]
fn unknown_named_zone_is_a_deserialization_error() {
    let now = instant("2023-09-01T00:00:00Z");
    match convert_in_named_zone(&now, "+03:00") {
        Err(Error::DeserializationError(m)) => assert_eq!(m, "'+03:00' is not a valid timezone"),
        _ => panic!("expected an error"),
    }
}

#[test]
fn local_time_follows_the_zone_lookup() {
    let now = instant("2023-09-01T00:00:00Z");
    assert_eq!(local_time_with_zone(&now, "Anything", Ok(3600)).unwrap(), at("2023-09-01T01:00:00"));
    assert_eq!(
        local_time_with_zone(&now, "UTC+1:30", Err("unknown".to_string())).unwrap(),
        at("2023-09-01T01:30:00")
    );
    match local_time_with_zone(&now, "nowhere", Err("unknown".to_string())) {
        Err(Error::InvalidParameters(m)) => assert_eq!(m, "unknown"),
        _ => panic!("expected an error"),
    }
}

#[test]
fn fixed_offsets() {
    let secs = |s: &str| parse_fixed_offset(s).map(|o| o.local_minus_utc);
    assert_eq!(secs("Z"), Some(0));
    assert_eq!(secs("utc"), Some(0));
    assert_eq!(secs("gmt"), Some(0));
    assert_eq!(secs("+03:00"), Some(10800));
    assert_eq!(secs("-2"), Some(-7200));
    assert_eq!(secs("GMT-05:30"), Some(-19800));
    assert_eq!(secs("UTC+1:2:3"), Some(3720));
    assert_eq!(secs("3:"), None);
    assert_eq!(secs("Europe/Kyiv"), None);
    assert_eq!(secs("+24"), None);
    assert!(fixed_offset_fits_exec("+03:00"));
    assert!(!fixed_offset_fits_exec("9999999"));
}

#[test]
fn parses_sleep_all_assignment() {
    assert_eq!(deserialize(None), Ok(None));
}

#[test]
fn parses_assignment() {
    assert_eq!(deserialize(Some("2023-09-01T00:00:00+03:00")), Ok(Some(at("2023-09-01T00:00:00"))));
    assert_eq!(deserialize(Some("2023-09-01T00:00:00Z")), Ok(Some(at("2023-09-01T00:00:00"))));
    let reference = ResourceReference::new_namespace("test");
    assert_eq!(reference.api_version, "v1");
    assert_eq!(reference.kind, "Namespace");
    assert_eq!(reference.name, "test");
    assert_eq!(reference.namespace, None);
}

#[test]
fn assignment_time_that_does_not_parse_is_an_error() {
    assert!(deserialize(Some("yesterday")).is_err());
}

fn requirement(key: &str, operator: RequirementOperator, values: Option<Vec<&str>>) -> LabelSelectorRequirement {
    LabelSelectorRequirement {
        key: key.to_string(),
        operator,
        values: values.map(|v| v.into_iter().map(|s| s.to_string()).collect()),
    }
}

#[test]
fn label_selectors_of_requirements() {
    let r = requirement("label1", RequirementOperator::In, Some(vec!["value1", "value2"]));
    assert_eq!(r.to_label_selector(), "label1 in (value1,value2)");
    let r = requirement("label2", RequirementOperator::NotIn, Some(vec!["value3"]));
    assert_eq!(r.to_label_selector(), "label2 notin (value3)");
    let r = requirement("label3", RequirementOperator::Exists, Some(vec!["ignored"]));
    assert_eq!(r.to_label_selector(), "label3");
    let r = requirement("label4", RequirementOperator::DoesNotExist, None);
    assert_eq!(r.to_label_selector(), "!label4");
    let r = requirement("label5", RequirementOperator::In, None);
    assert_eq!(r.to_label_selector(), "label5 in");
}

#[test]
fn operator_as_serde_json_writes_it() {
    assert_eq!(RequirementOperator::NotIn.to_string(), "\"notin\"");
    assert_eq!(RequirementOperator::DoesNotExist.as_str(), "doesnotexist");
}

#[test]
fn references_match_up_to_ascii_case_of_kind_and_version() {
    let a = ResourceReference::new_namespace("test");
    let b = ResourceReference {
        api_version: "V1".to_string(),
        kind: "namespace".to_string(),
        name: "test".to_string(),
        namespace: None,
    };
    assert!(a.matches(&b));
    let c = ResourceReference { name: "Test".to_string(), ..b.clone_ref() };
    assert!(!a.matches(&c));
    let d = ResourceReference { namespace: Some("default".to_string()), ..b.clone_ref() };
    assert!(!a.matches(&d));
}

trait CloneRef {
    fn clone_ref(&self) -> Self;
}

impl CloneRef for ResourceReference {
    fn clone_ref(&self) -> Self {
        ResourceReference {
            api_version: self.api_version.clone(),
            kind: self.kind.clone(),
            name: self.name.clone(),
            namespace: self.namespace.clone(),
        }
    }
}

fn meta(name: &str) -> ObjectMeta {
    ObjectMeta {
        name: Some(name.to_string()),
        generate_name: None,
        namespace: Some("default".to_string()),
        annotations: None,
        owner_references: None,
    }
}

fn spec(suspend: bool) -> SchedulePolicySpec {
    SchedulePolicySpec {
        title: "test".to_string(),
        suspend,
        namespace_selector: NamespaceSelector::MatchNames(vec!["default".to_string()]),
        schedule: Schedule::WorkTimes(Vec::new()),
        assignments: None,
        time_zone: None,
    }
}

#[test]
fn was_suspended_reads_the_status() {
    let p = SchedulePolicy { metadata: meta("test"), spec: spec(true), status: None };
    assert!(!p.was_suspended());
    let p = SchedulePolicy {
        metadata: meta("test"),
        spec: spec(true),
        status: Some(SchedulePolicyStatus { suspended: true }),
    };
    assert!(p.was_suspended());
}

#[test]
fn grid_of_unexpected_length_is_an_invalid_parameter() {
    match convert_to_work_times(&vec![true; 100]) {
        Err(Error::InvalidParameters(m)) => assert_eq!(m, "Unexpected amount of periods in schedule"),
        _ => panic!("expected an error"),
    }
}

fn namespace_resource(ty: &str, arn: &str, pause_from: Option<UtcDateTime>) -> CloudsitterResource {
    CloudsitterResource {
        id: "r".to_string(),
        ty: ty.to_string(),
        identification: Identification::AwsIdentification {
            arn: arn.to_string(),
            region: "eu-west-1".to_string(),
        },
        pause_from,
        pause_to: None,
    }
}

fn policy(hours: Vec<bool>, timezone: &str, resources: Vec<CloudsitterResource>) -> CloudsitterPolicy {
    CloudsitterPolicy {
        id: 7,
        name: "Office Hours".to_string(),
        schedules: CloudsitterSchedule { hours },
        resources,
        disabled: false,
        timezone: timezone.to_string(),
        gmt: "+03:00".to_string(),
        brake_reason: None,
        broken: false,
        next_state: true,
        emails: None,
    }
}

#[test]
fn spec_of_a_cloudsitter_policy() {
    let pause = instant("2023-09-01T00:00:00Z");
    let p = policy(
        vec![false; 168],
        "Europe/Kyiv",
        vec![
            namespace_resource("kubernetes-namespace", "cluster/ns/team-a", Some(pause)),
            namespace_resource("eks-namespace", "cluster/team-b", None),
            namespace_resource("ec2-instance", "i/abc", Some(pause)),
            namespace_resource("kubernetes-namespace", "no-slash", None),
        ],
    );
    let s = SchedulePolicySpec::try_from(&p).unwrap();
    assert_eq!(s.title, "Office Hours");
    assert!(!s.suspend);
    assert_eq!(s.time_zone, Some("Europe/Kyiv".to_string()));
    match &s.namespace_selector {
        NamespaceSelector::MatchNames(names) => assert_eq!(names, &vec!["team-a".to_string(), "team-b".to_string()]),
        _ => panic!("expected names"),
    }
    let assignments = s.assignments.as_ref().unwrap();
    assert_eq!(assignments.len(), 1);
    assert_eq!(assignments[0].ty, AssignmentType::Work);
    assert_eq!(assignments[0].from, Some(at("2023-09-01T03:00:00")));
    assert_eq!(assignments[0].to, None);
}

#[test]
fn policy_with_bad_zone_and_paused_namespace_fails() {
    let pause = instant("2023-09-01T00:00:00Z");
    let p = policy(
        vec![false; 168],
        "Mars/Olympus",
        vec![namespace_resource("kubernetes-namespace", "cluster/team-a", Some(pause))],
    );
    match SchedulePolicySpec::try_from(&p) {
        Err(Error::InvalidParameters(m)) => assert_eq!(m, "'Mars/Olympus' is not a valid timezone"),
        _ => panic!("expected an error"),
    }
    let p = policy(vec![false; 168], "Mars/Olympus", Vec::new());
    assert!(SchedulePolicySpec::try_from(&p).is_ok());
}

#[test]
fn specs_compare_by_content() {
    let a = spec(false);
    let b = spec(false);
    assert!(a.same_as(&b));
    assert!(!a.same_as(&spec(true)));
}
