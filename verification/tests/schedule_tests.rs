use chrono::{Datelike, Timelike};
use kubesitter::kubesitter::resources_logic::core_logic::determine_schedule_state;
use kubesitter::schedule_controller::schedule::determine_desired_state;
use kubesitter::time::{NaiveDate, NaiveDateTime, NaiveTime, UtcDateTime, Weekday, MAX_UTC_SECS, MIN_UTC_SECS};
use kubesitter::work_time::{schedule_active_at, work_times_from_grid, Schedule, WorkTime};

fn at(text: &str) -> NaiveDateTime {
    let d = chrono::NaiveDateTime::parse_from_str(text, "%Y-%m-%dT%H:%M:%S").unwrap();
    NaiveDateTime::new(
        NaiveDate { days_from_ce: d.date().num_days_from_ce() },
        NaiveTime { secs: d.time().num_seconds_from_midnight(), frac: d.time().nanosecond() },
    )
}

fn hms(h: u32, m: u32, s: u32) -> NaiveTime {
    NaiveTime::from_hms_opt(h, m, s).unwrap()
}

fn office_hours() -> Schedule {
    Schedule::WorkTimes(vec![WorkTime {
        start: hms(8, 0, 0),
        stop: hms(17, 0, 0),
        days: vec![Weekday::Mon, Weekday::Tue, Weekday::Wed, Weekday::Thu, Weekday::Fri],
    }])
}

fn always_on() -> Schedule {
    Schedule::WorkTimes(vec![WorkTime {
        start: hms(0, 0, 0),
        stop: hms(23, 59, 59),
        days: vec![
            Weekday::Mon,
            Weekday::Tue,
            Weekday::Wed,
            Weekday::Thu,
            Weekday::Fri,
            Weekday::Sat,
            Weekday::Sun,
        ],
    }])
}

const OFFICE_CASES: [(&str, bool); 6] = [
    ("2023-09-01T07:59:59", false),
    ("2023-09-01T08:00:00", true),
    ("2023-09-01T08:00:01", true),
    ("2023-09-01T16:59:59", true),
    ("2023-09-01T17:00:00", true),
    ("2023-09-01T17:00:01", false),
];

const ALWAYS_CASES: [(&str, bool); 6] = [
    ("2023-09-01T00:00:00", true),
    ("2023-09-03T00:00:00", true),
    ("2023-09-04T00:00:00", true),
    ("2023-09-01T23:59:59", true),
    ("2023-09-01T01:00:00", true),
    ("2023-09-01T12:00:00", true),
];

#[test]
fn core_determines_desired_state() {
    let schedule = office_hours();
    for (now, expected_desired_state) in OFFICE_CASES {
        let desired_state = determine_schedule_state(&schedule, &at(now)).unwrap();
        assert_eq!(desired_state, expected_desired_state, "now: {}", now);
    }
}

#[test]
fn core_determines_awlways_on_state() {
    let schedule = always_on();
    for (now, expected_desired_state) in ALWAYS_CASES {
        let desired_state = determine_schedule_state(&schedule, &at(now)).unwrap();
        assert_eq!(desired_state, expected_desired_state, "now: {}", now);
    }
}

#[test]
fn schedule_determines_desired_state() {
    let schedule = office_hours();
    for (now, expected_desired_state) in OFFICE_CASES {
        let desired_state = determine_desired_state(&schedule, &at(now)).unwrap();
        assert_eq!(desired_state, expected_desired_state, "now: {}", now);
    }
}

#[test]
fn schedule_determines_awlways_on_state() {
    let schedule = always_on();
    for (now, expected_desired_state) in ALWAYS_CASES {
        let desired_state = determine_desired_state(&schedule, &at(now)).unwrap();
        assert_eq!(desired_state, expected_desired_state, "now: {}", now);
    }
}

#[test]
fn office_hours_sleep_on_the_weekend() {
    // 2023-09-02 was a Saturday.
    assert!(!schedule_active_at(&office_hours(), &at("2023-09-02T12:00:00")));
    assert!(schedule_active_at(&office_hours(), &at("2023-09-04T12:00:00")));
}

#[test]
fn weekday_of_a_known_date() {
    assert_eq!(at("2023-09-01T00:00:00").weekday(), Weekday::Fri);
    assert_eq!(at("2023-09-03T00:00:00").weekday(), Weekday::Sun);
    assert_eq!(at("2023-09-04T00:00:00").weekday(), Weekday::Mon);
}

fn hourly_grid(on: &[(usize, usize)]) -> Vec<bool> {
    let mut grid = vec![false; 168];
    for &(from, to) in on {
        for slot in grid.iter_mut().take(to).skip(from) {
            *slot = true;
        }
    }
    grid
}

#[test]
fn grid_of_office_hours_gives_one_work_time() {
    // Monday to Friday, 8:00 to 17:00 (periods 8..17 of each day).
    let ranges: Vec<(usize, usize)> = (0..5).map(|d| (d * 24 + 8, d * 24 + 17)).collect();
    let times = work_times_from_grid(&hourly_grid(&ranges)).unwrap();
    assert_eq!(times.len(), 1);
    assert_eq!(times[0].start, hms(8, 0, 0));
    assert_eq!(times[0].stop, hms(17, 0, 0));
    assert_eq!(
        times[0].days,
        vec![Weekday::Mon, Weekday::Tue, Weekday::Wed, Weekday::Thu, Weekday::Fri]
    );
}

#[test]
fn grid_run_to_midnight_stops_at_last_second() {
    // Sunday from 20:00 to the end of the day.
    let times = work_times_from_grid(&hourly_grid(&[(6 * 24 + 20, 7 * 24)])).unwrap();
    assert_eq!(times.len(), 1);
    assert_eq!(times[0].start, hms(20, 0, 0));
    assert_eq!(times[0].stop, hms(23, 59, 59));
    assert_eq!(times[0].days, vec![Weekday::Sun]);
}

#[test]
fn grid_runs_with_other_bounds_give_other_work_times() {
    let times = work_times_from_grid(&hourly_grid(&[(8, 12), (13, 17), (24 + 8, 24 + 12)])).unwrap();
    assert_eq!(times.len(), 2);
    assert_eq!(times[0].start, hms(8, 0, 0));
    assert_eq!(times[0].stop, hms(12, 0, 0));
    assert_eq!(times[0].days, vec![Weekday::Mon, Weekday::Tue]);
    assert_eq!(times[1].start, hms(13, 0, 0));
    assert_eq!(times[1].stop, hms(17, 0, 0));
    assert_eq!(times[1].days, vec![Weekday::Mon]);
}

#[test]
fn quarter_hour_grid() {
    let mut grid = vec![false; 672];
    // Wednesday 09:15 to 10:00.
    for slot in grid.iter_mut().take(2 * 96 + 40).skip(2 * 96 + 37) {
        *slot = true;
    }
    let times = work_times_from_grid(&grid).unwrap();
    assert_eq!(times.len(), 1);
    assert_eq!(times[0].start, hms(9, 15, 0));
    assert_eq!(times[0].stop, hms(10, 0, 0));
    assert_eq!(times[0].days, vec![Weekday::Wed]);
}

#[test]
fn half_hour_grid_all_off_gives_no_work_time() {
    let times = work_times_from_grid(&vec![false; 336]).unwrap();
    assert!(times.is_empty());
}

#[test]
fn grid_of_unexpected_length_is_refused() {
    assert!(work_times_from_grid(&vec![true; 167]).is_none());
    assert!(work_times_from_grid(&Vec::new()).is_none());
}

#[test]
fn naive_time_bounds() {
    assert!(NaiveTime::from_hms_opt(24, 0, 0).is_none());
    assert!(NaiveTime::from_hms_opt(23, 60, 0).is_none());
    assert_eq!(hms(1, 2, 3).secs, 3723);
}

#[test]
fn instants_cover_the_range_of_chrono() {
    let cases: Vec<(i64, u32)> = vec![
        (MIN_UTC_SECS - 1, 0),
        (MIN_UTC_SECS, 0),
        (-8_100_000_000_000, 0),
        (0, 0),
        (59, 1_500_000_000),
        (58, 1_500_000_000),
        (0, 2_000_000_000),
        (8_100_000_000_000, 0),
        (MAX_UTC_SECS, 999_999_999),
        (MAX_UTC_SECS + 1, 0),
    ];
    for (secs, nsecs) in cases {
        let ours = UtcDateTime::from_timestamp(secs, nsecs);
        let theirs = chrono::DateTime::from_timestamp(secs, nsecs);
        assert_eq!(ours.is_some(), theirs.is_some(), "{secs} {nsecs}");
    }
    assert!(chrono::DateTime::from_timestamp(MAX_UTC_SECS, 0).unwrap() == chrono::DateTime::<chrono::Utc>::MAX_UTC
        || chrono::DateTime::from_timestamp(MAX_UTC_SECS, 999_999_999).unwrap() == chrono::DateTime::<chrono::Utc>::MAX_UTC);
    assert_eq!(chrono::DateTime::from_timestamp(MIN_UTC_SECS, 0).unwrap(), chrono::DateTime::<chrono::Utc>::MIN_UTC);
    let far = UtcDateTime::from_timestamp(8_100_000_000_000, 0).unwrap();
    assert_eq!(far.naive_utc().date.days_from_ce as i64, 8_100_000_000_000 / 86400 + 719_163);
}
