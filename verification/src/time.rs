//! Calendar values as the schedules read them: weekdays, times of day,
//! local date-times, UTC instants and the time zones between them.
//!
//! The representation follows chrono's: a time of day is seconds since
//! midnight and a fraction in nanoseconds (a fraction of a second or more
//! marks a leap second), a date is its day number counted from
//! 0001-01-01 (day 1), an instant is seconds since 1970-01-01T00:00:00Z.
use chrono::{Datelike, Offset, TimeZone as _, Timelike};
use vstd::prelude::*;

verus! {

/// Day of the week, Monday first.
#[derive(Clone, Copy, Debug, PartialEq, Eq, Structural)]
pub enum Weekday {
    Mon,
    Tue,
    Wed,
    Thu,
    Fri,
    Sat,
    Sun,
}

/// The weekday `i` days after Monday, for `i` below 7.
pub open spec fn weekday_from_index(i: nat) -> Weekday {
    if i == 0 {
        Weekday::Mon
    } else if i == 1 {
        Weekday::Tue
    } else if i == 2 {
        Weekday::Wed
    } else if i == 3 {
        Weekday::Thu
    } else if i == 4 {
        Weekday::Fri
    } else if i == 5 {
        Weekday::Sat
    } else {
        Weekday::Sun
    }
}

impl Weekday {
    /// Days since Monday.
    pub open spec fn day_index(self) -> nat {
        match self {
            Weekday::Mon => 0,
            Weekday::Tue => 1,
            Weekday::Wed => 2,
            Weekday::Thu => 3,
            Weekday::Fri => 4,
            Weekday::Sat => 5,
            Weekday::Sun => 6,
        }
    }

    /// The weekday of a day index (`chrono::Weekday::try_from(u8)`):
    /// `None` from 7 on.
    pub fn from_index(i: u8) -> (r: Option<Weekday>)
        ensures
            r is Some <==> i < 7,
            r matches Some(w) ==> w.day_index() == i && w == weekday_from_index(i as nat),
    {
        match i {
            0 => Some(Weekday::Mon),
            1 => Some(Weekday::Tue),
            2 => Some(Weekday::Wed),
            3 => Some(Weekday::Thu),
            4 => Some(Weekday::Fri),
            5 => Some(Weekday::Sat),
            6 => Some(Weekday::Sun),
            _ => None,
        }
    }

    /// Days since Monday.
    pub fn num_days_from_monday(&self) -> (r: u32)
        ensures
            r == self.day_index(),
    {
        match self {
            Weekday::Mon => 0,
            Weekday::Tue => 1,
            Weekday::Wed => 2,
            Weekday::Thu => 3,
            Weekday::Fri => 4,
            Weekday::Sat => 5,
            Weekday::Sun => 6,
        }
    }
}

/// Seconds in a day.
pub const SECS_PER_DAY: u32 = 86400;

/// Nanoseconds in a second.
pub const NANOS_PER_SEC: u32 = 1_000_000_000;

/// A time of day: `secs` since midnight and a fraction `frac` in
/// nanoseconds; a fraction of a second or more marks a leap second.
#[derive(Clone, Copy, Debug, PartialEq, Eq, Structural)]
pub struct NaiveTime {
    pub secs: u32,
    pub frac: u32,
}

impl NaiveTime {
    pub open spec fn wf(self) -> bool {
        self.secs < 86400 && self.frac < 2_000_000_000
    }

    /// Chronological order: `self` is not after `other`.
    pub open spec fn le(self, other: NaiveTime) -> bool {
        self.secs < other.secs || (self.secs == other.secs && self.frac <= other.frac)
    }

    /// Midnight.
    pub fn midnight() -> (r: NaiveTime)
        ensures
            r.secs == 0 && r.frac == 0,
    {
        NaiveTime { secs: 0, frac: 0 }
    }

    /// A time from hour, minute and second (`NaiveTime::from_hms_opt`).
    pub fn from_hms_opt(hour: u32, min: u32, sec: u32) -> (r: Option<NaiveTime>)
        ensures
            r is Some <==> (hour < 24 && min < 60 && sec < 60),
            r matches Some(t) ==> t.secs == hour * 3600 + min * 60 + sec && t.frac == 0,
    {
        if hour < 24 && min < 60 && sec < 60 {
            Some(NaiveTime { secs: hour * 3600 + min * 60 + sec, frac: 0 })
        } else {
            None
        }
    }

    /// A time from seconds since midnight and nanoseconds
    /// (`NaiveTime::from_num_seconds_from_midnight_opt`).
    pub fn from_num_seconds_from_midnight_opt(secs: u32, nano: u32) -> (r: Option<NaiveTime>)
        ensures
            r is Some <==> (secs < 86400 && nano < 2_000_000_000 && (nano >= 1_000_000_000
                ==> secs % 60 == 59)),
            r matches Some(t) ==> t.secs == secs && t.frac == nano,
    {
        if secs >= 86400 || nano >= 2_000_000_000 || (nano >= 1_000_000_000 && secs % 60 != 59) {
            None
        } else {
            Some(NaiveTime { secs, frac: nano })
        }
    }

    /// Whether `self` is not after `other`.
    pub fn is_before_or_at(&self, other: &NaiveTime) -> (r: bool)
        ensures
            r == self.le(*other),
    {
        self.secs < other.secs || (self.secs == other.secs && self.frac <= other.frac)
    }
}

/// A calendar date by its day number: 0001-01-01 is day 1.
#[derive(Clone, Copy, Debug, PartialEq, Eq, Structural)]
pub struct NaiveDate {
    pub days_from_ce: i32,
}

/// The weekday of a day number; 0001-01-01 was a Monday.
pub open spec fn weekday_of_day(days_from_ce: int) -> nat {
    ((days_from_ce + 6) % 7) as nat
}

impl NaiveDate {
    /// The day of the week.
    pub fn weekday(&self) -> (r: Weekday)
        ensures
            r.day_index() == weekday_of_day(self.days_from_ce as int),
            r == weekday_from_index(weekday_of_day(self.days_from_ce as int)),
    {
        let shifted: i64 = self.days_from_ce as i64 + 2_800_000_006;
        let i = (shifted % 7) as u8;
        proof {
            let d = self.days_from_ce as int;
            assert(shifted as int == 7 * 400_000_000 + (d + 6));
            vstd::arithmetic::div_mod::lemma_mod_multiples_vanish(400_000_000, d + 6, 7);
        }
        assert(i as int == weekday_of_day(self.days_from_ce as int));
        match Weekday::from_index(i) {
            Some(w) => w,
            None => Weekday::Mon,
        }
    }
}

/// A date and a time of day with no time zone.
#[derive(Clone, Copy, Debug, PartialEq, Eq, Structural)]
pub struct NaiveDateTime {
    pub date: NaiveDate,
    pub time: NaiveTime,
}

impl NaiveDateTime {
    pub open spec fn wf(self) -> bool {
        self.time.wf()
    }

    /// Chronological order: `self` is not after `other`.
    pub open spec fn le(self, other: NaiveDateTime) -> bool {
        self.date.days_from_ce < other.date.days_from_ce || (self.date.days_from_ce
            == other.date.days_from_ce && self.time.le(other.time))
    }

    pub fn new(date: NaiveDate, time: NaiveTime) -> (r: NaiveDateTime)
        ensures
            r.date == date && r.time == time,
    {
        NaiveDateTime { date, time }
    }

    /// Whether `self` is not after `other` (`<=`).
    pub fn is_before_or_at(&self, other: &NaiveDateTime) -> (r: bool)
        ensures
            r == self.le(*other),
    {
        self.date.days_from_ce < other.date.days_from_ce || (self.date.days_from_ce
            == other.date.days_from_ce && self.time.is_before_or_at(&other.time))
    }

    /// The day of the week.
    pub open spec fn weekday_spec(self) -> Weekday {
        weekday_from_index(weekday_of_day(self.date.days_from_ce as int))
    }

    /// The day of the week.
    pub fn weekday(&self) -> (r: Weekday)
        ensures
            r.day_index() == weekday_of_day(self.date.days_from_ce as int),
            r == self.weekday_spec(),
    {
        self.date.weekday()
    }
}

/// The day number of 1970-01-01.
pub const UNIX_EPOCH_DAY: i64 = 719_163;

/// The earliest instant chrono holds, in seconds since the epoch:
/// -262143-01-01T00:00:00Z (`DateTime::<Utc>::MIN_UTC`).
pub const MIN_UTC_SECS: i64 = -8_334_601_228_800;

/// The latest whole second chrono holds, in seconds since the epoch:
/// +262142-12-31T23:59:59Z (`DateTime::<Utc>::MAX_UTC`).
pub const MAX_UTC_SECS: i64 = 8_210_266_876_799;

/// An instant: seconds since 1970-01-01T00:00:00Z and a fraction in
/// nanoseconds (a fraction of a second or more marks a leap second).
#[derive(Clone, Copy, Debug, PartialEq, Eq, Structural)]
pub struct UtcDateTime {
    pub secs: i64,
    pub frac: u32,
}

/// The date and time, `offset` seconds east of UTC, of an instant: the
/// day number and the seconds and fraction of that day.
pub open spec fn local_parts(secs: int, offset: int) -> (int, int) {
    let local = secs + offset;
    (local / 86400 + UNIX_EPOCH_DAY, local % 86400)
}

/// The naive date-time of an instant seen `offset` seconds east of UTC.
pub open spec fn shifted_naive(t: UtcDateTime, offset: int) -> NaiveDateTime {
    let (days, secs) = local_parts(t.secs as int, offset);
    NaiveDateTime {
        date: NaiveDate { days_from_ce: days as i32 },
        time: NaiveTime { secs: secs as u32, frac: t.frac },
    }
}

impl UtcDateTime {
    pub open spec fn wf(self) -> bool {
        MIN_UTC_SECS <= self.secs <= MAX_UTC_SECS && self.frac < 2_000_000_000 && (self.frac
            >= 1_000_000_000 ==> self.secs % 60 == 59)
    }

    /// An instant from seconds since the epoch and nanoseconds
    /// (`DateTime::from_timestamp`): `None` outside chrono's range, for a
    /// fraction of two seconds or more, or for a leap second that does not
    /// end a minute.
    pub fn from_timestamp(secs: i64, nsecs: u32) -> (r: Option<UtcDateTime>)
        ensures
            r is Some <==> (UtcDateTime { secs, frac: nsecs }).wf(),
            r matches Some(t) ==> t.secs == secs && t.frac == nsecs,
    {
        if secs < MIN_UTC_SECS || secs > MAX_UTC_SECS || nsecs >= 2_000_000_000 {
            return None;
        }
        let shifted: i64 = secs + 9_000_000_000_000;
        assert(shifted % 60 == secs % 60);
        if nsecs >= 1_000_000_000 && shifted % 60 != 59 {
            return None;
        }
        Some(UtcDateTime { secs, frac: nsecs })
    }

    /// The date-time `offset` seconds east of UTC.
    pub fn naive_with_offset(&self, offset: i32) -> (r: NaiveDateTime)
        requires
            self.wf(),
            -86400 < offset < 86400,
        ensures
            r == shifted_naive(*self, offset as int),
            r.wf(),
    {
        let k: i64 = 100_000_000;
        let shifted: i64 = self.secs + offset as i64 + k * 86400;
        let days: i64 = shifted / 86400 - k + UNIX_EPOCH_DAY;
        let secs: i64 = shifted % 86400;
        let ghost local = self.secs as int + offset as int;
        assert(days == local / 86400 + UNIX_EPOCH_DAY && secs == local % 86400) by {
            assert(shifted == local + k * 86400);
            assert(shifted >= 0);
            vstd::arithmetic::div_mod::lemma_mod_multiples_vanish(k as int, local, 86400);
            vstd::arithmetic::div_mod::lemma_fundamental_div_mod(local, 86400);
            vstd::arithmetic::div_mod::lemma_fundamental_div_mod(shifted as int, 86400);
            assert(shifted / 86400 == local / 86400 + k);
            assert(shifted % 86400 == local % 86400);
        }
        NaiveDateTime {
            date: NaiveDate { days_from_ce: days as i32 },
            time: NaiveTime { secs: secs as u32, frac: self.frac },
        }
    }

    /// The date-time in UTC (`DateTime::naive_utc`).
    pub fn naive_utc(&self) -> (r: NaiveDateTime)
        requires
            self.wf(),
        ensures
            r == shifted_naive(*self, 0),
            r.wf(),
    {
        self.naive_with_offset(0)
    }
}

/// A fixed distance east of UTC, less than a day either way.
#[derive(Clone, Copy, Debug, PartialEq, Eq, Structural)]
pub struct FixedOffset {
    pub local_minus_utc: i32,
}

impl FixedOffset {
    pub open spec fn wf(self) -> bool {
        -86400 < self.local_minus_utc < 86400
    }

    /// `FixedOffset::east_opt`: `None` unless strictly within a day.
    pub fn east_opt(secs: i32) -> (r: Option<FixedOffset>)
        ensures
            r is Some <==> -86400 < secs < 86400,
            r matches Some(o) ==> o.local_minus_utc == secs,
    {
        if -86400 < secs && secs < 86400 {
            Some(FixedOffset { local_minus_utc: secs })
        } else {
            None
        }
    }
}

#[verifier::external_type_specification]
#[verifier::external_body]
pub struct ExTz(chrono_tz::Tz);

/// Whether chrono-tz knows a time zone by this name (`str::parse::<Tz>`).
pub uninterp spec fn tz_name_known(name: Seq<char>) -> bool;

/// The distance east of UTC, in seconds, of a named time zone at an
/// instant given in seconds since the epoch.
pub uninterp spec fn tz_offset_seconds(name: Seq<char>, utc_secs: int) -> int;

/// What chrono parses from `text` with the format `fmt`, ignoring what
/// follows the match (`NaiveDateTime::parse_and_remainder`): the day
/// number, the seconds since midnight and the fraction, or the message of
/// the error.
pub uninterp spec fn chrono_parse_and_remainder(text: Seq<char>, fmt: Seq<char>) -> Result<
    (int, int, int),
    Seq<char>,
>;

/// A time zone of the IANA database, as chrono-tz holds it.
pub struct TimeZone {
    name: String,
    tz: chrono_tz::Tz,
}

impl TimeZone {
    /// The name the zone was parsed from.
    pub closed spec fn zone_name(&self) -> Seq<char> {
        self.name@
    }

    /// `str::parse::<chrono_tz::Tz>`: the zone of that name, or chrono-tz's
    /// message "'NAME' is not a valid timezone".
    #[verifier::external_body]
    pub(crate) fn parse(name: &str) -> (r: Result<TimeZone, String>)
        ensures
            r is Ok <==> tz_name_known(name@),
            r matches Ok(z) ==> z.zone_name() == name@,
            r matches Err(e) ==> e@ == seq!['\''] + name@ + "' is not a valid timezone"@,
    {
        match name.parse::<chrono_tz::Tz>() {
            Ok(tz) => Ok(TimeZone { name: name.to_string(), tz }),
            Err(e) => Err(e),
        }
    }

    /// The zone's distance east of UTC at an instant
    /// (`Tz::offset_from_utc_datetime(..).fix().local_minus_utc()`); chrono
    /// keeps it strictly within a day.
    #[verifier::external_body]
    pub(crate) fn utc_offset_at(&self, instant: &UtcDateTime) -> (r: i32)
        requires
            instant.wf(),
        ensures
            r == tz_offset_seconds(self.zone_name(), instant.secs as int),
            -86400 < r < 86400,
    {
        let utc = chrono::DateTime::from_timestamp(instant.secs, instant.frac).unwrap();
        self.tz.offset_from_utc_datetime(&utc.naive_utc()).fix().local_minus_utc()
    }
}

/// The parts of a parse outcome that chrono's result determines: the day
/// number, seconds and fraction, or the message of the error.
pub open spec fn parse_outcome(r: Result<NaiveDateTime, String>) -> Result<(int, int, int), Seq<char>> {
    match r {
        Ok(v) => Ok((v.date.days_from_ce as int, v.time.secs as int, v.time.frac as int)),
        Err(e) => Err(e@),
    }
}

/// `NaiveDateTime::parse_and_remainder(text, fmt)`, the remainder dropped.
#[verifier::external_body]
pub(crate) fn parse_date_time(text: &str, fmt: &str) -> (r: Result<NaiveDateTime, String>)
    ensures
        parse_outcome(r) == chrono_parse_and_remainder(text@, fmt@),
        r is Ok ==> r->Ok_0.wf(),
{
    match chrono::NaiveDateTime::parse_and_remainder(text, fmt) {
        Ok((v, _)) => Ok(
            NaiveDateTime {
                date: NaiveDate { days_from_ce: v.date().num_days_from_ce() },
                time: NaiveTime { secs: v.time().num_seconds_from_midnight(), frac: v.time().nanosecond() },
            },
        ),
        Err(e) => Err(e.to_string()),
    }
}

} // verus!
