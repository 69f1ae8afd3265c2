//! Reading the optional `from` and `to` times of an assignment: the text
//! is read with the date-time format, and anything after it is ignored.
use vstd::prelude::*;

use super::model::DATE_TIME_FORMAT;
use crate::time::{chrono_parse_and_remainder, parse_date_time, NaiveDateTime};

verus! {

/// The day number, seconds and fraction of an optional date-time, or the
/// message of the error.
pub open spec fn read_view(r: Result<Option<NaiveDateTime>, String>) -> Result<
    Option<(int, int, int)>,
    Seq<char>,
> {
    match r {
        Ok(Some(v)) => Ok(Some((v.date.days_from_ce as int, v.time.secs as int, v.time.frac as int))),
        Ok(None) => Ok(None),
        Err(e) => Err(e@),
    }
}

/// What reading an optional text gives: nothing for no text, else what
/// chrono reads at its start with the date-time format.
pub open spec fn read_spec(value: Option<Seq<char>>) -> Result<Option<(int, int, int)>, Seq<char>> {
    match value {
        None => Ok(None),
        Some(s) => match chrono_parse_and_remainder(s, DATE_TIME_FORMAT@) {
            Ok(parts) => Ok(Some(parts)),
            Err(m) => Err(m),
        },
    }
}

/// Reads an optional date-time in `DATE_TIME_FORMAT`, ignoring what follows
/// it (an offset such as `+03:00` or `Z`).
pub fn deserialize(value: Option<&str>) -> (r: Result<Option<NaiveDateTime>, String>)
    ensures
        read_view(r) == read_spec(
            match value {
                Some(s) => Some(s@),
                None => None,
            },
        ),
        r matches Ok(Some(v)) ==> v.wf(),
{
    match value {
        Some(s) => match parse_date_time(s, DATE_TIME_FORMAT) {
            Ok(d) => Ok(Some(d)),
            Err(e) => Err(e),
        },
        None => Ok(None),
    }
}

} // verus!
