//! The arguments of the command line tools.
use vstd::prelude::*;

use crate::text::str_eq;

verus! {

/// The desired state that an argument names: awake for `on` or `1`,
/// asleep for `off` or `0`; none for anything else.
pub open spec fn desired_state_named(s: Seq<char>) -> Option<bool> {
    if s == "on"@ || s == "1"@ {
        Some(true)
    } else if s == "off"@ || s == "0"@ {
        Some(false)
    } else {
        None
    }
}

/// The desired state that an argument names.
pub fn parse_desired_state(s: &str) -> (r: Option<bool>)
    ensures
        r == desired_state_named(s@),
{
    if str_eq(s, "on") || str_eq(s, "1") {
        Some(true)
    } else if str_eq(s, "off") || str_eq(s, "0") {
        Some(false)
    } else {
        None
    }
}

} // verus!
