//! The synchronisation with Uniskai of this generation: it only records
//! the policies, and gives up after too many failed listings.
use vstd::prelude::*;

pub use crate::kubesitter::uniskai::PolicySync;

verus! {

/// Failed listings in a row after which the synchronisation stops, once
/// exceeded.
pub const CONNECTION_FAILURE_LIMIT: u32 = 5;

} // verus!
