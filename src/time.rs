//! Event times as milliseconds since the Unix epoch.

use vstd::prelude::*;

verus! {

/// Whether chrono can represent the instant `ms` milliseconds after the epoch.
pub uninterp spec fn millis_representable(ms: int) -> bool;

/// Relies on `chrono::DateTime::from_timestamp_millis`, which returns `None`
/// exactly for instants outside chrono's supported range; that range depends
/// on the argument alone.
#[verifier::external_body]
pub(crate) fn is_representable_millis(ms: i64) -> (r: bool)
    ensures
        r == millis_representable(ms as int),
{
    chrono::DateTime::from_timestamp_millis(ms).is_some()
}

} // verus!
