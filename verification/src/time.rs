//! What the library relies on of `std::time::Duration`.
use crate::error::{Error, Result};
use std::time::Duration;
use vstd::prelude::*;

verus! {

/// The whole number of nanoseconds that a duration holds.
pub uninterp spec fn duration_nanos(d: Duration) -> nat;

/// `Duration::from_nanos`: the duration of that many nanoseconds.
pub assume_specification[ Duration::from_nanos ](nanos: u64) -> (r: Duration)
    ensures
        duration_nanos(r) == nanos,
;

/// `Duration::as_millis`: the number of whole milliseconds in a duration.
pub assume_specification[ Duration::as_millis ](d: &Duration) -> (r: u128)
    ensures
        r == duration_nanos(*d) / 1_000_000,
;

/// The whole number of milliseconds that a duration holds.
pub open spec fn duration_millis(d: Duration) -> nat {
    duration_nanos(d) / 1_000_000
}

/// The low 32 bits of the whole number of milliseconds in a duration.
pub(crate) fn low_millis(d: &Duration) -> (r: u32)
    ensures
        r == duration_millis(*d) % 0x1_0000_0000,
{
    let millis: u128 = d.as_millis();
    assert(millis as u32 == millis % 0x1_0000_0000) by (bit_vector);
    millis as u32
}

/// Narrows the whole number of milliseconds in a duration to the 32 bits that
/// its field has.
pub(crate) fn millis_field(d: &Duration) -> (r: Result<u32>)
    ensures
        duration_millis(*d) <= u32::MAX ==> r == Ok::<u32, Error>(duration_millis(*d) as u32),
        duration_millis(*d) > u32::MAX ==> r matches Err(Error::Overflow(_)),
{
    match u32::try_from(d.as_millis()) {
        Ok(v) => Ok(v),
        Err(e) => Err(Error::Overflow(e)),
    }
}

/// The milliseconds of a duration are whole ones, rounded down.
pub proof fn millis_are_whole(d: Duration)
    ensures
        duration_millis(d) * 1_000_000 <= duration_nanos(d),
        duration_nanos(d) < (duration_millis(d) + 1) * 1_000_000,
{
}

} // verus!
