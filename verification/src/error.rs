//! Errors of the library.
use vstd::prelude::*;

verus! {

/// `std::io::Error`, which the library carries and never looks into.
#[verifier::external_type_specification]
#[verifier::external_body]
pub struct ExIoError(std::io::Error);

/// A specialized `Result` for ADS errors.
pub type Result<T> = std::result::Result<T, Error>;

/// Everything that can go wrong in ADS communication.
#[derive(Debug)]
pub enum Error {
    /// An IO error, with the action that was attempted.
    Io(&'static str, std::io::Error),
    /// An error code that the server reported, with the action that was
    /// attempted.
    Ads(&'static str, u32),
    /// A reply that is not valid: the action that was attempted, what was
    /// wrong, and the number that was found there.
    Reply(&'static str, &'static str, u32),
    /// A length that does not fit in its field.
    Overflow(std::num::TryFromIntError),
    /// A lock on the named data that could not be taken.
    Locking(&'static str),
    /// Task-info metadata that is not supported.
    TaskInfoLayout(&'static str),
    /// A task-info reader whose symbol metadata is no longer current.
    TaskInfoInvalidated,
}

/// The error for a code that the server reported on the given action.
pub fn ads_error<T>(action: &'static str, code: u32) -> (r: Result<T>)
    ensures
        r == Err::<T, Error>(Error::Ads(action, code)),
{
    Err(Error::Ads(action, code))
}

/// Narrows a length to the 32 bits that its field has.
pub fn length_field(n: u64) -> (r: Result<u32>)
    ensures
        n <= u32::MAX ==> r == Ok::<u32, Error>(n as u32),
        n > u32::MAX ==> r matches Err(Error::Overflow(_)),
{
    match u32::try_from(n) {
        Ok(v) => Ok(v),
        Err(e) => Err(Error::Overflow(e)),
    }
}

} // verus!
