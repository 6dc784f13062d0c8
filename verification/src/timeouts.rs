//! Timeouts of a client.
use std::time::Duration;
use vstd::prelude::*;

verus! {

/// Holds the different timeouts that will be used by the client.
/// None means no timeout in every case.
#[derive(Clone, Copy, Debug)]
pub struct Timeouts {
    /// Connect timeout
    pub connect: Option<Duration>,
    /// Reply read timeout
    pub read: Option<Duration>,
    /// Socket write timeout
    pub write: Option<Duration>,
}

impl Timeouts {
    /// Create a new `Timeouts` where all values are identical.
    pub fn new(duration: Duration) -> (r: Self)
        ensures
            r.connect == Some(duration),
            r.read == Some(duration),
            r.write == Some(duration),
    {
        Self { connect: Some(duration), read: Some(duration), write: Some(duration) }
    }

    /// Create a new `Timeouts` without any timeouts specified.
    pub fn none() -> (r: Self)
        ensures
            r.connect is None,
            r.read is None,
            r.write is None,
    {
        Self { connect: None, read: None, write: None }
    }
}

} // verus!
