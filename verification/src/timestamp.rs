//! The point in time the domain model carries (creation, start, finish and
//! capture times): whole seconds since the Unix epoch and the nanoseconds
//! past that second, the two parts a UTC date-time is made of.
use vstd::prelude::*;

verus! {

/// A UTC instant: `secs` seconds after 1970-01-01T00:00:00Z plus `nsecs`
/// nanoseconds.
#[derive(Debug, Clone, Copy, PartialEq, Eq, Structural)]
pub struct Timestamp {
    pub secs: i64,
    pub nsecs: u32,
}

impl Timestamp {
    /// The instant at `secs` seconds and `nsecs` nanoseconds past the epoch.
    pub fn new(secs: i64, nsecs: u32) -> (t: Timestamp)
        ensures
            t.secs == secs,
            t.nsecs == nsecs,
    {
        Timestamp { secs, nsecs }
    }

}

} // verus!
