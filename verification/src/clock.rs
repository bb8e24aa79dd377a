//! Points in time as the store compares them, and the current time as
//! `chrono` gives it.

use vstd::prelude::*;

verus! {

/// A point in time: the seconds since the start of 1970 in UTC, and the
/// nanoseconds since that second began.
#[derive(Debug, Clone, Copy, PartialEq, Eq, Hash)]
pub struct Timestamp {
    pub secs: i64,
    pub nanos: u32,
}

impl Timestamp {
    /// Whether this point in time lies after the other.
    pub open spec fn is_after(self, other: Timestamp) -> bool {
        self.secs > other.secs || (self.secs == other.secs && self.nanos > other.nanos)
    }

    /// Whether this point in time lies after the other.
    #[verifier::when_used_as_spec(is_after)]
    pub fn later_than(self, other: Timestamp) -> (r: bool)
        ensures
            r == self.is_after(other),
    {
        self.secs > other.secs || (self.secs == other.secs && self.nanos > other.nanos)
    }

    /// The point in time that lies the given number of seconds after this
    /// one, or `None` where that is beyond what the seconds can count.
    pub fn plus_seconds(self, seconds: i64) -> (r: Option<Timestamp>)
        ensures
            r matches Some(t) ==> t.secs == self.secs + seconds && t.nanos == self.nanos,
            r is None <==> !(i64::MIN <= self.secs + seconds <= i64::MAX),
    {
        match self.secs.checked_add(seconds) {
            Some(secs) => Some(Timestamp { secs, nanos: self.nanos }),
            None => None,
        }
    }
}

/// `chrono::Utc::now`, read with `chrono::DateTime::timestamp` and
/// `chrono::DateTime::timestamp_subsec_nanos`: the current time. Nothing is
/// claimed of it.
#[verifier::external_body]
pub(crate) fn current_time() -> (now: Timestamp) {
    let now = chrono::Utc::now();
    Timestamp { secs: now.timestamp(), nanos: now.timestamp_subsec_nanos() }
}

} // verus!
