//! Points in time, as the file system reports them.
use vstd::prelude::*;

verus! {

/// A point in time: whole seconds relative to 1970-01-01 00:00 UTC, and the
/// nanoseconds on top of them.
#[derive(Debug, Clone, Copy, PartialEq, Eq, Structural)]
pub struct Timestamp {
    pub secs: i64,
    pub nanos: u32,
}

/// Whether `a` lies before `b`.
pub open spec fn is_earlier(a: Timestamp, b: Timestamp) -> bool {
    a.secs < b.secs || (a.secs == b.secs && a.nanos < b.nanos)
}

impl Timestamp {
    /// The point `secs` whole seconds after the epoch.
    pub fn from_secs(secs: i64) -> (r: Timestamp)
        ensures
            r == (Timestamp { secs, nanos: 0 }),
    {
        Timestamp { secs, nanos: 0 }
    }

    /// Whether this point lies before `other`.
    pub fn is_before(&self, other: &Timestamp) -> (r: bool)
        ensures
            r == is_earlier(*self, *other),
    {
        self.secs < other.secs || (self.secs == other.secs && self.nanos < other.nanos)
    }

    /// The whole seconds since the epoch, for points that do not precede it.
    pub fn seconds_since_epoch(&self) -> (r: Option<u64>)
        ensures
            r is Some <==> self.secs >= 0,
            r is Some ==> r->0 == self.secs,
    {
        if self.secs < 0 {
            None
        } else {
            Some(self.secs as u64)
        }
    }
}

/// Any two distinct points are ordered one way, and only one.
pub proof fn timestamps_are_totally_ordered(a: Timestamp, b: Timestamp)
    ensures
        a == b || is_earlier(a, b) || is_earlier(b, a),
        !(is_earlier(a, b) && is_earlier(b, a)),
        !is_earlier(a, a),
{
}

} // verus!
