//! Points in time.

use vstd::prelude::*;

verus! {

/// A point in time: seconds since the epoch, and nanoseconds since the last full second.  Also a
/// span of time.
#[derive(Debug, Clone, Copy, PartialEq, Eq, Structural)]
pub struct Timespec {
    pub sec: i64,
    pub nsec: i32,
}

impl Timespec {
    /// Whether the nanoseconds are less than a second.
    pub open spec fn valid(self) -> bool {
        0 <= self.nsec < 1_000_000_000
    }

    /// A number of full seconds.
    pub open spec fn seconds(sec: i64) -> Timespec {
        Timespec { sec, nsec: 0 }
    }

    /// So many seconds and so many nanoseconds, which are less than a second.
    pub fn new(sec: i64, nsec: i32) -> (time: Timespec)
        requires
            0 <= nsec < 1_000_000_000,
        ensures
            time == (Timespec { sec, nsec }),
            time.valid(),
    {
        Timespec { sec, nsec }
    }
}

/// Whether all of `times` are valid.
pub open spec fn all_valid(times: Seq<Timespec>) -> bool {
    forall|i: int| 0 <= i < times.len() ==> (#[trigger] times[i]).valid()
}

/// `time::now`, then `to_timespec`: the present.  Which time that is, is left to the clock; the
/// nanoseconds are less than a second.
#[verifier::external_body]
pub(crate) fn time_now() -> (now: Timespec)
    ensures
        now.valid(),
{
    let now = time::now().to_timespec();
    Timespec { sec: now.sec, nsec: now.nsec }
}

} // verus!
