//! Points in time as seconds and nanoseconds since the Unix epoch.

use vstd::prelude::*;

verus! {

/// Seconds in one day.
pub const SECONDS_PER_DAY: i64 = 86_400;

/// A point in time: whole seconds since the Unix epoch plus a nanosecond part.
#[derive(Clone, Copy, Debug, PartialEq, Eq, Structural)]
pub struct Timespec {
    pub sec: i64,
    pub nsec: i32,
}

/// The calendar day a second falls in, counted from the epoch; days before
/// the epoch are negative.
pub open spec fn day_of(sec: int) -> int {
    sec / 86_400
}

/// The instant exactly twenty-four hours before `now`.
pub open spec fn cutoff_of(now: Timespec) -> Timespec {
    Timespec { sec: (now.sec - 86_400) as i64, nsec: now.nsec }
}

impl Timespec {
    /// Chronological order: by seconds, then by nanoseconds.
    pub open spec fn before(self, other: Timespec) -> bool {
        self.sec < other.sec || (self.sec == other.sec && self.nsec < other.nsec)
    }

    /// The instant `nsec` nanoseconds after second `sec`.
    pub fn new(sec: i64, nsec: i32) -> (t: Timespec)
        ensures
            t.sec == sec,
            t.nsec == nsec,
    {
        Timespec { sec, nsec }
    }

    /// Whether `self` lies strictly before `other`.
    pub fn is_before(&self, other: &Timespec) -> (b: bool)
        ensures
            b == self.before(*other),
    {
        self.sec < other.sec || (self.sec == other.sec && self.nsec < other.nsec)
    }

    /// The calendar day of this instant, counted from the epoch.
    pub fn day(&self) -> (d: i64)
        ensures
            d == day_of(self.sec as int),
    {
        let sec: i64 = self.sec;
        if sec >= 0 {
            sec / SECONDS_PER_DAY
        } else {
            // Round towards negative infinity without leaving the range of i64.
            let back: i64 = -(sec + 1);
            let q: i64 = back / SECONDS_PER_DAY;
            assert(day_of(sec as int) == -q - 1) by {
                let d = day_of(sec as int);
                let r = (sec as int) % 86_400;
                assert(sec as int == 86_400 * d + r && 0 <= r < 86_400) by {
                    vstd::arithmetic::div_mod::lemma_fundamental_div_mod(sec as int, 86_400);
                }
                let rb = (back as int) % 86_400;
                assert(back as int == 86_400 * (q as int) + rb && 0 <= rb < 86_400) by {
                    vstd::arithmetic::div_mod::lemma_fundamental_div_mod(back as int, 86_400);
                }
            }
            -q - 1
        }
    }
}

/// The freeze cutoff of a run that starts at `now`: twenty-four hours earlier.
pub fn freeze_cutoff(now: Timespec) -> (cutoff: Timespec)
    requires
        now.sec >= i64::MIN + 86_400,
    ensures
        cutoff == cutoff_of(now),
{
    Timespec { sec: now.sec - SECONDS_PER_DAY, nsec: now.nsec }
}

} // verus!
