//! The logical clock that reconciles incoming message timestamps with local
//! time. It is kept apart from the decision logic so that clock-drift
//! failures are detectable independently of quorum correctness.

use vstd::prelude::*;
use crate::Error;

verus! {

/// How far into the future (in nanoseconds) an incoming timestamp may lie,
/// relative to local time, before it is treated as catastrophic clock skew.
pub const MAX_CLOCK_DELTA_NS: u64 = 500_000_000;

/// Whether the remote timestamp `ts` can be reconciled with local time `now`.
pub open spec fn clock_ok(ts: u64, now: u64) -> bool {
    ts as int <= now as int + MAX_CLOCK_DELTA_NS as int
}

/// The larger of two 64-bit values.
pub open spec fn max_u64(a: u64, b: u64) -> u64 {
    if a >= b {
        a
    } else {
        b
    }
}

/// The tagged timestamp a clock at `last` issues after observing a remote
/// timestamp `ts` at local time `now`: the clock never runs backwards and
/// never lags behind what it has observed.
pub open spec fn spec_observe(last: u64, ts: u64, now: u64) -> u64 {
    max_u64(last, max_u64(ts, now))
}

/// A monotone logical clock folding every observed timestamp into its state.
#[derive(Debug, Clone, Copy, PartialEq, Eq, Structural)]
pub struct Clock {
    /// The largest timestamp observed or issued so far (nanoseconds).
    pub last: u64,
}

impl View for Clock {
    type V = u64;

    open spec fn view(&self) -> u64 {
        self.last
    }
}

impl Clock {
    pub fn new() -> (c: Self)
        ensures
            c@ == 0u64,
    {
        Clock { last: 0 }
    }

    /// Fold the timestamp `ts` of an incoming envelope into the clock at
    /// local time `now` and issue the synchronized tagged timestamp, or
    /// report pathological drift, in which case the clock is unchanged.
    pub fn observe(&mut self, ts: u64, now: u64) -> (r: Result<u64, Error>)
        ensures
            clock_ok(ts, now) ==> (r == Ok::<u64, Error>(spec_observe(old(self)@, ts, now))
                && final(self)@ == spec_observe(old(self)@, ts, now)),
            !clock_ok(ts, now) ==> (r == Err::<u64, Error>(Error::ClockDrift)
                && final(self)@ == old(self)@),
            final(self)@ >= old(self)@,
    {
        if ts > now && ts - now > MAX_CLOCK_DELTA_NS {
            return Err(Error::ClockDrift);
        }
        let mut tagged = self.last;
        if ts > tagged {
            tagged = ts;
        }
        if now > tagged {
            tagged = now;
        }
        self.last = tagged;
        Ok(tagged)
    }
}

} // verus!
