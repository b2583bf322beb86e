//! Timestamping policy for sources.
//!
//! A source stamps every emission with a time drawn from the runtime's hybrid
//! logical clock.  When the source declares a period `P`, the raw time is
//! snapped down to the greatest multiple of `P` below it, and at most one
//! emission is allowed per distinct snapped value; emitted timestamps are
//! strictly increasing either way.

use vstd::prelude::*;

verus! {

/// The timestamp a periodic source must emit for raw clock time `t`:
/// the greatest multiple of `period` that is at most `t`.
pub open spec fn spec_snap(t: u64, period: u64) -> int
    recommends
        period > 0,
{
    (t as int / period as int) * period as int
}

/// Snaps `t` down to the greatest multiple of `period` at most `t`.
pub fn snap_timestamp(t: u64, period: u64) -> (r: u64)
    requires
        period > 0,
    ensures
        r == spec_snap(t, period),
        r <= t,
        r % period == 0,
{
    let q = t / period;
    proof {
        assert(q * period <= t && (q * period) % (period as int) == 0) by (nonlinear_arith)
            requires
                period > 0,
                q == t as int / period as int,
        ;
    }
    q * period
}

/// A snapped timestamp is a multiple of the period.
pub proof fn lemma_snap_mod(t: u64, period: u64)
    requires
        period > 0,
    ensures
        spec_snap(t, period) % (period as int) == 0,
{
    let q = t as int / period as int;
    assert((q * period as int) % (period as int) == 0) by (nonlinear_arith)
        requires
            period > 0,
    ;
}

/// Per-source timestamping state: the last timestamp this source emitted,
/// if any, and the period it snaps to, if any.
pub struct SourceClock {
    pub period: Option<u64>,
    pub last: Option<u64>,
}

impl SourceClock {
    /// The timestamp that raw clock time `t` maps to under this clock's
    /// period: snapped when periodic, `t` itself otherwise.
    pub open spec fn spec_stamp(self, t: u64) -> int {
        match self.period {
            Some(p) => spec_snap(t, p),
            None => t as int,
        }
    }

    /// Whether an emission stamped from raw time `t` is allowed: its
    /// timestamp must lie strictly above everything emitted before.
    pub open spec fn spec_admits(self, t: u64) -> bool {
        match self.last {
            Some(l) => self.spec_stamp(t) > l,
            None => true,
        }
    }

    pub open spec fn wf(self) -> bool {
        self.period matches Some(p) ==> p > 0
    }

    pub fn new(period: Option<u64>) -> (r: SourceClock)
        requires
            period matches Some(p) ==> p > 0,
        ensures
            r.period == period,
            r.last is None,
            r.wf(),
    {
        SourceClock { period, last: None }
    }

    /// Decides the timestamp for an emission whose raw clock time is `t`.
    ///
    /// Returns `Some(s)` with `s` the (possibly snapped) timestamp when the
    /// emission is admitted, and `None` when it must be suppressed because
    /// its timestamp would not exceed the last one emitted.  A periodic
    /// source therefore emits at most once per distinct snapped value.
    pub fn next_timestamp(&mut self, t: u64) -> (r: Option<u64>)
        requires
            old(self).wf(),
        ensures
            final(self).wf(),
            final(self).period == old(self).period,
            r matches Some(s) ==> {
                &&& old(self).spec_admits(t)
                &&& s == old(self).spec_stamp(t)
                &&& final(self).last == Some(s)
            },
            r is None ==> !old(self).spec_admits(t) && *final(self) == *old(self),
            old(self).spec_admits(t) ==> r is Some,
    {
        let stamped: u64 = match self.period {
            Some(p) => snap_timestamp(t, p),
            None => t,
        };
        match self.last {
            Some(l) => {
                if stamped > l {
                    self.last = Some(stamped);
                    Some(stamped)
                } else {
                    None
                }
            },
            None => {
                self.last = Some(stamped);
                Some(stamped)
            },
        }
    }
}

/// Two successive admitted emissions of one source carry strictly
/// increasing timestamps, whatever the raw clock returned in between.
pub proof fn lemma_timestamps_strictly_monotonic(
    c0: SourceClock,
    c1: SourceClock,
    c2: SourceClock,
    t1: u64,
    t2: u64,
    s1: u64,
    s2: u64,
)
    requires
        c0.wf(),
        c0.spec_admits(t1),
        s1 == c0.spec_stamp(t1),
        c1 == (SourceClock { last: Some(s1), ..c0 }),
        c1.spec_admits(t2),
        s2 == c1.spec_stamp(t2),
        c2 == (SourceClock { last: Some(s2), ..c1 }),
    ensures
        s1 < s2,
{
}

} // verus!
