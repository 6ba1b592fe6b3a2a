use vstd::prelude::*;
use crate::future::MyFuture;
use crate::timer::{TimerFuture, TimerTrigger};

verus! {

/// Whether `i` is the first position of a smallest deadline in `s`.
pub open spec fn is_earliest(s: Seq<u64>, i: int) -> bool {
    &&& 0 <= i < s.len()
    &&& forall|j: int| 0 <= j < s.len() ==> s[i] <= #[trigger] s[j]
    &&& forall|j: int| 0 <= j < i ==> s[i] < #[trigger] s[j]
}

/// A deterministic timer backend: timers armed on it complete when the
/// clock's virtual time, in milliseconds, reaches their deadline.
pub struct VirtualClock {
    now_ms: u64,
    timers: Vec<(u64, TimerTrigger)>,
}

impl VirtualClock {
    /// The current virtual time.
    pub closed spec fn now(&self) -> u64 {
        self.now_ms
    }

    /// The deadlines of the armed timers, in the order they were armed.
    pub closed spec fn armed(&self) -> Seq<u64> {
        self.timers@.map_values(|t: (u64, TimerTrigger)| t.0)
    }

    /// No armed timer lies in the past.
    pub open spec fn wf(&self) -> bool {
        forall|i: int| 0 <= i < self.armed().len() ==> self.now() <= #[trigger] self.armed()[i]
    }

    /// A clock at time zero with no timer armed.
    pub fn new() -> (r: VirtualClock)
        ensures
            r.wf(),
            r.now() == 0,
            r.armed() == Seq::<u64>::empty(),
    {
        let r = VirtualClock { now_ms: 0, timers: Vec::new() };
        assert(r.armed() =~= Seq::<u64>::empty());
        r
    }

    /// The current virtual time, in milliseconds.
    pub fn now_ms(&self) -> (r: u64)
        ensures
            r == self.now(),
    {
        self.now_ms
    }

    /// A timer that completes `duration_ms` milliseconds after the current
    /// virtual time.
    pub fn timer(&mut self, duration_ms: u64) -> (r: TimerFuture)
        requires
            old(self).wf(),
            old(self).now() + duration_ms <= u64::MAX,
        ensures
            final(self).wf(),
            final(self).now() == old(self).now(),
            final(self).armed() == old(self).armed().push((old(self).now() + duration_ms) as u64),
            r.wf(),
            r.outcome() is None,
            r.advances() == 0,
            r.duration() == duration_ms,
    {
        let (fut, trigger) = TimerFuture::new(duration_ms);
        let deadline = self.now_ms + duration_ms;
        self.timers.push((deadline, trigger));
        assert(self.armed() =~= old(self).armed().push(deadline));
        fut
    }

    /// Moves the clock to the earliest deadline and fires that timer (the
    /// first one armed, among equal deadlines). Returns `false`, changing
    /// nothing, when no timer is armed.
    pub fn advance(&mut self) -> (r: bool)
        requires
            old(self).wf(),
        ensures
            final(self).wf(),
            r == (old(self).armed().len() > 0),
            !r ==> final(self).now() == old(self).now() && final(self).armed() == old(
                self,
            ).armed(),
            r ==> exists|i: int|
                is_earliest(old(self).armed(), i) && final(self).now() == old(self).armed()[i]
                    && final(self).armed() == old(self).armed().remove(i),
    {
        let n = self.timers.len();
        if n == 0 {
            return false;
        }
        let mut best: usize = 0;
        let mut k: usize = 1;
        while k < n
            invariant
                n == self.timers@.len(),
                n == self.armed().len(),
                1 <= k <= n,
                best < k,
                forall|j: int| 0 <= j < k ==> self.armed()[best as int] <= #[trigger] self.armed()[j],
                forall|j: int| 0 <= j < best ==> self.armed()[best as int] < #[trigger] self.armed()[j],
            decreases n - k,
        {
            if self.timers[k].0 < self.timers[best].0 {
                best = k;
            }
            k = k + 1;
        }
        let ghost before = self.armed();
        let (deadline, trigger) = self.timers.remove(best);
        assert(self.armed() =~= before.remove(best as int));
        self.now_ms = deadline;
        trigger.fire();
        proof {
            assert(is_earliest(before, best as int));
            assert forall|i: int| 0 <= i < self.armed().len() implies self.now() <= #[trigger] self.armed()[i] by {
                if i < best {
                    assert(self.armed()[i] == before[i]);
                } else {
                    assert(self.armed()[i] == before[i + 1]);
                }
            }
        }
        true
    }
}

} // verus!
