use vstd::prelude::*;
use vstd::rwlock::{RwLock, RwLockPredicate};
use std::sync::Arc;
use crate::future::MyFuture;
use crate::poll::Poll;
use crate::waker::WakeHandle;

verus! {

/// The state that a timer shares between the scheduler thread and the
/// background worker that completes it. Both sides touch it only under its
/// lock.
pub struct TimerState {
    completed: bool,
    pending_wake: Option<WakeHandle>,
}

impl TimerState {
    pub closed spec fn is_completed(&self) -> bool {
        self.completed
    }

    pub closed spec fn stored_wake(&self) -> Option<WakeHandle> {
        self.pending_wake
    }

    /// Once completed, no wake handle is kept any more.
    pub open spec fn wf(&self) -> bool {
        self.is_completed() ==> self.stored_wake() is None
    }

    /// The state of a timer that has just been armed.
    pub fn idle() -> (r: TimerState)
        ensures
            r.wf(),
            !r.is_completed(),
            r.stored_wake() is None,
    {
        TimerState { completed: false, pending_wake: None }
    }

    /// The scheduler's step: reports completion, or else stores `w` in place of
    /// any handle stored before.
    pub fn register(&mut self, w: WakeHandle) -> (done: bool)
        requires
            old(self).wf(),
        ensures
            final(self).wf(),
            done == old(self).is_completed(),
            done ==> *final(self) == *old(self),
            !done ==> !final(self).is_completed() && final(self).stored_wake() == Some(w),
    {
        if self.completed {
            true
        } else {
            self.pending_wake = Some(w);
            false
        }
    }

    /// The worker's step: marks the timer completed and hands back the wake
    /// handle to invoke, if one was stored.
    pub fn complete(&mut self) -> (w: Option<WakeHandle>)
        requires
            old(self).wf(),
        ensures
            final(self).wf(),
            final(self).is_completed(),
            w == old(self).stored_wake(),
            old(self).is_completed() ==> *final(self) == *old(self) && w is None,
    {
        self.completed = true;
        self.pending_wake.take()
    }
}

/// The invariant that the lock around a timer's state keeps.
pub struct TimerStateInv;

impl RwLockPredicate<TimerState> for TimerStateInv {
    open spec fn inv(self, s: TimerState) -> bool {
        s.wf()
    }
}

type SharedTimerState = Arc<RwLock<TimerState, TimerStateInv>>;

/// A computation that becomes ready, with `()`, once its background worker
/// has fired the matching `TimerTrigger`.
pub struct TimerFuture {
    shared: SharedTimerState,
    duration_ms: u64,
    done: bool,
    polls: Ghost<nat>,
}

/// The worker's end of a timer: firing it completes the timer and wakes
/// whoever advanced it last.
pub struct TimerTrigger {
    shared: SharedTimerState,
    duration_ms: u64,
}

impl TimerFuture {
    /// An armed timer of the given duration, in milliseconds, and the trigger
    /// that its background worker fires once that duration has elapsed.
    pub fn new(duration_ms: u64) -> (r: (TimerFuture, TimerTrigger))
        ensures
            r.0.wf(),
            r.0.outcome() is None,
            r.0.advances() == 0,
            r.0.duration() == duration_ms,
            r.1.duration() == duration_ms,
    {
        let lock = RwLock::new(TimerState::idle(), Ghost(TimerStateInv));
        let shared = Arc::new(lock);
        let trigger = TimerTrigger { shared: shared.clone(), duration_ms };
        (TimerFuture { shared, duration_ms, done: false, polls: Ghost(0) }, trigger)
    }

    pub closed spec fn duration(&self) -> u64 {
        self.duration_ms
    }

    /// The duration this timer was armed with, in milliseconds.
    pub fn duration_ms(&self) -> (r: u64)
        ensures
            r == self.duration(),
    {
        self.duration_ms
    }
}

impl TimerTrigger {
    pub closed spec fn duration(&self) -> u64 {
        self.duration_ms
    }

    /// The duration the timer was armed with, in milliseconds.
    pub fn duration_ms(&self) -> (r: u64)
        ensures
            r == self.duration(),
    {
        self.duration_ms
    }

    /// Completes the timer, then invokes the wake handle stored by its last
    /// advance, if any, outside the lock.
    pub fn fire(self) {
        let (mut state, handle) = self.shared.acquire_write();
        let w = state.complete();
        handle.release_write(state);
        match w {
            Some(w) => w.wake(),
            None => {},
        }
    }
}

impl MyFuture for TimerFuture {
    type Output = ();

    closed spec fn wf(&self) -> bool {
        true
    }

    closed spec fn outcome(&self) -> Option<()> {
        if self.done {
            Some(())
        } else {
            None
        }
    }

    closed spec fn advances(&self) -> nat {
        self.polls@
    }

    closed spec fn successor(&self, next: &Self) -> bool {
        self.duration_ms == next.duration_ms
    }

    proof fn lemma_successor_reflexive(a: &Self) {
    }

    proof fn lemma_successor_transitive(a: &Self, b: &Self, c: &Self) {
    }

    fn poll(&mut self, cx: &WakeHandle) -> (r: Poll<()>) {
        let (mut state, handle) = self.shared.acquire_write();
        let done = state.register(cx.clone());
        handle.release_write(state);
        self.polls = Ghost(self.polls@ + 1);
        if done {
            self.done = true;
            Poll::Ready(())
        } else {
            Poll::Pending
        }
    }
}

} // verus!
