use vstd::prelude::*;
use crate::future::MyFuture;
use crate::poll::Poll;
use crate::waker::WakeHandle;

verus! {

/// A computation that hands control back to the scheduler exactly once.
///
/// Its first advance wakes its own scheduler and returns `Pending`; its second
/// advance returns `Ready(())`.
pub struct YieldNow {
    yielded: bool,
    done: bool,
}

/// A fresh yield point.
pub fn yield_now() -> (r: YieldNow)
    ensures
        r.wf(),
        r.outcome() is None,
        r.advances() == 0,
        !r.has_yielded(),
{
    YieldNow { yielded: false, done: false }
}

impl YieldNow {
    /// Whether the first advance has already been made.
    pub closed spec fn has_yielded(&self) -> bool {
        self.yielded
    }

    /// Whether the yield point has already produced `Ready`.
    pub closed spec fn is_done(&self) -> bool {
        self.done
    }
}

impl MyFuture for YieldNow {
    type Output = ();

    closed spec fn wf(&self) -> bool {
        self.done ==> self.yielded
    }

    closed spec fn outcome(&self) -> Option<()> {
        if self.done { Some(()) } else { None }
    }

    /// A yield point is advanced at most twice.
    closed spec fn advances(&self) -> nat {
        if self.done {
            2
        } else if self.yielded {
            1
        } else {
            0
        }
    }

    closed spec fn successor(&self, next: &Self) -> bool {
        true
    }

    proof fn lemma_successor_reflexive(a: &Self) {
    }

    proof fn lemma_successor_transitive(a: &Self, b: &Self, c: &Self) {
    }

    fn poll(&mut self, cx: &WakeHandle) -> (r: Poll<()>)
        ensures
            !old(self).has_yielded() ==> (r is Pending && final(self).has_yielded()),
            old(self).has_yielded() ==> r is Ready,
    {
        if self.yielded {
            self.done = true;
            Poll::Ready(())
        } else {
            self.yielded = true;
            cx.wake();
            Poll::Pending
        }
    }
}

} // verus!
