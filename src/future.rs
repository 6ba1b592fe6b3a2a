use vstd::prelude::*;
use crate::poll::Poll;
use crate::waker::WakeHandle;

verus! {

/// A unit of deferred work that a scheduler advances until it is ready.
///
/// `outcome` is `None` while the computation is unfinished and holds the value
/// it produced once an advance has returned `Ready`. An advance is only ever
/// made on an unfinished computation: `Ready` is terminal, and every
/// combinator of this crate is proved never to advance a finished child.
pub trait MyFuture {
    type Output;

    /// The computation's internal consistency, kept by every advance.
    spec fn wf(&self) -> bool;

    /// The value the computation has produced, once it has finished.
    spec fn outcome(&self) -> Option<Self::Output>;

    /// How many times the computation has been advanced.
    spec fn advances(&self) -> nat;

    /// Whether `next` is `self` after zero or more advances: it relates the
    /// parts of a computation that advancing never changes (what it was built
    /// from).
    spec fn successor(&self, next: &Self) -> bool;

    proof fn lemma_successor_reflexive(a: &Self)
        ensures
            a.successor(a),
    ;

    proof fn lemma_successor_transitive(a: &Self, b: &Self, c: &Self)
        requires
            a.successor(b),
            b.successor(c),
        ensures
            a.successor(c),
    ;

    /// Advances the computation once. It must not block; when it returns
    /// `Pending` it has arranged for `cx` to be invoked once progress is
    /// possible.
    fn poll(&mut self, cx: &WakeHandle) -> (r: Poll<Self::Output>)
        requires
            old(self).wf(),
            old(self).outcome() is None,
        ensures
            final(self).wf(),
            old(self).successor(&*final(self)),
            final(self).advances() == old(self).advances() + 1,
            match r {
                Poll::Ready(v) => final(self).outcome() == Some(v),
                Poll::Pending => final(self).outcome() is None,
            },
    ;
}

} // verus!
