use vstd::prelude::*;
use crate::clock::VirtualClock;
use crate::future::MyFuture;
use crate::poll::Poll;
use crate::waker::Notifier;

verus! {

/// Drives `root` until it is ready, parking the calling thread between
/// advances until a wake handle given to `root` is invoked.
///
/// At most `max_rounds` advances are made; `None` means all of them returned
/// `Pending`, and the root can be driven further by another call.
pub fn run_to_completion<F: MyFuture>(root: &mut F, max_rounds: u64) -> (r: Option<F::Output>)
    requires
        old(root).wf(),
        old(root).outcome() is None,
    ensures
        final(root).wf(),
        old(root).successor(&*final(root)),
        match r {
            Some(v) => final(root).outcome() == Some(v) && old(root).advances() < final(root).advances() <= old(root).advances() + max_rounds,
            None => final(root).outcome() is None && final(root).advances() == old(root).advances() + max_rounds,
        },
{
    let (notifier, waker) = Notifier::new();
    let mut rounds: u64 = 0;
    proof {
        F::lemma_successor_reflexive(&*root);
    }
    while rounds < max_rounds
        invariant
            root.wf(),
            root.outcome() is None,
            old(root).successor(&*root),
            rounds <= max_rounds,
            root.advances() == old(root).advances() + rounds,
        decreases max_rounds - rounds,
    {
        let ghost before = *root;
        match root.poll(&waker) {
            Poll::Ready(v) => {
                proof {
                    F::lemma_successor_transitive(&*old(root), &before, &*root);
                }
                return Some(v);
            },
            Poll::Pending => {},
        }
        proof {
            F::lemma_successor_transitive(&*old(root), &before, &*root);
        }
        rounds = rounds + 1;
        if rounds < max_rounds {
            notifier.wait();
        }
    }
    None
}

/// Why a deterministic run stopped before its root was ready.
pub enum Stop {
    /// No wake was pending and no timer of the clock was armed: nothing can
    /// ever make progress again.
    Stalled,
    /// The root was advanced the allowed number of times.
    OutOfRounds,
}

/// Drives `root` against the virtual clock `clock`, without blocking.
///
/// After an advance that returns `Pending`, the root is advanced again at
/// once if a wake is pending; otherwise the clock moves to its earliest armed
/// timer and fires it. The run stops as stalled when neither is possible, and
/// as out of rounds after `max_rounds` advances that all returned `Pending`.
pub fn run_with_clock<F: MyFuture>(root: &mut F, clock: &mut VirtualClock, max_rounds: u64) -> (r:
    Result<F::Output, Stop>)
    requires
        old(root).wf(),
        old(root).outcome() is None,
        old(clock).wf(),
    ensures
        final(root).wf(),
        old(root).successor(&*final(root)),
        final(clock).wf(),
        final(clock).now() >= old(clock).now(),
        match r {
            Ok(v) => final(root).outcome() == Some(v) && old(root).advances() < final(root).advances() <= old(root).advances() + max_rounds,
            Err(Stop::Stalled) => final(root).outcome() is None && final(clock).armed().len()
                == 0 && old(root).advances() < final(root).advances() <= old(root).advances()
                + max_rounds,
            Err(Stop::OutOfRounds) => final(root).outcome() is None && final(root).advances()
                == old(root).advances() + max_rounds,
        },
{
    let (notifier, waker) = Notifier::new();
    let mut rounds: u64 = 0;
    proof {
        F::lemma_successor_reflexive(&*root);
    }
    while rounds < max_rounds
        invariant
            root.wf(),
            root.outcome() is None,
            old(root).successor(&*root),
            rounds <= max_rounds,
            root.advances() == old(root).advances() + rounds,
            clock.wf(),
            clock.now() >= old(clock).now(),
        decreases max_rounds - rounds,
    {
        let ghost before = *root;
        match root.poll(&waker) {
            Poll::Ready(v) => {
                proof {
                    F::lemma_successor_transitive(&*old(root), &before, &*root);
                }
                return Ok(v);
            },
            Poll::Pending => {},
        }
        proof {
            F::lemma_successor_transitive(&*old(root), &before, &*root);
        }
        rounds = rounds + 1;
        if !notifier.take() {
            if !clock.advance() {
                return Err(Stop::Stalled);
            }
        }
    }
    Err(Stop::OutOfRounds)
}

} // verus!
