use vstd::prelude::*;
use crate::future::MyFuture;
use crate::poll::{Either, Poll};
use crate::timer::TimerFuture;
use crate::waker::WakeHandle;

verus! {

/// Races two computations: each round the left one is advanced first, and the
/// right one only if the left one is still unfinished.
pub struct Select<A, B> {
    left: A,
    right: B,
    polls: Ghost<nat>,
}

/// A race between `a` (left) and `b` (right), neither of which has finished.
pub fn select<A: MyFuture, B: MyFuture>(a: A, b: B) -> (r: Select<A, B>)
    requires
        a.wf(),
        b.wf(),
        a.outcome() is None,
        b.outcome() is None,
    ensures
        r.wf(),
        r.outcome() is None,
        r.advances() == 0,
        r.left() == a,
        r.right() == b,
{
    Select { left: a, right: b, polls: Ghost(0) }
}

impl<A, B> Select<A, B> {
    pub closed spec fn left(&self) -> A {
        self.left
    }

    pub closed spec fn right(&self) -> B {
        self.right
    }
}

impl<A: MyFuture, B: MyFuture> MyFuture for Select<A, B> {
    type Output = Either<A::Output, B::Output>;

    closed spec fn wf(&self) -> bool {
        self.left.wf() && self.right.wf()
    }

    /// The left operand's value wins whenever the left operand has finished.
    closed spec fn outcome(&self) -> Option<Either<A::Output, B::Output>> {
        match self.left.outcome() {
            Some(v) => Some(Either::Left(v)),
            None => match self.right.outcome() {
                Some(w) => Some(Either::Right(w)),
                None => None,
            },
        }
    }

    closed spec fn advances(&self) -> nat {
        self.polls@
    }

    closed spec fn successor(&self, next: &Self) -> bool {
        self.left.successor(&next.left) && self.right.successor(&next.right)
    }

    proof fn lemma_successor_reflexive(a: &Self) {
        A::lemma_successor_reflexive(&a.left);
        B::lemma_successor_reflexive(&a.right);
    }

    proof fn lemma_successor_transitive(a: &Self, b: &Self, c: &Self) {
        A::lemma_successor_transitive(&a.left, &b.left, &c.left);
        B::lemma_successor_transitive(&a.right, &b.right, &c.right);
    }

    fn poll(&mut self, cx: &WakeHandle) -> (r: Poll<Either<A::Output, B::Output>>)
        ensures
            final(self).left().advances() == old(self).left().advances() + 1,
            r matches Poll::Ready(Either::Left(v)) ==> final(self).left().outcome() == Some(v)
                && final(self).right() == old(self).right(),
            !(r matches Poll::Ready(Either::Left(_))) ==> final(self).right().advances() == old(self).right().advances() + 1,
            final(self).left().outcome() is Some ==> r matches Poll::Ready(Either::Left(_)),
            final(self).left().outcome() matches Some(v) ==> r == Poll::<
                Either<A::Output, B::Output>,
            >::Ready(Either::Left(v)),
            final(self).left().outcome() is None && final(self).right().outcome() is Some ==> r
                == Poll::<Either<A::Output, B::Output>>::Ready(
                Either::Right(final(self).right().outcome()->0),
            ),
            r is Pending ==> final(self).left().outcome() is None && final(self).right().outcome() is None,
    {
        proof {
            B::lemma_successor_reflexive(&self.right);
        }
        self.polls = Ghost(self.polls@ + 1);
        match self.left.poll(cx) {
            Poll::Ready(v) => Poll::Ready(Either::Left(v)),
            Poll::Pending => match self.right.poll(cx) {
                Poll::Ready(w) => Poll::Ready(Either::Right(w)),
                Poll::Pending => Poll::Pending,
            },
        }
    }
}

/// Runs a computation against a timer: `Ok` with the computation's value if it
/// finishes first (or in the same round as the timer), else `Err` with the
/// timer's duration in milliseconds.
pub struct Timeout<F> {
    race: Select<F, TimerFuture>,
    max_time_ms: u64,
    polls: Ghost<nat>,
}

/// `future` raced against `timer`, neither of which has finished.
pub fn timeout<F: MyFuture>(future: F, timer: TimerFuture) -> (r: Timeout<F>)
    requires
        future.wf(),
        future.outcome() is None,
        timer.wf(),
        timer.outcome() is None,
    ensures
        r.wf(),
        r.outcome() is None,
        r.advances() == 0,
        r.inner() == future,
        r.max_time() == timer.duration(),
        r.timer() == timer,
{
    let max_time_ms = timer.duration_ms();
    Timeout { race: select(future, timer), max_time_ms, polls: Ghost(0) }
}

impl<F> Timeout<F> {
    pub closed spec fn inner(&self) -> F {
        self.race.left()
    }

    pub closed spec fn timer(&self) -> TimerFuture {
        self.race.right()
    }

    pub closed spec fn max_time(&self) -> u64 {
        self.max_time_ms
    }
}

impl<F: MyFuture> Timeout<F> {
    /// A timeout that ran out reports its own duration.
    pub proof fn lemma_outcome_err(&self)
        requires
            self.outcome() matches Some(Err(_)),
        ensures
            self.outcome() == Some(Err::<F::Output, u64>(self.max_time())),
    {
    }

    /// Advancing never changes the duration.
    pub proof fn lemma_successor_keeps_max_time(&self, next: &Self)
        requires
            self.successor(next),
        ensures
            self.max_time() == next.max_time(),
    {
    }
}

impl<F: MyFuture> MyFuture for Timeout<F> {
    type Output = Result<F::Output, u64>;

    closed spec fn wf(&self) -> bool {
        self.race.wf()
    }

    closed spec fn outcome(&self) -> Option<Result<F::Output, u64>> {
        match self.race.outcome() {
            Some(Either::Left(v)) => Some(Ok(v)),
            Some(Either::Right(_)) => Some(Err(self.max_time_ms)),
            None => None,
        }
    }

    closed spec fn advances(&self) -> nat {
        self.polls@
    }

    closed spec fn successor(&self, next: &Self) -> bool {
        self.race.successor(&next.race) && self.max_time_ms == next.max_time_ms
    }

    proof fn lemma_successor_reflexive(a: &Self) {
        Select::<F, TimerFuture>::lemma_successor_reflexive(&a.race);
    }

    proof fn lemma_successor_transitive(a: &Self, b: &Self, c: &Self) {
        Select::<F, TimerFuture>::lemma_successor_transitive(&a.race, &b.race, &c.race);
    }

    fn poll(&mut self, cx: &WakeHandle) -> (r: Poll<Result<F::Output, u64>>)
        ensures
            final(self).max_time() == old(self).max_time(),
            final(self).inner().advances() == old(self).inner().advances() + 1,
            r matches Poll::Ready(Ok(v)) ==> final(self).inner().outcome() == Some(v)
                && final(self).timer() == old(self).timer(),
            !(r matches Poll::Ready(Ok(_))) ==> final(self).timer().advances() == old(self).timer().advances() + 1,
            final(self).inner().outcome() matches Some(v) ==> r == Poll::<
                Result<F::Output, u64>,
            >::Ready(Ok(v)),
            final(self).inner().outcome() is None && final(self).timer().outcome() is Some ==> r
                == Poll::<Result<F::Output, u64>>::Ready(Err(old(self).max_time())),
            r matches Poll::Ready(Err(d)) ==> d == old(self).max_time()
                && final(self).inner().outcome() is None,
            r is Pending ==> final(self).inner().outcome() is None && final(self).timer().outcome() is None,
    {
        self.polls = Ghost(self.polls@ + 1);
        match self.race.poll(cx) {
            Poll::Ready(Either::Left(v)) => Poll::Ready(Ok(v)),
            Poll::Ready(Either::Right(_)) => Poll::Ready(Err(self.max_time_ms)),
            Poll::Pending => Poll::Pending,
        }
    }
}

/// Runs a computation, then produces a fixed value in place of its own.
pub struct Then<F, T> {
    inner: F,
    value: Option<T>,
    label: Ghost<T>,
    polls: Ghost<nat>,
}

/// `future`, producing `value` once it has finished.
pub fn then<F: MyFuture, T>(future: F, value: T) -> (r: Then<F, T>)
    requires
        future.wf(),
        future.outcome() is None,
    ensures
        r.wf(),
        r.outcome() is None,
        r.advances() == 0,
        r.inner() == future,
        r.value() == value,
{
    Then { inner: future, value: Some(value), label: Ghost(value), polls: Ghost(0) }
}

impl<F, T> Then<F, T> {
    pub closed spec fn inner(&self) -> F {
        self.inner
    }

    pub closed spec fn value(&self) -> T {
        self.label@
    }
}

impl<F: MyFuture, T> Then<F, T> {
    /// A finished `Then` has produced its fixed value.
    pub proof fn lemma_outcome_is_value(&self)
        requires
            self.outcome() is Some,
        ensures
            self.outcome() == Some(self.value()),
    {
    }

    /// Advancing never changes the value to produce.
    pub proof fn lemma_successor_keeps_value(&self, next: &Self)
        requires
            self.successor(next),
        ensures
            self.value() == next.value(),
    {
    }
}

impl<F: MyFuture, T> MyFuture for Then<F, T> {
    type Output = T;

    closed spec fn wf(&self) -> bool {
        &&& self.inner.wf()
        &&& self.inner.outcome() is None ==> self.value == Some(self.label@)
    }

    closed spec fn outcome(&self) -> Option<T> {
        if self.inner.outcome() is Some {
            Some(self.label@)
        } else {
            None
        }
    }

    closed spec fn advances(&self) -> nat {
        self.polls@
    }

    closed spec fn successor(&self, next: &Self) -> bool {
        self.inner.successor(&next.inner) && self.label@ == next.label@
    }

    proof fn lemma_successor_reflexive(a: &Self) {
        F::lemma_successor_reflexive(&a.inner);
    }

    proof fn lemma_successor_transitive(a: &Self, b: &Self, c: &Self) {
        F::lemma_successor_transitive(&a.inner, &b.inner, &c.inner);
    }

    fn poll(&mut self, cx: &WakeHandle) -> (r: Poll<T>)
        ensures
            final(self).inner().advances() == old(self).inner().advances() + 1,
            final(self).inner().outcome() is Some ==> r == Poll::Ready(old(self).value()),
            r is Pending ==> final(self).inner().outcome() is None,
    {
        self.polls = Ghost(self.polls@ + 1);
        match self.inner.poll(cx) {
            Poll::Ready(_) => Poll::Ready(self.value.take().unwrap()),
            Poll::Pending => Poll::Pending,
        }
    }
}

} // verus!
