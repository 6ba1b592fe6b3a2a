use vstd::prelude::*;
use crate::future::MyFuture;
use crate::poll::Poll;
use crate::waker::WakeHandle;

verus! {

/// One step of a cooperative branch.
pub enum Step {
    /// Bounded synchronous work, with its cost in milliseconds.
    Work(u64),
    /// A yield point: hand control back to the scheduler once.
    Yield,
}

/// The number of yield points among `steps`.
pub open spec fn yields(steps: Seq<Step>) -> nat
    decreases steps.len(),
{
    if steps.len() == 0 {
        0
    } else {
        let rest = yields(steps.drop_last());
        match steps.last() {
            Step::Yield => rest + 1,
            Step::Work(_) => rest,
        }
    }
}

/// For each work step of `steps`, in order, the advance (counted from zero)
/// during which a branch made of `steps` runs it: the number of yield points
/// before it.
pub open spec fn trace(steps: Seq<Step>) -> Seq<int>
    decreases steps.len(),
{
    if steps.len() == 0 {
        Seq::empty()
    } else {
        let rest = trace(steps.drop_last());
        match steps.last() {
            Step::Yield => rest,
            Step::Work(_) => rest.push(yields(steps.drop_last()) as int),
        }
    }
}

/// The views of a log of advance numbers.
pub open spec fn as_ints(v: Seq<u64>) -> Seq<int> {
    v.map_values(|x: u64| x as int)
}

/// A branch of cooperative work: it runs its work steps in order and returns
/// control to the scheduler at each yield point. It produces, for each work
/// step, the advance during which that step ran.
pub struct Script {
    steps: Vec<Step>,
    next: usize,
    round: u64,
    log: Vec<u64>,
    result: Ghost<Option<Vec<u64>>>,
}

impl Script {
    pub closed spec fn steps(&self) -> Seq<Step> {
        self.steps@
    }

    /// How many steps have been run.
    pub closed spec fn position(&self) -> int {
        self.next as int
    }

    /// A branch made of `steps`.
    pub fn new(steps: Vec<Step>) -> (r: Script)
        ensures
            r.wf(),
            r.outcome() is None,
            r.advances() == 0,
            r.steps() == steps@,
            r.position() == 0,
    {
        let r = Script { steps, next: 0, round: 0, log: Vec::new(), result: Ghost(None) };
        assert(as_ints(r.log@) =~= trace(r.steps@.take(0)));
        r
    }
}

impl MyFuture for Script {
    type Output = Vec<u64>;

    closed spec fn wf(&self) -> bool {
        &&& self.next <= self.steps@.len()
        &&& self.round == yields(self.steps@.take(self.next as int))
        &&& match self.result@ {
            None => as_ints(self.log@) == trace(self.steps@.take(self.next as int)),
            Some(out) => self.next == self.steps@.len() && as_ints(out@) == trace(self.steps@),
        }
    }

    closed spec fn outcome(&self) -> Option<Vec<u64>> {
        self.result@
    }

    /// Each advance that returns `Pending` passes one yield point; the last
    /// one returns `Ready`.
    closed spec fn advances(&self) -> nat {
        if self.result@ is Some {
            self.round as nat + 1
        } else {
            self.round as nat
        }
    }

    closed spec fn successor(&self, next: &Self) -> bool {
        self.steps@ == next.steps@
    }

    proof fn lemma_successor_reflexive(a: &Self) {
    }

    proof fn lemma_successor_transitive(a: &Self, b: &Self, c: &Self) {
    }

    /// Runs the work steps up to the next yield point, or to the end.
    fn poll(&mut self, cx: &WakeHandle) -> (r: Poll<Vec<u64>>)
        ensures
            old(self).position() <= final(self).position(),
            r is Ready ==> final(self).position() == old(self).steps().len(),
            forall|k: int|
                old(self).position() <= k < final(self).position() - 1 ==> (#[trigger] old(
                    self,
                ).steps()[k]) is Work,
            r is Pending ==> old(self).position() < final(self).position() && old(
                self,
            ).steps()[final(self).position() - 1] is Yield,
            r matches Poll::Ready(v) ==> as_ints(v@) == trace(old(self).steps()),
    {
        let n = self.steps.len();
        let ghost start = self.next as int;
        while self.next < n
            invariant
                n == self.steps@.len(),
                start <= self.next <= n,
                self.steps@ == old(self).steps@,
                self.result@ is None,
                self.round == yields(self.steps@.take(self.next as int)),
                as_ints(self.log@) == trace(self.steps@.take(self.next as int)),
                forall|k: int| start <= k < self.next ==> (#[trigger] self.steps@[k]) is Work,
                start == old(self).next,
                self.round == old(self).round,
                old(self).result@ is None,
            decreases n - self.next,
        {
            let i = self.next;
            let ghost before = self.steps@.take(i as int);
            assert(self.steps@.take(i + 1).drop_last() =~= before);
            match self.steps[i] {
                Step::Work(_) => {
                    self.log.push(self.round);
                    self.next = i + 1;
                    assert(as_ints(self.log@) =~= trace(self.steps@.take(i + 1)));
                },
                Step::Yield => {
                    assert(yields(before) <= i) by {
                        lemma_yields_bounded(before);
                    }
                    self.round = self.round + 1;
                    self.next = i + 1;
                    cx.wake();
                    return Poll::Pending;
                },
            }
        }
        assert(self.steps@.take(n as int) =~= self.steps@);
        let out = self.log.clone();
        assert(out@ =~= self.log@);
        self.result = Ghost(Some(out));
        Poll::Ready(out)
    }
}

impl Script {
    /// A finished branch's value is the trace of its steps.
    pub proof fn lemma_outcome_is_trace(&self)
        requires
            self.wf(),
            self.outcome() is Some,
        ensures
            as_ints(self.outcome()->0@) == trace(self.steps()),
    {
    }

    /// An unfinished branch has been advanced at most once per step.
    pub proof fn lemma_unfinished_advances(&self)
        requires
            self.wf(),
            self.outcome() is None,
        ensures
            self.advances() <= self.steps().len(),
    {
        lemma_yields_bounded(self.steps@.take(self.next as int));
    }

    /// Advancing a branch never changes its steps.
    pub proof fn lemma_successor_keeps_steps(&self, next: &Script)
        requires
            self.successor(next),
        ensures
            self.steps() == next.steps(),
    {
    }
}

/// There are never more yield points than steps.
pub proof fn lemma_yields_bounded(steps: Seq<Step>)
    ensures
        yields(steps) <= steps.len(),
    decreases steps.len(),
{
    if steps.len() > 0 {
        lemma_yields_bounded(steps.drop_last());
    }
}

/// Counting yield points distributes over concatenation.
pub proof fn lemma_yields_concat(a: Seq<Step>, b: Seq<Step>)
    ensures
        yields(a + b) == yields(a) + yields(b),
    decreases b.len(),
{
    if b.len() == 0 {
        assert(a + b =~= a);
    } else {
        assert((a + b).drop_last() =~= a + b.drop_last());
        lemma_yields_concat(a, b.drop_last());
    }
}

/// A branch without yield points runs all of its work during its first
/// advance, so siblings scheduled beside it cannot run in between.
pub proof fn law_no_yield_runs_at_once(steps: Seq<Step>)
    requires
        forall|i: int| 0 <= i < steps.len() ==> #[trigger] steps[i] is Work,
    ensures
        forall|k: int| 0 <= k < trace(steps).len() ==> #[trigger] trace(steps)[k] == 0,
        trace(steps).len() == steps.len(),
    decreases steps.len(),
{
    if steps.len() > 0 {
        let init = steps.drop_last();
        assert forall|i: int| 0 <= i < init.len() implies #[trigger] init[i] is Work by {
            assert(init[i] == steps[i]);
        }
        law_no_yield_runs_at_once(init);
        lemma_no_yields(init);
    }
}

/// Work steps only: no yield point.
pub proof fn lemma_no_yields(steps: Seq<Step>)
    requires
        forall|i: int| 0 <= i < steps.len() ==> #[trigger] steps[i] is Work,
    ensures
        yields(steps) == 0,
    decreases steps.len(),
{
    if steps.len() > 0 {
        let init = steps.drop_last();
        assert forall|i: int| 0 <= i < init.len() implies #[trigger] init[i] is Work by {
            assert(init[i] == steps[i]);
        }
        lemma_no_yields(init);
    }
}

/// A yield point hands control back between the work before it and the work
/// after it: every work step after it runs in a later advance than every
/// work step before it.
pub proof fn law_yield_splits(a: Seq<Step>, b: Seq<Step>)
    ensures
        trace(a + seq![Step::Yield] + b) == trace(a) + trace(b).map_values(
            |x: int| x + yields(a) + 1,
        ),
    decreases b.len(),
{
    let y = seq![Step::Yield];
    if b.len() == 0 {
        assert(a + y + b =~= a + y);
        assert((a + y).drop_last() =~= a);
        assert(trace(b).map_values(|x: int| x + yields(a) + 1) =~= Seq::<int>::empty());
        assert(trace(a) + Seq::<int>::empty() =~= trace(a));
    } else {
        let b0 = b.drop_last();
        assert((a + y + b).drop_last() =~= a + y + b0);
        law_yield_splits(a, b0);
        match b.last() {
            Step::Yield => {
                assert(trace(b) == trace(b0));
            },
            Step::Work(_) => {
                lemma_yields_concat(a + y, b0);
                lemma_yields_concat(a, y);
                assert(yields(y) == 1) by {
                    assert(y.drop_last() =~= Seq::<Step>::empty());
                    assert(y.last() == Step::Yield);
                    assert(yields(Seq::<Step>::empty()) == 0);
                }
                assert(trace(b) == trace(b0).push(yields(b0) as int));
                assert(trace(a + y + b) =~= trace(a) + trace(b).map_values(
                    |x: int| x + yields(a) + 1,
                ));
            },
        }
    }
}

} // verus!
