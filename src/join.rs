use vstd::prelude::*;
use crate::future::MyFuture;
use crate::poll::Poll;
use crate::select::Then;
use crate::waker::WakeHandle;

verus! {

/// Drives a runtime-sized, ordered collection of computations to completion.
///
/// Each round advances every member that has not finished yet, in index
/// order, and records each value in the slot of its member. The result lists
/// the values in the order of the members, whatever order they finished in.
pub struct JoinAll<F: MyFuture> {
    futures: Vec<F>,
    slots: Vec<Option<F::Output>>,
    result: Ghost<Option<Vec<F::Output>>>,
    polls: Ghost<nat>,
}

/// Joins `futures`, none of which has finished yet.
pub fn join_all<F: MyFuture>(futures: Vec<F>) -> (r: JoinAll<F>)
    requires
        forall|i: int| 0 <= i < futures@.len() ==> #[trigger] futures@[i].wf(),
        forall|i: int| 0 <= i < futures@.len() ==> #[trigger] futures@[i].outcome() is None,
    ensures
        r.wf(),
        r.outcome() is None,
        r.advances() == 0,
        r.members() == futures@,
{
    let n = futures.len();
    let mut slots: Vec<Option<F::Output>> = Vec::new();
    let mut i: usize = 0;
    while i < n
        invariant
            i <= n,
            n == futures@.len(),
            slots@.len() == i,
            forall|j: int| 0 <= j < i ==> #[trigger] slots@[j] is None,
        decreases n - i,
    {
        slots.push(None);
        i = i + 1;
    }
    JoinAll { futures, slots, result: Ghost(None), polls: Ghost(0) }
}

impl<F: MyFuture> JoinAll<F> {
    /// The members, in the order they were given.
    pub closed spec fn members(&self) -> Seq<F> {
        self.futures@
    }

    /// A finished join holds each member's value in that member's position.
    pub proof fn lemma_outcome_members(&self)
        requires
            self.wf(),
            self.outcome() is Some,
        ensures
            self.outcome()->0@.len() == self.members().len(),
            forall|j: int|
                0 <= j < self.members().len() ==> (#[trigger] self.members()[j]).outcome() == Some(
                    self.outcome()->0@[j],
                ),
    {
    }

    /// A join of no members finishes on its first advance.
    pub proof fn lemma_unfinished_empty(&self)
        requires
            self.wf(),
            self.outcome() is None,
            self.members().len() == 0,
        ensures
            self.advances() == 0,
    {
    }

    /// Advancing a join advances each member in its own position.
    pub proof fn lemma_successor_members(&self, next: &Self)
        requires
            self.successor(next),
        ensures
            self.members().len() == next.members().len(),
            forall|j: int|
                0 <= j < self.members().len() ==> (#[trigger] self.members()[j]).successor(
                    &next.members()[j],
                ),
    {
    }

    /// Every slot records the outcome of its own member.
    closed spec fn slots_match(&self) -> bool {
        &&& self.slots@.len() == self.futures@.len()
        &&& forall|j: int|
            0 <= j < self.futures@.len() ==> #[trigger] self.slots@[j]
                == self.futures@[j].outcome()
    }
}

impl<F: MyFuture> MyFuture for JoinAll<F> {
    type Output = Vec<F::Output>;

    closed spec fn wf(&self) -> bool {
        &&& self.slots@.len() == self.futures@.len()
        &&& forall|j: int| 0 <= j < self.futures@.len() ==> #[trigger] self.futures@[j].wf()
        &&& match self.result@ {
            None => self.slots_match() && (self.futures@.len() == 0 ==> self.polls@ == 0),
            Some(out) => out@.len() == self.futures@.len() && forall|j: int|
                0 <= j < self.futures@.len() ==> #[trigger] self.futures@[j].outcome() == Some(
                    out@[j],
                ),
        }
    }

    closed spec fn outcome(&self) -> Option<Vec<F::Output>> {
        self.result@
    }

    closed spec fn advances(&self) -> nat {
        self.polls@
    }

    closed spec fn successor(&self, next: &Self) -> bool {
        &&& self.futures@.len() == next.futures@.len()
        &&& forall|j: int|
            0 <= j < self.futures@.len() ==> #[trigger] self.futures@[j].successor(
                &next.futures@[j],
            )
    }

    proof fn lemma_successor_reflexive(a: &Self) {
        assert forall|j: int| 0 <= j < a.futures@.len() implies #[trigger] a.futures@[j].successor(
            &a.futures@[j],
        ) by {
            F::lemma_successor_reflexive(&a.futures@[j]);
        }
    }

    proof fn lemma_successor_transitive(a: &Self, b: &Self, c: &Self) {
        assert forall|j: int| 0 <= j < a.futures@.len() implies #[trigger] a.futures@[j].successor(
            &c.futures@[j],
        ) by {
            F::lemma_successor_transitive(&a.futures@[j], &b.futures@[j], &c.futures@[j]);
        }
    }

    fn poll(&mut self, cx: &WakeHandle) -> (r: Poll<Vec<F::Output>>)
        ensures
            final(self).members().len() == old(self).members().len(),
            forall|j: int|
                0 <= j < old(self).members().len() && (#[trigger] old(self).members()[j]).outcome()
                    is Some ==> final(self).members()[j] == old(self).members()[j],
            r matches Poll::Ready(out) ==> out@.len() == old(self).members().len() && forall|
                j: int,
            |
                0 <= j < out@.len() ==> (#[trigger] final(self).members()[j]).outcome() == Some(
                    out@[j],
                ),
            forall|j: int|
                0 <= j < old(self).members().len() && (#[trigger] old(self).members()[j]).outcome()
                    is None ==> final(self).members()[j].advances() == old(self).members()[j].advances()
                    + 1,
            (forall|j: int|
                0 <= j < final(self).members().len() ==> (#[trigger] final(self).members()[j]).outcome()
                    is Some) ==> r is Ready,
    {
        self.polls = Ghost(self.polls@ + 1);
        let n = self.futures.len();
        let ghost start = self.futures@;
        let mut all_done = true;
        let mut i: usize = 0;
        while i < n
            invariant
                i <= n,
                n == self.futures@.len(),
                self.slots@.len() == n,
                self.result@ is None,
                self.polls@ == old(self).polls@ + 1,
                start.len() == n,
                forall|j: int| 0 <= j < n ==> #[trigger] self.futures@[j].wf(),
                forall|j: int| 0 <= j < n ==> #[trigger] self.slots@[j] == self.futures@[j].outcome(),
                forall|j: int| i <= j < n ==> #[trigger] self.futures@[j] == start[j],
                forall|j: int| 0 <= j < i ==> #[trigger] start[j].successor(&self.futures@[j]),
                forall|j: int|
                    0 <= j < i && (#[trigger] start[j]).outcome() is None ==> self.futures@[j].advances()
                        == start[j].advances() + 1,
                forall|j: int|
                    0 <= j < n && (#[trigger] start[j]).outcome() is Some ==> self.futures@[j]
                        == start[j],
                all_done == forall|j: int| 0 <= j < i ==> (#[trigger] self.slots@[j]) is Some,
            decreases n - i,
        {
            proof {
                F::lemma_successor_reflexive(&self.futures@[i as int]);
            }
            if self.slots[i].is_none() {
                match self.futures[i].poll(cx) {
                    Poll::Ready(v) => {
                        self.slots.set(i, Some(v));
                    },
                    Poll::Pending => {
                        all_done = false;
                    },
                }
            }
            i = i + 1;
        }
        if !all_done {
            proof {
                let j = choose|j: int| 0 <= j < n && !(self.slots@[j] is Some);
                assert(self.futures@[j].outcome() is None);
            }
            return Poll::Pending;
        }
        let ghost filled = self.slots@;
        let ghost polled = self.futures@;
        let mut out: Vec<F::Output> = Vec::new();
        let mut k: usize = 0;
        while k < n
            invariant
                k <= n,
                n == self.futures@.len(),
                self.futures@ == polled,
                self.polls@ == old(self).polls@ + 1,
                self.slots@.len() == n,
                filled.len() == n,
                out@.len() == k,
                forall|j: int| 0 <= j < n ==> #[trigger] filled[j] == self.futures@[j].outcome(),
                forall|j: int| 0 <= j < n ==> (#[trigger] filled[j]) is Some,
                forall|j: int| k <= j < n ==> #[trigger] self.slots@[j] == filled[j],
                forall|j: int| 0 <= j < k ==> filled[j] == Some(#[trigger] out@[j]),
            decreases n - k,
        {
            let v = self.slots[k].take();
            out.push(v.unwrap());
            k = k + 1;
        }
        self.result = Ghost(Some(out));
        Poll::Ready(out)
    }
}

/// When members that each produce a fixed value are joined, the finished
/// join lists those values in the order of the members, whatever order the
/// members finished in.
pub proof fn law_join_all_in_input_order<F: MyFuture, T>(
    start: &JoinAll<Then<F, T>>,
    end: &JoinAll<Then<F, T>>,
)
    requires
        start.successor(end),
        end.wf(),
        end.outcome() is Some,
    ensures
        end.outcome()->0@ == start.members().map_values(|m: Then<F, T>| m.value()),
{
    start.lemma_successor_members(end);
    end.lemma_outcome_members();
    let out = end.outcome()->0@;
    assert forall|j: int| 0 <= j < out.len() implies out[j] == #[trigger] start.members()[j].value() by {
        end.members()[j].lemma_outcome_is_value();
        start.members()[j].lemma_successor_keeps_value(&end.members()[j]);
    }
    assert(out =~= start.members().map_values(|m: Then<F, T>| m.value()));
}

/// Drives two computations of possibly different types to completion, the
/// first before the second in each round.
pub struct Join2<A: MyFuture, B: MyFuture> {
    first: A,
    second: B,
    first_out: Option<A::Output>,
    second_out: Option<B::Output>,
    result: Ghost<Option<(A::Output, B::Output)>>,
    polls: Ghost<nat>,
    first_base: Ghost<nat>,
    second_base: Ghost<nat>,
}

/// Joins `a` and `b`, neither of which has finished yet.
pub fn join<A: MyFuture, B: MyFuture>(a: A, b: B) -> (r: Join2<A, B>)
    requires
        a.wf(),
        b.wf(),
        a.outcome() is None,
        b.outcome() is None,
    ensures
        r.wf(),
        r.outcome() is None,
        r.advances() == 0,
        r.first() == a,
        r.second() == b,
{
    let ghost first_base = a.advances();
    let ghost second_base = b.advances();
    Join2 {
        first: a,
        second: b,
        first_out: None,
        second_out: None,
        result: Ghost(None),
        polls: Ghost(0),
        first_base: Ghost(first_base),
        second_base: Ghost(second_base),
    }
}

impl<A: MyFuture, B: MyFuture> Join2<A, B> {
    pub closed spec fn first(&self) -> A {
        self.first
    }

    pub closed spec fn second(&self) -> B {
        self.second
    }
}

impl<A: MyFuture, B: MyFuture> Join2<A, B> {
    /// A finished join holds its members' values, in order.
    pub proof fn lemma_outcome_parts(&self)
        requires
            self.wf(),
            self.outcome() is Some,
        ensures
            self.first().wf(),
            self.second().wf(),
            self.first().outcome() == Some((self.outcome()->0).0),
            self.second().outcome() == Some((self.outcome()->0).1),
    {
    }

    /// An unfinished join has not seen both members finish, and each
    /// unfinished member has been advanced at least once per advance of the
    /// join.
    pub proof fn lemma_unfinished_members(&self)
        requires
            self.wf(),
            self.outcome() is None,
        ensures
            self.first().wf(),
            self.second().wf(),
            !(self.first().outcome() is Some && self.second().outcome() is Some),
            self.first().outcome() is None ==> self.first().advances() >= self.advances(),
            self.second().outcome() is None ==> self.second().advances() >= self.advances(),
    {
    }

    /// Advancing a join advances each member.
    pub proof fn lemma_successor_parts(&self, next: &Self)
        requires
            self.successor(next),
        ensures
            self.first().successor(&next.first()),
            self.second().successor(&next.second()),
    {
    }
}

impl<A: MyFuture, B: MyFuture> MyFuture for Join2<A, B> {
    type Output = (A::Output, B::Output);

    closed spec fn wf(&self) -> bool {
        &&& self.first.wf()
        &&& self.second.wf()
        &&& match self.result@ {
            None => {
                &&& self.first_out == self.first.outcome()
                &&& self.second_out == self.second.outcome()
                &&& !(self.first_out is Some && self.second_out is Some)
                &&& self.first_out is None ==> self.first.advances() == self.first_base@
                    + self.polls@
                &&& self.second_out is None ==> self.second.advances() == self.second_base@
                    + self.polls@
            },
            Some(pair) => self.first.outcome() == Some(pair.0) && self.second.outcome() == Some(
                pair.1,
            ),
        }
    }

    closed spec fn outcome(&self) -> Option<(A::Output, B::Output)> {
        self.result@
    }

    closed spec fn advances(&self) -> nat {
        self.polls@
    }

    closed spec fn successor(&self, next: &Self) -> bool {
        self.first.successor(&next.first) && self.second.successor(&next.second)
    }

    proof fn lemma_successor_reflexive(a: &Self) {
        A::lemma_successor_reflexive(&a.first);
        B::lemma_successor_reflexive(&a.second);
    }

    proof fn lemma_successor_transitive(a: &Self, b: &Self, c: &Self) {
        A::lemma_successor_transitive(&a.first, &b.first, &c.first);
        B::lemma_successor_transitive(&a.second, &b.second, &c.second);
    }

    fn poll(&mut self, cx: &WakeHandle) -> (r: Poll<(A::Output, B::Output)>)
        ensures
            old(self).first().outcome() is Some ==> final(self).first() == old(self).first(),
            old(self).second().outcome() is Some ==> final(self).second() == old(self).second(),
            r matches Poll::Ready(pair) ==> final(self).first().outcome() == Some(pair.0)
                && final(self).second().outcome() == Some(pair.1),
            old(self).first().outcome() is None ==> final(self).first().advances() == old(self).first().advances() + 1,
            old(self).second().outcome() is None ==> final(self).second().advances() == old(self).second().advances() + 1,
            final(self).first().outcome() is Some && final(self).second().outcome() is Some ==> r
                is Ready,
    {
        self.polls = Ghost(self.polls@ + 1);
        proof {
            A::lemma_successor_reflexive(&self.first);
            B::lemma_successor_reflexive(&self.second);
        }
        if self.first_out.is_none() {
            match self.first.poll(cx) {
                Poll::Ready(v) => {
                    self.first_out = Some(v);
                },
                Poll::Pending => {},
            }
        }
        if self.second_out.is_none() {
            match self.second.poll(cx) {
                Poll::Ready(v) => {
                    self.second_out = Some(v);
                },
                Poll::Pending => {},
            }
        }
        if self.first_out.is_some() && self.second_out.is_some() {
            let a = self.first_out.take().unwrap();
            let b = self.second_out.take().unwrap();
            self.result = Ghost(Some((a, b)));
            Poll::Ready((a, b))
        } else {
            Poll::Pending
        }
    }
}

} // verus!
