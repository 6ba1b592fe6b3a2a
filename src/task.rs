use vstd::prelude::*;
use crate::future::MyFuture;
use crate::poll::Poll;
use crate::script::Script;
use crate::timer::TimerFuture;
use crate::waker::WakeHandle;
use crate::yield_now::YieldNow;

verus! {

/// One computation out of a closed set of shapes, so that computations of
/// different shapes can share one ordered collection (for `join_all`).
pub enum Task {
    Timer(TimerFuture),
    Yield(YieldNow),
    Script(Script),
}

/// The value of a finished `Task`, tagged by the shape that produced it.
pub enum TaskOutput {
    TimerDone,
    Unit,
    Trace(Vec<u64>),
}

impl MyFuture for Task {
    type Output = TaskOutput;

    open spec fn wf(&self) -> bool {
        match self {
            Task::Timer(t) => t.wf(),
            Task::Yield(y) => y.wf(),
            Task::Script(s) => s.wf(),
        }
    }

    open spec fn outcome(&self) -> Option<TaskOutput> {
        match self {
            Task::Timer(t) => match t.outcome() {
                Some(_) => Some(TaskOutput::TimerDone),
                None => None,
            },
            Task::Yield(y) => match y.outcome() {
                Some(_) => Some(TaskOutput::Unit),
                None => None,
            },
            Task::Script(s) => match s.outcome() {
                Some(v) => Some(TaskOutput::Trace(v)),
                None => None,
            },
        }
    }

    open spec fn advances(&self) -> nat {
        match self {
            Task::Timer(t) => t.advances(),
            Task::Yield(y) => y.advances(),
            Task::Script(s) => s.advances(),
        }
    }

    open spec fn successor(&self, next: &Self) -> bool {
        match (self, next) {
            (Task::Timer(a), Task::Timer(b)) => a.successor(b),
            (Task::Yield(a), Task::Yield(b)) => a.successor(b),
            (Task::Script(a), Task::Script(b)) => a.successor(b),
            _ => false,
        }
    }

    proof fn lemma_successor_reflexive(a: &Self) {
        match a {
            Task::Timer(t) => TimerFuture::lemma_successor_reflexive(t),
            Task::Yield(y) => YieldNow::lemma_successor_reflexive(y),
            Task::Script(s) => Script::lemma_successor_reflexive(s),
        }
    }

    proof fn lemma_successor_transitive(a: &Self, b: &Self, c: &Self) {
        match (a, b, c) {
            (Task::Timer(x), Task::Timer(y), Task::Timer(z)) => {
                TimerFuture::lemma_successor_transitive(x, y, z)
            },
            (Task::Yield(x), Task::Yield(y), Task::Yield(z)) => {
                YieldNow::lemma_successor_transitive(x, y, z)
            },
            (Task::Script(x), Task::Script(y), Task::Script(z)) => {
                Script::lemma_successor_transitive(x, y, z)
            },
            _ => {},
        }
    }

    fn poll(&mut self, cx: &WakeHandle) -> (r: Poll<TaskOutput>) {
        match self {
            Task::Timer(t) => match t.poll(cx) {
                Poll::Ready(_) => Poll::Ready(TaskOutput::TimerDone),
                Poll::Pending => Poll::Pending,
            },
            Task::Yield(y) => match y.poll(cx) {
                Poll::Ready(_) => Poll::Ready(TaskOutput::Unit),
                Poll::Pending => Poll::Pending,
            },
            Task::Script(s) => match s.poll(cx) {
                Poll::Ready(v) => Poll::Ready(TaskOutput::Trace(v)),
                Poll::Pending => Poll::Pending,
            },
        }
    }
}

} // verus!
