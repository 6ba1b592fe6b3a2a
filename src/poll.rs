use vstd::prelude::*;

verus! {

/// The outcome of one advance of a computation.
pub enum Poll<T> {
    /// The computation has finished with this value. This is terminal.
    Ready(T),
    /// The computation cannot make progress yet; it has arranged to be woken.
    Pending,
}

/// The result of racing two computations.
pub enum Either<L, R> {
    Left(L),
    Right(R),
}

impl<T> Poll<T> {
    /// Whether this outcome is `Ready`.
    pub fn is_ready(&self) -> (r: bool)
        ensures
            r == (self is Ready),
    {
        match self {
            Poll::Ready(_) => true,
            Poll::Pending => false,
        }
    }
}

} // verus!
