use vstd::prelude::*;

verus! {

/// Why a queue operation could not complete.
#[derive(Copy, Clone, PartialEq, Eq, Debug, Hash, Structural)]
pub enum QueueError {
    OutOfBounds,
}

/// The capability of a first-in, first-out container.
pub trait Queue<T>: Sized {
    fn new() -> Self;

    fn push(&mut self, elem: T) -> Result<(), QueueError>;

    fn pop(&mut self) -> Result<T, QueueError>;

    fn peek(&self) -> Result<&T, QueueError>;

    fn length(&self) -> Result<usize, QueueError>;
}

} // verus!
