use vstd::prelude::*;

verus! {

/// Why a stack operation could not complete.
#[derive(Copy, Clone, PartialEq, Eq, Debug, Hash, Structural)]
pub enum StackError {
    OutOfBounds,
    Impossible,
}

/// The capability of a last-in, first-out container.
pub trait Stack<T>: Sized {
    fn new() -> Self;

    fn push(&mut self, elem: T) -> Result<(), StackError>;

    fn pop(&mut self) -> Result<T, StackError>;

    fn peek(&self) -> Result<&T, StackError>;

    fn depth(&self) -> Result<usize, StackError>;

    fn clear(&mut self) -> Result<(), StackError>;
}

} // verus!
