use vstd::prelude::*;

verus! {

/// Why a set operation could not complete.
#[derive(Copy, Clone, PartialEq, Eq, Debug, Hash, Structural)]
pub enum SetError {
    Impossible,
}

/// The capability of a container that holds each element at most once.
pub trait UniqueSet<T>: Sized {
    fn new() -> Self;

    fn add(&mut self, elem: T) -> Result<(), SetError>;

    fn remove(&mut self, elem: T) -> Result<(), SetError>;

    fn contains(&self, elem: T) -> Result<bool, SetError>;

    fn size(&self) -> Result<usize, SetError>;

    fn clear(&mut self) -> Result<(), SetError>;
}

} // verus!
