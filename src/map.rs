use vstd::prelude::*;

verus! {

/// Why a map operation could not complete.
#[derive(Copy, Clone, PartialEq, Eq, Debug, Hash, Structural)]
pub enum MapError {
    KeyNotFound,
}

/// The capability of a container that associates values with unique keys.
pub trait KeyValueMap<K, V>: Sized {
    fn new() -> Self;

    fn get(&self, key: K) -> Result<&V, MapError>;

    fn get_mut(&mut self, key: K) -> Result<&mut V, MapError>;

    fn set(&mut self, key: K, value: V) -> Result<(), MapError>;

    fn remove(&mut self, key: K) -> Result<(), MapError>;

    fn size(&self) -> Result<usize, MapError>;

    fn contains_key(&self, key: K) -> Result<bool, MapError>;

    fn contains_value(&self, value: V) -> Result<bool, MapError>;

    fn clear(&mut self) -> Result<(), MapError>;
}

} // verus!
