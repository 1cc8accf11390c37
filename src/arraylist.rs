use vstd::prelude::*;
use vstd::std_specs::cmp::PartialEqSpec;

use crate::list::{matches_at, occurrences, positions_of, swapped, List, ListError};

verus! {

/// A `List` stored in a contiguous growable vector.
#[derive(Clone, Debug)]
pub struct ArrayList<T> {
    elems: Vec<T>,
}

impl<T> View for ArrayList<T> {
    type V = Seq<T>;

    closed spec fn view(&self) -> Seq<T> {
        self.elems@
    }
}

impl<T> ArrayList<T> {
    /// A list holding the elements of `elems`, in their order.
    pub fn from_vec(elems: Vec<T>) -> (r: ArrayList<T>)
        ensures
            r@ == elems@,
    {
        ArrayList { elems }
    }
}

impl<T: PartialEq> PartialEq for ArrayList<T> {
    fn eq(&self, other: &Self) -> (r: bool) {
        if self.elems.len() != other.elems.len() {
            return false;
        }
        let mut i: usize = 0;
        while i < self.elems.len()
            invariant
                self.elems@.len() == other.elems@.len(),
                i <= self.elems@.len(),
                T::obeys_eq_spec() ==> forall|k: int|
                    0 <= k < i ==> self.elems@[k].eq_spec(&other.elems@[k]),
            decreases self.elems@.len() - i,
        {
            if self.elems[i] != other.elems[i] {
                return false;
            }
            i += 1;
        }
        true
    }
}

impl<T: PartialEq> vstd::std_specs::cmp::PartialEqSpecImpl for ArrayList<T> {
    open spec fn obeys_eq_spec() -> bool {
        T::obeys_eq_spec()
    }

    open spec fn eq_spec(&self, other: &ArrayList<T>) -> bool {
        &&& self@.len() == other@.len()
        &&& forall|k: int| 0 <= k < self@.len() ==> self@[k].eq_spec(&other@[k])
    }
}

impl<T: PartialEq> List<T> for ArrayList<T> {
    fn new() -> (r: Self) {
        ArrayList { elems: Vec::new() }
    }

    fn get(&self, pos: usize) -> (r: Result<&T, ListError>) {
        if pos >= self.elems.len() {
            return Err(ListError::OutOfBounds);
        }
        Ok(&self.elems[pos])
    }

    fn get_mut(&mut self, pos: usize) -> (r: Result<&mut T, ListError>) {
        if pos >= self.elems.len() {
            return Err(ListError::OutOfBounds);
        }
        Ok(&mut self.elems[pos])
    }

    fn set(&mut self, pos: usize, elem: T) -> (r: Result<(), ListError>) {
        if pos >= self.elems.len() {
            return Err(ListError::OutOfBounds);
        }
        self.elems.set(pos, elem);
        Ok(())
    }

    fn insert(&mut self, pos: usize, elem: T) -> (r: Result<(), ListError>) {
        if pos > self.elems.len() {
            return Err(ListError::OutOfBounds);
        }
        self.elems.insert(pos, elem);
        Ok(())
    }

    fn remove(&mut self, pos: usize) -> (r: Result<T, ListError>) {
        if pos >= self.elems.len() {
            return Err(ListError::OutOfBounds);
        }
        Ok(self.elems.remove(pos))
    }

    fn length(&self) -> (r: Result<usize, ListError>) {
        Ok(self.elems.len())
    }

    fn append(&mut self, elem: T) -> (r: Result<(), ListError>) {
        self.elems.push(elem);
        Ok(())
    }

    fn swap(&mut self, a: usize, b: usize) -> (r: Result<(), ListError>) {
        if a >= self.elems.len() || b >= self.elems.len() {
            return Err(ListError::OutOfBounds);
        }
        if a == b {
            proof {
                assert(swapped(old(self)@, a as int, b as int) =~= old(self)@);
            }
            return Ok(());
        }
        let (lo, hi) = if a < b {
            (a, b)
        } else {
            (b, a)
        };
        // Take the later element out first so that the earlier position stays put.
        let at_hi: T = self.elems.remove(hi);
        let at_lo: T = self.elems.remove(lo);
        self.elems.insert(lo, at_hi);
        self.elems.insert(hi, at_lo);
        proof {
            assert(self.elems@ =~= swapped(old(self)@, a as int, b as int));
        }
        Ok(())
    }

    fn contains(&self, elem: T) -> (r: Result<bool, ListError>) {
        let mut i: usize = 0;
        while i < self.elems.len()
            invariant
                T::obeys_eq_spec(),
                i <= self.elems@.len(),
                forall|k: int| 0 <= k < i ==> !matches_at(self@, k, elem),
            decreases self.elems@.len() - i,
        {
            if self.elems[i] == elem {
                proof {
                    assert(matches_at(self@, i as int, elem));
                }
                return Ok(true);
            }
            i += 1;
        }
        Ok(false)
    }

    fn find_all(&self, elem: T) -> (r: Result<Option<Vec<usize>>, ListError>) {
        let mut res: Vec<usize> = Vec::new();
        let mut i: usize = 0;
        while i < self.elems.len()
            invariant
                T::obeys_eq_spec(),
                i <= self.elems@.len(),
                forall|k: int, l: int| 0 <= k < l < res@.len() ==> res@[k] < res@[l],
                forall|k: int| 0 <= k < res@.len() ==> res@[k] < i && matches_at(self@, res@[k] as int, elem),
                forall|j: int| 0 <= j < i && matches_at(self@, j, elem) ==> res@.contains(j as usize),
            decreases self.elems@.len() - i,
        {
            let ghost before = res@;
            if self.elems[i] == elem {
                res.push(i);
                proof {
                    assert(res@[res@.len() - 1] == i);
                    assert forall|j: int| 0 <= j < i && matches_at(self@, j, elem) implies res@.contains(
                        j as usize,
                    ) by {
                        let k = choose|k: int| 0 <= k < before.len() && before[k] == j as usize;
                        assert(res@[k] == j as usize);
                    }
                }
            }
            i += 1;
        }
        Ok(Some(res))
    }

    fn find(&self, elem: T) -> (r: Result<Option<usize>, ListError>) {
        let mut i: usize = 0;
        while i < self.elems.len()
            invariant
                T::obeys_eq_spec(),
                i <= self.elems@.len(),
                forall|k: int| 0 <= k < i ==> !matches_at(self@, k, elem),
            decreases self.elems@.len() - i,
        {
            if self.elems[i] == elem {
                return Ok(Some(i));
            }
            i += 1;
        }
        Ok(None)
    }

    fn count(&self, elem: T) -> (r: Result<usize, ListError>) {
        let mut count: usize = 0;
        let mut i: usize = 0;
        while i < self.elems.len()
            invariant
                T::obeys_eq_spec(),
                i <= self.elems@.len(),
                count <= i,
                count == occurrences(self@.take(i as int), elem),
            decreases self.elems@.len() - i,
        {
            proof {
                assert(self@.take(i + 1).drop_last() =~= self@.take(i as int));
            }
            if self.elems[i] == elem {
                count += 1;
            }
            i += 1;
        }
        proof {
            assert(self@.take(i as int) =~= self@);
        }
        Ok(count)
    }

    fn clear(&mut self) -> (r: Result<(), ListError>) {
        if self.elems.is_empty() {
            return Ok(());
        }
        self.elems.clear();
        Ok(())
    }
}

} // verus!
