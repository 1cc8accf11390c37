use vstd::prelude::*;
use vstd::std_specs::cmp::PartialEqSpec;

use crate::list::matches_at;

verus! {

/// Why a priority-queue operation could not complete.
#[derive(Copy, Clone, PartialEq, Eq, Debug, Hash, Structural)]
pub enum PriorityQueueError {
    OutOfBounds,
}

/// `x` is one of the elements of `s` and every element of `s` stands in
/// relation `leq` to it.
pub open spec fn is_greatest<T>(s: Seq<T>, x: T, leq: spec_fn(T, T) -> bool) -> bool {
    &&& s.contains(x)
    &&& forall|i: int| 0 <= i < s.len() ==> #[trigger] leq(s[i], x)
}

/// A run of pops, each taking a greatest element under `leq` (`popped[k]`) out
/// of what the queue held (`contents[k]`) and leaving the rest
/// (`contents[k + 1]`), hands out its elements in descending order, and hands out, together with what is left,
/// exactly what the queue held at the start. In particular, pushing `n`
/// elements onto an empty queue and popping `n` times yields those `n`
/// elements from the greatest down.
pub proof fn law_pops_descend<T>(leq: spec_fn(T, T) -> bool, contents: Seq<Seq<T>>, popped: Seq<T>)
    requires
        contents.len() == popped.len() + 1,
        forall|k: int| 0 <= k < popped.len() ==> is_greatest(contents[k], #[trigger] popped[k], leq),
        forall|k: int|
            0 <= k < popped.len() ==> #[trigger] contents[k + 1].to_multiset() == contents[k].to_multiset().remove(
                popped[k],
            ),
    ensures
        forall|k: int| 0 <= k < popped.len() - 1 ==> #[trigger] leq(popped[k + 1], popped[k]),
        popped.to_multiset().add(contents.last().to_multiset()) == contents[0].to_multiset(),
    decreases popped.len(),
{
    broadcast use vstd::multiset::group_multiset_axioms, vstd::seq_lib::group_to_multiset_ensures;

    assert forall|k: int| 0 <= k < popped.len() - 1 implies #[trigger] leq(
        popped[k + 1],
        popped[k],
    ) by {
        let next = popped[k + 1];
        assert(contents[k + 1].contains(next));
        assert(contents[k + 1].to_multiset().count(next) > 0);
        assert(contents[k].to_multiset().count(next) > 0);
        let i = choose|i: int| 0 <= i < contents[k].len() && contents[k][i] == next;
        assert(leq(contents[k][i], popped[k]));
    }
    let n = popped.len();
    if n == 0 {
        assert(popped.to_multiset().add(contents.last().to_multiset()) =~= contents[0].to_multiset());
    } else {
        let fewer = popped.drop_last();
        let shorter = contents.drop_last();
        law_pops_descend(leq, shorter, fewer);
        let p = popped[n - 1];
        assert(popped =~= fewer.push(p));
        vstd::seq_lib::to_multiset_build(fewer, p);
        assert(contents[n - 1].contains(p));
        assert(contents[n - 1].to_multiset().count(p) > 0);
        assert(popped.to_multiset().add(contents.last().to_multiset()) =~= contents[0].to_multiset());
    }
}

/// A container that always yields its greatest element first, viewed as the
/// sequence of its elements in the container's own enumeration order.
pub trait PriorityQueue<T: PartialEq>: Sized + View<V = Seq<T>> {
    /// The container's internal arrangement is consistent.
    spec fn well_formed(&self) -> bool;

    /// The order in which the container ranks its elements: `order()(a, b)`
    /// when `a` ranks no higher than `b`.
    spec fn order(&self) -> spec_fn(T, T) -> bool;

    fn new() -> (r: Self)
        ensures
            r.well_formed(),
            r@ == Seq::<T>::empty(),
    ;

    fn push(&mut self, elem: T) -> (r: Result<(), PriorityQueueError>)
        requires
            old(self).well_formed(),
        ensures
            r == Ok::<(), PriorityQueueError>(()),
            final(self).well_formed(),
            final(self).order() == old(self).order(),
            final(self)@.to_multiset() == old(self)@.to_multiset().insert(elem),
    ;

    fn pop(&mut self) -> (r: Result<T, PriorityQueueError>)
        requires
            old(self).well_formed(),
        ensures
            final(self).well_formed(),
            final(self).order() == old(self).order(),
            old(self)@.len() == 0 ==> r == Err::<T, PriorityQueueError>(
                PriorityQueueError::OutOfBounds,
            ) && final(self)@ == old(self)@,
            old(self)@.len() > 0 ==> {
                &&& r is Ok
                &&& is_greatest(old(self)@, r->Ok_0, old(self).order())
                &&& final(self)@.to_multiset() == old(self)@.to_multiset().remove(r->Ok_0)
            },
    ;

    fn peek(&self) -> (r: Result<&T, PriorityQueueError>)
        requires
            self.well_formed(),
        ensures
            self@.len() == 0 ==> r == Err::<&T, PriorityQueueError>(
                PriorityQueueError::OutOfBounds,
            ),
            self@.len() > 0 ==> r is Ok && is_greatest(self@, *r->Ok_0, self.order()),
    ;

    fn find(&self, elem: T) -> (r: Result<Option<usize>, PriorityQueueError>)
        requires
            T::obeys_eq_spec(),
        ensures
            r is Ok,
            match r->Ok_0 {
                Some(i) => i < self@.len() && matches_at(self@, i as int, elem) && forall|j: int|
                    0 <= j < i ==> !matches_at(self@, j, elem),
                None => forall|j: int| 0 <= j < self@.len() ==> !matches_at(self@, j, elem),
            },
    ;

    fn length(&self) -> (r: Result<usize, PriorityQueueError>)
        ensures
            r == Ok::<usize, PriorityQueueError>(self@.len() as usize),
            self@.len() <= usize::MAX,
    ;
}

} // verus!
