use vstd::prelude::*;
use vstd::std_specs::cmp::PartialEqSpec;

verus! {

/// Why a list operation could not complete.
#[derive(Copy, Clone, PartialEq, Eq, Debug, Hash, Structural)]
pub enum ListError {
    OutOfBounds,
    Impossible,
}

/// `s[i]` compares equal to `elem` under `T`'s `==`.
pub open spec fn matches_at<T: PartialEq>(s: Seq<T>, i: int, elem: T) -> bool {
    s[i].eq_spec(&elem)
}

/// Number of elements of `s` that compare equal to `elem`.
pub open spec fn occurrences<T: PartialEq>(s: Seq<T>, elem: T) -> nat
    decreases s.len(),
{
    if s.len() == 0 {
        0
    } else {
        occurrences(s.drop_last(), elem) + if s.last().eq_spec(&elem) {
            1nat
        } else {
            0nat
        }
    }
}

/// `p` lists, in strictly ascending order, exactly the positions of `s` whose
/// element compares equal to `elem`.
pub open spec fn positions_of<T: PartialEq>(s: Seq<T>, elem: T, p: Seq<usize>) -> bool {
    &&& forall|k: int, l: int| 0 <= k < l < p.len() ==> p[k] < p[l]
    &&& forall|k: int| 0 <= k < p.len() ==> p[k] < s.len() && matches_at(s, p[k] as int, elem)
    &&& forall|i: int| 0 <= i < s.len() && matches_at(s, i, elem) ==> p.contains(i as usize)
}

/// `s` with the elements at `a` and `b` exchanged.
pub open spec fn swapped<T>(s: Seq<T>, a: int, b: int) -> Seq<T> {
    s.update(a, s[b]).update(b, s[a])
}

/// Exchanging two elements keeps the multiset of elements.
pub proof fn lemma_swapped_multiset<T>(s: Seq<T>, a: int, b: int)
    requires
        0 <= a < s.len(),
        0 <= b < s.len(),
    ensures
        swapped(s, a, b).to_multiset() == s.to_multiset(),
{
    broadcast use vstd::multiset::group_multiset_axioms, vstd::seq_lib::group_to_multiset_ensures;

    let s1 = s.update(a, s[b]);
    vstd::seq_lib::to_multiset_update(s, a, s[b]);
    assert(s1.len() == s.len());
    vstd::seq_lib::to_multiset_update(s1, b, s[a]);
    assert(s1[b] == s[b]);
    let m = s.to_multiset();
    assert(m.count(s[a]) > 0);
    assert(m.count(s[b]) > 0);
    assert(swapped(s, a, b).to_multiset() =~= m);
}

/// Writing `v` at a valid position `pos` (what `set` does) leaves `v` there for
/// `get` to read, and keeps the length.
pub proof fn law_get_after_set<T>(s: Seq<T>, pos: usize, v: T)
    requires
        pos < s.len(),
    ensures
        s.update(pos as int, v)[pos as int] == v,
        s.update(pos as int, v).len() == s.len(),
        forall|i: int| 0 <= i < s.len() && i != pos ==> s.update(pos as int, v)[i] == s[i],
{
}

/// Inserting `v` at a valid position `pos` (what `insert` does) leaves `v` there,
/// adds one to the length, keeps the elements before `pos`, and moves each
/// element from `pos` on one place later.
pub proof fn law_insert_shifts<T>(s: Seq<T>, pos: usize, v: T)
    requires
        pos <= s.len(),
    ensures
        s.insert(pos as int, v)[pos as int] == v,
        s.insert(pos as int, v).len() == s.len() + 1,
        forall|i: int| 0 <= i < pos ==> s.insert(pos as int, v)[i] == s[i],
        forall|i: int| pos <= i < s.len() ==> s.insert(pos as int, v)[i + 1] == s[i],
{
}

/// Removing at a valid position `pos` (what `remove` does) hands back the
/// element that was there, takes one from the length, keeps the elements before
/// `pos`, and moves each element after `pos` one place earlier.
pub proof fn law_remove_shifts<T>(s: Seq<T>, pos: usize)
    requires
        pos < s.len(),
    ensures
        s.remove(pos as int).len() == s.len() - 1,
        forall|i: int| 0 <= i < pos ==> s.remove(pos as int)[i] == s[i],
        forall|i: int| pos < i < s.len() ==> s.remove(pos as int)[i - 1] == s[i],
{
}

/// Swapping the same two valid positions twice gives back the original list.
pub proof fn law_swap_twice<T>(s: Seq<T>, a: usize, b: usize)
    requires
        a < s.len(),
        b < s.len(),
    ensures
        swapped(swapped(s, a as int, b as int), a as int, b as int) == s,
{
    assert(swapped(swapped(s, a as int, b as int), a as int, b as int) =~= s);
}

/// An ordered, index-addressable, growable collection, viewed as the sequence
/// of its elements. Every positional operation is bounds-checked and reports
/// `ListError::OutOfBounds` instead of failing.
pub trait List<T: PartialEq>: Sized + View<V = Seq<T>> {
    fn new() -> (r: Self)
        ensures
            r@ == Seq::<T>::empty(),
    ;

    fn get(&self, pos: usize) -> (r: Result<&T, ListError>)
        ensures
            pos < self@.len() ==> r == Ok::<&T, ListError>(&self@[pos as int]),
            pos >= self@.len() ==> r == Err::<&T, ListError>(ListError::OutOfBounds),
    ;

    fn get_mut(&mut self, pos: usize) -> (r: Result<&mut T, ListError>)
        ensures
            pos < old(self)@.len() ==> {
                &&& r is Ok
                &&& *r->Ok_0 == old(self)@[pos as int]
                &&& final(self)@ == old(self)@.update(pos as int, *final(r->Ok_0))
            },
            pos >= old(self)@.len() ==> {
                &&& r is Err
                &&& r->Err_0 == ListError::OutOfBounds
                &&& final(self)@ == old(self)@
            },
    ;

    fn set(&mut self, pos: usize, elem: T) -> (r: Result<(), ListError>)
        ensures
            pos < old(self)@.len() ==> r == Ok::<(), ListError>(())
                && final(self)@ == old(self)@.update(pos as int, elem),
            pos >= old(self)@.len() ==> r == Err::<(), ListError>(ListError::OutOfBounds)
                && final(self)@ == old(self)@,
    ;

    fn insert(&mut self, pos: usize, elem: T) -> (r: Result<(), ListError>)
        ensures
            pos <= old(self)@.len() ==> r == Ok::<(), ListError>(())
                && final(self)@ == old(self)@.insert(pos as int, elem),
            pos > old(self)@.len() ==> r == Err::<(), ListError>(ListError::OutOfBounds)
                && final(self)@ == old(self)@,
    ;

    fn remove(&mut self, pos: usize) -> (r: Result<T, ListError>)
        ensures
            pos < old(self)@.len() ==> r == Ok::<T, ListError>(old(self)@[pos as int])
                && final(self)@ == old(self)@.remove(pos as int),
            pos >= old(self)@.len() ==> r == Err::<T, ListError>(ListError::OutOfBounds)
                && final(self)@ == old(self)@,
    ;

    fn length(&self) -> (r: Result<usize, ListError>)
        ensures
            r == Ok::<usize, ListError>(self@.len() as usize),
            self@.len() <= usize::MAX,
    ;

    fn append(&mut self, elem: T) -> (r: Result<(), ListError>)
        ensures
            r == Ok::<(), ListError>(()),
            final(self)@ == old(self)@.push(elem),
    ;

    fn swap(&mut self, a: usize, b: usize) -> (r: Result<(), ListError>)
        ensures
            a < old(self)@.len() && b < old(self)@.len() ==> r == Ok::<(), ListError>(())
                && final(self)@ == swapped(old(self)@, a as int, b as int),
            a >= old(self)@.len() || b >= old(self)@.len() ==> r == Err::<(), ListError>(
                ListError::OutOfBounds,
            ) && final(self)@ == old(self)@,
    ;

    fn contains(&self, elem: T) -> (r: Result<bool, ListError>)
        requires
            T::obeys_eq_spec(),
        ensures
            r == Ok::<bool, ListError>(
                exists|i: int| 0 <= i < self@.len() && matches_at(self@, i, elem),
            ),
    ;

    fn find_all(&self, elem: T) -> (r: Result<Option<Vec<usize>>, ListError>)
        requires
            T::obeys_eq_spec(),
        ensures
            r is Ok && r->Ok_0 is Some,
            positions_of(self@, elem, r->Ok_0->Some_0@),
    ;

    fn find(&self, elem: T) -> (r: Result<Option<usize>, ListError>)
        requires
            T::obeys_eq_spec(),
        ensures
            r is Ok,
            match r->Ok_0 {
                Some(i) => i < self@.len() && matches_at(self@, i as int, elem) && forall|j: int|
                    0 <= j < i ==> !matches_at(self@, j, elem),
                None => forall|j: int| 0 <= j < self@.len() ==> !matches_at(self@, j, elem),
            },
    ;

    fn count(&self, elem: T) -> (r: Result<usize, ListError>)
        requires
            T::obeys_eq_spec(),
        ensures
            r is Ok,
            r->Ok_0 == occurrences(self@, elem),
    ;

    fn clear(&mut self) -> (r: Result<(), ListError>)
        ensures
            r == Ok::<(), ListError>(()),
            final(self)@ == Seq::<T>::empty(),
    ;
}

} // verus!
