use vstd::prelude::*;

use vstd::std_specs::cmp::PartialEqSpec;

use crate::list::{lemma_swapped_multiset, matches_at, swapped};
use crate::order::{Comparator, NaturalOrder};
use crate::priority_queue::{is_greatest, PriorityQueue, PriorityQueueError};

verus! {

/// Exchanges the elements at `i` and `j` in place.
fn swap_slots<T>(v: &mut Vec<T>, i: usize, j: usize)
    requires
        i < j < old(v)@.len(),
    ensures
        final(v)@ == swapped(old(v)@, i as int, j as int),
{
    let s = v.as_mut_slice();
    let (lo, hi) = s.split_at_mut(j);
    core::mem::swap(&mut lo[i], &mut hi[0]);
    proof {
        assert(v@ =~= swapped(old(v)@, i as int, j as int));
    }
}

/// Position of the parent of position `i` in a binary heap laid out in an array.
pub open spec fn parent(i: int) -> int {
    (i - 1) / 2
}

/// No element of `s` ranks above its parent under `cmp`.
pub open spec fn heap_ordered<T, C: Comparator<T>>(cmp: C, s: Seq<T>) -> bool {
    forall|i: int| 0 < i < s.len() ==> #[trigger] cmp.orders(s[i], s[parent(i)])
}

/// Heap order holds for every element but the one at `k`, and the children of
/// `k` rank no higher than the parent of `k`: the state while an element
/// climbs from `k` towards the root.
spec fn ordered_but_at<T, C: Comparator<T>>(cmp: C, s: Seq<T>, k: int) -> bool {
    &&& forall|i: int| 0 < i < s.len() && i != k ==> #[trigger] cmp.orders(s[i], s[parent(i)])
    &&& k > 0 ==> forall|c: int|
        0 < c < s.len() && parent(c) == k ==> #[trigger] cmp.orders(s[c], s[parent(k)])
}

/// Heap order holds for every element but the children of `k`, and those rank
/// no higher than the parent of `k`: the state while an element sinks from `k`
/// away from the root.
spec fn ordered_but_below<T, C: Comparator<T>>(cmp: C, s: Seq<T>, k: int) -> bool {
    &&& forall|i: int|
        0 < i < s.len() && parent(i) != k ==> #[trigger] cmp.orders(s[i], s[parent(i)])
    &&& k > 0 ==> forall|c: int|
        0 < c < s.len() && parent(c) == k ==> #[trigger] cmp.orders(s[c], s[parent(k)])
}

/// In a heap-ordered sequence every element ranks at most as high as the first.
pub proof fn lemma_first_is_greatest<T, C: Comparator<T>>(cmp: C, s: Seq<T>)
    requires
        heap_ordered(cmp, s),
        s.len() > 0,
    ensures
        is_greatest(s, s[0], |a: T, b: T| cmp.orders(a, b)),
{
    assert forall|i: int| 0 <= i < s.len() implies #[trigger] cmp.orders(s[i], s[0]) by {
        lemma_at_most_first(cmp, s, i);
    }
    assert(s.contains(s[0]));
}

proof fn lemma_at_most_first<T, C: Comparator<T>>(cmp: C, s: Seq<T>, i: int)
    requires
        heap_ordered(cmp, s),
        0 <= i < s.len(),
    ensures
        cmp.orders(s[i], s[0]),
    decreases i,
{
    if i == 0 {
        cmp.lemma_total(s[0], s[0]);
    } else {
        lemma_at_most_first(cmp, s, parent(i));
        cmp.lemma_transitive(s[i], s[parent(i)], s[0]);
    }
}

/// A priority queue stored as a binary max-heap in a vector, ranked by the
/// comparator `C`: the element at position `i > 0` ranks no higher than the one
/// at `(i - 1) / 2`. By default elements are ranked by their natural order.
#[derive(Clone, Debug)]
pub struct Heap<T, C = NaturalOrder> {
    elems: Vec<T>,
    cmp: C,
}

impl<T, C> View for Heap<T, C> {
    type V = Seq<T>;

    closed spec fn view(&self) -> Seq<T> {
        self.elems@
    }
}

impl<T, C: Comparator<T>> Heap<T, C> {
    /// The comparator that ranks the elements.
    pub closed spec fn comparator(&self) -> C {
        self.cmp
    }

    /// An empty queue that ranks its elements by `cmp`.
    pub fn with_comparator(cmp: C) -> (r: Heap<T, C>)
        ensures
            r@ == Seq::<T>::empty(),
            r.comparator() == cmp,
    {
        Heap { elems: Vec::new(), cmp }
    }

    /// Moves the element at `k` towards the root until its parent ranks at
    /// least as high.
    fn sift_up(&mut self, k: usize)
        requires
            k < old(self).elems@.len(),
            ordered_but_at(old(self).cmp, old(self).elems@, k as int),
        ensures
            heap_ordered(final(self).cmp, final(self).elems@),
            final(self).cmp == old(self).cmp,
            final(self).elems@.to_multiset() == old(self).elems@.to_multiset(),
            final(self).elems@.len() == old(self).elems@.len(),
    {
        let ghost n = self.elems@.len();
        let mut k: usize = k;
        while k > 0
            invariant
                k < n,
                self.elems@.len() == n,
                old(self).elems@.len() == n,
                self.cmp == old(self).cmp,
                self.elems@.to_multiset() == old(self).elems@.to_multiset(),
                ordered_but_at(self.cmp, self.elems@, k as int),
            decreases k,
        {
            let ghost cmp = self.cmp;
            let ghost s = self.elems@;
            let p: usize = (k - 1) / 2;
            if self.cmp.in_order(&self.elems[k], &self.elems[p]) {
                proof {
                    assert forall|i: int| 0 < i < n implies #[trigger] cmp.orders(s[i], s[parent(i)]) by {
                        if i == k {
                            assert(parent(i) == p);
                        }
                    }
                }
                return;
            }
            proof {
                cmp.lemma_total(s[k as int], s[p as int]);
            }
            swap_slots(&mut self.elems, p, k);
            proof {
                lemma_swapped_multiset(s, p as int, k as int);
                let t = self.elems@;
                assert forall|i: int| 0 < i < n && i != p implies #[trigger] cmp.orders(
                    t[i],
                    t[parent(i)],
                ) by {
                    if i == k {
                        assert(parent(i) == p);
                        assert(t[i] == s[p as int] && t[p as int] == s[k as int]);
                    } else if parent(i) == k {
                        assert(t[i] == s[i] && t[k as int] == s[p as int]);
                        assert(cmp.orders(s[i], s[parent(k as int)]));
                    } else if parent(i) == p {
                        assert(cmp.orders(s[i], s[parent(i)]));
                        cmp.lemma_transitive(s[i], s[p as int], s[k as int]);
                    } else {
                        assert(cmp.orders(s[i], s[parent(i)]));
                    }
                }
                if p > 0 {
                    assert forall|c: int| 0 < c < n && parent(c) == p implies #[trigger] cmp.orders(
                        t[c],
                        t[parent(p as int)],
                    ) by {
                        assert(cmp.orders(s[p as int], s[parent(p as int)]));
                        if c != k {
                            assert(cmp.orders(s[c], s[parent(c)]));
                            cmp.lemma_transitive(s[c], s[p as int], s[parent(p as int)]);
                        }
                    }
                }
            }
            k = p;
        }
    }

    /// Moves the element at `k` away from the root, each time below its
    /// higher-ranking child, until no child ranks above it.
    fn sift_down(&mut self, k: usize)
        requires
            k < old(self).elems@.len(),
            ordered_but_below(old(self).cmp, old(self).elems@, k as int),
        ensures
            heap_ordered(final(self).cmp, final(self).elems@),
            final(self).cmp == old(self).cmp,
            final(self).elems@.to_multiset() == old(self).elems@.to_multiset(),
            final(self).elems@.len() == old(self).elems@.len(),
    {
        let n: usize = self.elems.len();
        let mut k: usize = k;
        while k < n / 2
            invariant
                k < n,
                self.elems@.len() == n,
                old(self).elems@.len() == n,
                self.cmp == old(self).cmp,
                self.elems@.to_multiset() == old(self).elems@.to_multiset(),
                ordered_but_below(self.cmp, self.elems@, k as int),
            decreases n - k,
        {
            let ghost cmp = self.cmp;
            let ghost s = self.elems@;
            let l: usize = 2 * k + 1;
            let r: usize = 2 * k + 2;
            let m: usize = if r < n && self.cmp.in_order(&self.elems[l], &self.elems[r]) {
                r
            } else {
                l
            };
            proof {
                if r < n {
                    cmp.lemma_total(s[l as int], s[r as int]);
                }
                assert(parent(l as int) == k && parent(r as int) == k);
            }
            if self.cmp.in_order(&self.elems[m], &self.elems[k]) {
                proof {
                    assert forall|i: int| 0 < i < n implies #[trigger] cmp.orders(s[i], s[parent(i)]) by {
                        if parent(i) == k && i != m {
                            assert(i == l || i == r);
                            cmp.lemma_transitive(s[i], s[m as int], s[k as int]);
                        } else if parent(i) != k {
                            assert(cmp.orders(s[i], s[parent(i)]));
                        }
                    }
                }
                return;
            }
            proof {
                cmp.lemma_total(s[m as int], s[k as int]);
            }
            swap_slots(&mut self.elems, k, m);
            proof {
                lemma_swapped_multiset(s, k as int, m as int);
                let t = self.elems@;
                assert forall|i: int| 0 < i < n && parent(i) != m implies #[trigger] cmp.orders(
                    t[i],
                    t[parent(i)],
                ) by {
                    if i == m {
                        assert(t[i] == s[k as int] && t[k as int] == s[m as int]);
                    } else if parent(i) == k {
                        assert(i == l || i == r);
                        assert(t[i] == s[i] && t[k as int] == s[m as int]);
                    } else if i == k {
                        assert(t[i] == s[m as int] && t[parent(i)] == s[parent(i)]);
                        assert(cmp.orders(s[m as int], s[parent(k as int)]));
                    } else {
                        assert(t[i] == s[i] && t[parent(i)] == s[parent(i)]);
                        assert(cmp.orders(s[i], s[parent(i)]));
                    }
                }
                assert forall|c: int| 0 < c < n && parent(c) == m implies #[trigger] cmp.orders(
                    t[c],
                    t[parent(m as int)],
                ) by {
                    assert(c != k && c != m);
                    assert(t[c] == s[c] && t[m as int] == s[k as int]);
                    assert(cmp.orders(s[c], s[parent(c)]));
                }
            }
            k = m;
        }
        proof {
            let cmp = self.cmp;
            let s = self.elems@;
            assert forall|i: int| 0 < i < n implies #[trigger] cmp.orders(s[i], s[parent(i)]) by {
                // `k` has no children: its first one would stand at `2 * k + 1 >= n`
                assert(parent(i) != k);
            }
        }
    }
}

impl<T: PartialEq, C> PartialEq for Heap<T, C> {
    fn eq(&self, other: &Self) -> (r: bool) {
        if self.elems.len() != other.elems.len() {
            return false;
        }
        let mut i: usize = 0;
        while i < self.elems.len()
            invariant
                self.elems@.len() == other.elems@.len(),
                i <= self.elems@.len(),
                T::obeys_eq_spec() ==> forall|k: int|
                    0 <= k < i ==> self.elems@[k].eq_spec(&other.elems@[k]),
            decreases self.elems@.len() - i,
        {
            if self.elems[i] != other.elems[i] {
                return false;
            }
            i += 1;
        }
        true
    }
}

impl<T: PartialEq, C> vstd::std_specs::cmp::PartialEqSpecImpl for Heap<T, C> {
    open spec fn obeys_eq_spec() -> bool {
        T::obeys_eq_spec()
    }

    /// Two heaps are equal when they hold equal elements in the same
    /// arrangement.
    open spec fn eq_spec(&self, other: &Heap<T, C>) -> bool {
        &&& self@.len() == other@.len()
        &&& forall|k: int| 0 <= k < self@.len() ==> self@[k].eq_spec(&other@[k])
    }
}

impl<T: PartialEq, C: Comparator<T> + Default> PriorityQueue<T> for Heap<T, C> {
    open spec fn well_formed(&self) -> bool {
        heap_ordered(self.comparator(), self@)
    }

    open spec fn order(&self) -> spec_fn(T, T) -> bool {
        |a: T, b: T| self.comparator().orders(a, b)
    }

    fn new() -> (r: Self) {
        Heap { elems: Vec::new(), cmp: C::default() }
    }

    fn push(&mut self, elem: T) -> (r: Result<(), PriorityQueueError>) {
        proof {
            broadcast use vstd::seq_lib::to_multiset_build;
        }
        self.elems.push(elem);
        let last: usize = self.elems.len() - 1;
        self.sift_up(last);
        Ok(())
    }

    fn pop(&mut self) -> (r: Result<T, PriorityQueueError>) {
        let n: usize = self.elems.len();
        if n == 0 {
            return Err(PriorityQueueError::OutOfBounds);
        }
        let ghost s = self.elems@;
        proof {
            lemma_first_is_greatest(self.cmp, s);
        }
        if n > 1 {
            swap_slots(&mut self.elems, 0, n - 1);
            proof {
                lemma_swapped_multiset(s, 0, n - 1);
            }
        }
        let ghost t = self.elems@;
        proof {
            assert(t[n - 1] == s[0]);
            vstd::seq_lib::to_multiset_remove(t, n - 1);
            assert(t.remove(n - 1) =~= t.drop_last());
        }
        let top: T = match self.elems.pop() {
            Some(e) => e,
            None => return Err(PriorityQueueError::OutOfBounds),
        };
        if n > 1 {
            proof {
                let u = self.elems@;
                assert forall|i: int| 0 < i < n - 1 && parent(i) != 0 implies #[trigger] self.cmp.orders(
                    u[i],
                    u[parent(i)],
                ) by {
                    assert(u[i] == s[i] && u[parent(i)] == s[parent(i)]);
                    assert(self.cmp.orders(s[i], s[parent(i)]));
                }
            }
            self.sift_down(0);
        }
        Ok(top)
    }

    fn peek(&self) -> (r: Result<&T, PriorityQueueError>) {
        if self.elems.len() == 0 {
            return Err(PriorityQueueError::OutOfBounds);
        }
        proof {
            lemma_first_is_greatest(self.cmp, self@);
        }
        Ok(&self.elems[0])
    }

    fn find(&self, elem: T) -> (r: Result<Option<usize>, PriorityQueueError>) {
        let mut i: usize = 0;
        while i < self.elems.len()
            invariant
                T::obeys_eq_spec(),
                i <= self.elems@.len(),
                forall|k: int| 0 <= k < i ==> !matches_at(self@, k, elem),
            decreases self.elems@.len() - i,
        {
            if self.elems[i] == elem {
                return Ok(Some(i));
            }
            i += 1;
        }
        Ok(None)
    }

    fn length(&self) -> (r: Result<usize, PriorityQueueError>) {
        Ok(self.elems.len())
    }
}

} // verus!
