use vstd::prelude::*;

use crate::list::{lemma_swapped_multiset, swapped, List, ListError};
use crate::order::{is_order_of, sorted_by};

verus! {

/// Sorts `list` in place, ascending under `cmp`, with no operation but those of
/// `List`. For each position `i` it scans the positions after `i` from the end
/// back and brings forward, by `swap`, every element that `cmp` puts before the
/// one at `i`.
///
/// The result is sorted under every total order that `cmp` decides, and holds
/// the same elements as before.
pub fn bubblesort<L, T, F>(list: &mut L, cmp: F) -> (r: Result<(), ListError>) where
    L: List<T>,
    T: PartialEq,
    F: Fn(&T, &T) -> bool,

    requires
        forall|a: &T, b: &T| #[trigger] cmp.requires((a, b)),
    ensures
        r == Ok::<(), ListError>(()),
        final(list)@.len() == old(list)@.len(),
        forall|leq: spec_fn(T, T) -> bool| #[trigger]
            is_order_of(cmp, leq) ==> sorted_by(leq, final(list)@),
        final(list)@.to_multiset() == old(list)@.to_multiset(),
{
    let n: usize = match list.length() {
        Ok(n) => n,
        Err(e) => return Err(e),
    };
    if n <= 1 {
        return Ok(());
    }
    let ghost s0 = list@;
    let mut i: usize = 0;
    while i < n
        invariant
            forall|a: &T, b: &T| #[trigger] cmp.requires((a, b)),
            list@.len() == n,
            list@.to_multiset() == s0.to_multiset(),
            s0 == old(list)@,
            i <= n,
            forall|leq: spec_fn(T, T) -> bool| #[trigger]
                is_order_of(cmp, leq) ==> forall|p: int, q: int|
                    0 <= p < i && p < q < n ==> #[trigger] leq(list@[p], list@[q]),
        decreases n - i,
    {
        let mut j: usize = n - 1;
        while j > i
            invariant
                forall|a: &T, b: &T| #[trigger] cmp.requires((a, b)),
                list@.len() == n,
                list@.to_multiset() == s0.to_multiset(),
                i < n,
                i <= j < n,
                forall|leq: spec_fn(T, T) -> bool| #[trigger]
                    is_order_of(cmp, leq) ==> {
                        &&& forall|p: int, q: int|
                            0 <= p < i && p < q < n ==> #[trigger] leq(list@[p], list@[q])
                        &&& forall|q: int| j < q < n ==> #[trigger] leq(list@[i as int], list@[q])
                    },
            decreases j - i,
        {
            let ghost s = list@;
            let later: &T = match list.get(j) {
                Ok(e) => e,
                Err(e) => return Err(e),
            };
            let first: &T = match list.get(i) {
                Ok(e) => e,
                Err(e) => return Err(e),
            };
            let before: bool = cmp(later, first);
            if before {
                match list.swap(i, j) {
                    Ok(()) => {},
                    Err(e) => return Err(e),
                }
                proof {
                    lemma_swapped_multiset(s, i as int, j as int);
                    let t = list@;
                    assert(t == swapped(s, i as int, j as int));
                    assert forall|leq: spec_fn(T, T) -> bool| #[trigger]
                        is_order_of(cmp, leq) implies {
                        &&& forall|p: int, q: int|
                            0 <= p < i && p < q < n ==> #[trigger] leq(t[p], t[q])
                        &&& forall|q: int| j - 1 < q < n ==> #[trigger] leq(t[i as int], t[q])
                    } by {
                        assert(leq(s[j as int], s[i as int]));
                        assert forall|p: int, q: int|
                            0 <= p < i && p < q < n implies #[trigger] leq(t[p], t[q]) by {
                            if q == j {
                                assert(leq(s[p], s[i as int]));
                            } else if q == i {
                                assert(leq(s[p], s[j as int]));
                            } else {
                                assert(leq(s[p], s[q]));
                            }
                        }
                        assert forall|q: int| j - 1 < q < n implies #[trigger] leq(
                            t[i as int],
                            t[q],
                        ) by {
                            if q > j {
                                assert(leq(s[i as int], s[q]));
                                assert(leq(s[j as int], s[q]));
                            } else {
                                assert(leq(s[j as int], s[i as int]));
                            }
                        }
                    }
                }
            } else {
                proof {
                    assert forall|leq: spec_fn(T, T) -> bool| #[trigger]
                        is_order_of(cmp, leq) implies forall|q: int|
                        j - 1 < q < n ==> #[trigger] leq(s[i as int], s[q]) by {
                        assert(!leq(s[j as int], s[i as int]));
                        assert(leq(s[i as int], s[j as int]));
                    }
                }
            }
            j -= 1;
        }
        proof {
            let t = list@;
            assert forall|leq: spec_fn(T, T) -> bool| #[trigger]
                is_order_of(cmp, leq) implies forall|p: int, q: int|
                0 <= p < i + 1 && p < q < n ==> #[trigger] leq(t[p], t[q]) by {
                assert forall|p: int, q: int| 0 <= p < i + 1 && p < q < n implies #[trigger] leq(
                    t[p],
                    t[q],
                ) by {
                    if p == i {
                        assert(leq(t[i as int], t[q]));
                    }
                }
            }
        }
        i += 1;
    }
    proof {
        let t = list@;
        assert forall|leq: spec_fn(T, T) -> bool| #[trigger]
            is_order_of(cmp, leq) implies sorted_by(leq, t) by {
            assert forall|k: int| 0 <= k < t.len() - 1 implies #[trigger] leq(t[k], t[k + 1]) by {
                assert(leq(t[k], t[k + 1]));
            }
        }
    }
    Ok(())
}

} // verus!
