use vstd::prelude::*;

verus! {

/// Whatever `cmp(&a, &b)` returns is `leq(a, b)`.
pub open spec fn decides<T, F: Fn(&T, &T) -> bool>(cmp: F, leq: spec_fn(T, T) -> bool) -> bool {
    forall|a: T, b: T, r: bool| #[trigger] cmp.ensures((&a, &b), r) ==> r == leq(a, b)
}

/// `leq` is total and transitive. Every total order (`<=` on integers, for
/// one) qualifies.
pub open spec fn is_total_preorder<T>(leq: spec_fn(T, T) -> bool) -> bool {
    &&& forall|a: T, b: T| #[trigger] leq(a, b) || #[trigger] leq(b, a)
    &&& forall|a: T, b: T, c: T| #[trigger] leq(a, b) && #[trigger] leq(b, c) ==> leq(a, c)
}

/// `cmp` decides `leq`, a total preorder.
pub open spec fn is_order_of<T, F: Fn(&T, &T) -> bool>(cmp: F, leq: spec_fn(T, T) -> bool) -> bool {
    decides(cmp, leq) && is_total_preorder(leq)
}

/// Every element of `s` stands in relation `leq` to the next one.
pub open spec fn sorted_by<T>(leq: spec_fn(T, T) -> bool, s: Seq<T>) -> bool {
    forall|i: int| 0 <= i < s.len() - 1 ==> #[trigger] leq(s[i], s[i + 1])
}

/// A total order on a type, decided by `is_at_most`: the natural ordering of
/// its values.
pub trait TotalOrder: Sized {
    /// `self` ranks no higher than `other`.
    spec fn at_most(self, other: Self) -> bool;

    proof fn lemma_total(a: Self, b: Self)
        ensures
            a.at_most(b) || b.at_most(a),
    ;

    proof fn lemma_transitive(a: Self, b: Self, c: Self)
        requires
            a.at_most(b),
            b.at_most(c),
        ensures
            a.at_most(c),
    ;

    fn is_at_most(&self, other: &Self) -> (r: bool)
        ensures
            r == self.at_most(*other),
    ;
}

/// A total order on `T` held in a value, so that a container can be told at
/// construction how to rank its elements.
pub trait Comparator<T>: Sized {
    /// Under this order `a` ranks no higher than `b`.
    spec fn orders(&self, a: T, b: T) -> bool;

    proof fn lemma_total(&self, a: T, b: T)
        ensures
            self.orders(a, b) || self.orders(b, a),
    ;

    proof fn lemma_transitive(&self, a: T, b: T, c: T)
        requires
            self.orders(a, b),
            self.orders(b, c),
        ensures
            self.orders(a, c),
    ;

    fn in_order(&self, a: &T, b: &T) -> (r: bool)
        ensures
            r == self.orders(*a, *b),
    ;
}

/// Ranks elements by their natural order (`TotalOrder`): the greatest first.
#[derive(Copy, Clone, Debug, PartialEq, Eq, Structural)]
pub struct NaturalOrder;

/// Ranks elements by the reverse of their natural order: the least first.
#[derive(Copy, Clone, Debug, PartialEq, Eq, Structural)]
pub struct ReverseOrder;

impl Default for NaturalOrder {
    fn default() -> (r: NaturalOrder)
        ensures
            r == NaturalOrder,
    {
        NaturalOrder
    }
}

impl Default for ReverseOrder {
    fn default() -> (r: ReverseOrder)
        ensures
            r == ReverseOrder,
    {
        ReverseOrder
    }
}

impl<T: TotalOrder> Comparator<T> for NaturalOrder {
    open spec fn orders(&self, a: T, b: T) -> bool {
        a.at_most(b)
    }

    proof fn lemma_total(&self, a: T, b: T) {
        T::lemma_total(a, b);
    }

    proof fn lemma_transitive(&self, a: T, b: T, c: T) {
        T::lemma_transitive(a, b, c);
    }

    fn in_order(&self, a: &T, b: &T) -> (r: bool) {
        a.is_at_most(b)
    }
}

impl<T: TotalOrder> Comparator<T> for ReverseOrder {
    open spec fn orders(&self, a: T, b: T) -> bool {
        b.at_most(a)
    }

    proof fn lemma_total(&self, a: T, b: T) {
        T::lemma_total(b, a);
    }

    proof fn lemma_transitive(&self, a: T, b: T, c: T) {
        T::lemma_transitive(c, b, a);
    }

    fn in_order(&self, a: &T, b: &T) -> (r: bool) {
        b.is_at_most(a)
    }
}

impl TotalOrder for u8 {
    open spec fn at_most(self, other: Self) -> bool {
        self <= other
    }

    proof fn lemma_total(a: Self, b: Self) {
    }

    proof fn lemma_transitive(a: Self, b: Self, c: Self) {
    }

    fn is_at_most(&self, other: &Self) -> (r: bool) {
        *self <= *other
    }
}

impl TotalOrder for u16 {
    open spec fn at_most(self, other: Self) -> bool {
        self <= other
    }

    proof fn lemma_total(a: Self, b: Self) {
    }

    proof fn lemma_transitive(a: Self, b: Self, c: Self) {
    }

    fn is_at_most(&self, other: &Self) -> (r: bool) {
        *self <= *other
    }
}

impl TotalOrder for u32 {
    open spec fn at_most(self, other: Self) -> bool {
        self <= other
    }

    proof fn lemma_total(a: Self, b: Self) {
    }

    proof fn lemma_transitive(a: Self, b: Self, c: Self) {
    }

    fn is_at_most(&self, other: &Self) -> (r: bool) {
        *self <= *other
    }
}

impl TotalOrder for u64 {
    open spec fn at_most(self, other: Self) -> bool {
        self <= other
    }

    proof fn lemma_total(a: Self, b: Self) {
    }

    proof fn lemma_transitive(a: Self, b: Self, c: Self) {
    }

    fn is_at_most(&self, other: &Self) -> (r: bool) {
        *self <= *other
    }
}

impl TotalOrder for u128 {
    open spec fn at_most(self, other: Self) -> bool {
        self <= other
    }

    proof fn lemma_total(a: Self, b: Self) {
    }

    proof fn lemma_transitive(a: Self, b: Self, c: Self) {
    }

    fn is_at_most(&self, other: &Self) -> (r: bool) {
        *self <= *other
    }
}

impl TotalOrder for usize {
    open spec fn at_most(self, other: Self) -> bool {
        self <= other
    }

    proof fn lemma_total(a: Self, b: Self) {
    }

    proof fn lemma_transitive(a: Self, b: Self, c: Self) {
    }

    fn is_at_most(&self, other: &Self) -> (r: bool) {
        *self <= *other
    }
}

impl TotalOrder for i8 {
    open spec fn at_most(self, other: Self) -> bool {
        self <= other
    }

    proof fn lemma_total(a: Self, b: Self) {
    }

    proof fn lemma_transitive(a: Self, b: Self, c: Self) {
    }

    fn is_at_most(&self, other: &Self) -> (r: bool) {
        *self <= *other
    }
}

impl TotalOrder for i16 {
    open spec fn at_most(self, other: Self) -> bool {
        self <= other
    }

    proof fn lemma_total(a: Self, b: Self) {
    }

    proof fn lemma_transitive(a: Self, b: Self, c: Self) {
    }

    fn is_at_most(&self, other: &Self) -> (r: bool) {
        *self <= *other
    }
}

impl TotalOrder for i32 {
    open spec fn at_most(self, other: Self) -> bool {
        self <= other
    }

    proof fn lemma_total(a: Self, b: Self) {
    }

    proof fn lemma_transitive(a: Self, b: Self, c: Self) {
    }

    fn is_at_most(&self, other: &Self) -> (r: bool) {
        *self <= *other
    }
}

impl TotalOrder for i64 {
    open spec fn at_most(self, other: Self) -> bool {
        self <= other
    }

    proof fn lemma_total(a: Self, b: Self) {
    }

    proof fn lemma_transitive(a: Self, b: Self, c: Self) {
    }

    fn is_at_most(&self, other: &Self) -> (r: bool) {
        *self <= *other
    }
}

impl TotalOrder for i128 {
    open spec fn at_most(self, other: Self) -> bool {
        self <= other
    }

    proof fn lemma_total(a: Self, b: Self) {
    }

    proof fn lemma_transitive(a: Self, b: Self, c: Self) {
    }

    fn is_at_most(&self, other: &Self) -> (r: bool) {
        *self <= *other
    }
}

impl TotalOrder for isize {
    open spec fn at_most(self, other: Self) -> bool {
        self <= other
    }

    proof fn lemma_total(a: Self, b: Self) {
    }

    proof fn lemma_transitive(a: Self, b: Self, c: Self) {
    }

    fn is_at_most(&self, other: &Self) -> (r: bool) {
        *self <= *other
    }
}

} // verus!
