//! Value semantics shared by the library's data types.

use vstd::prelude::*;

verus! {

/// A type whose values can be compared by content and copied exactly.
///
/// `same` is the equality that `==` computes on the type (field by field,
/// texts by their characters); `snapshot` produces a value that is
/// identical to the original.
pub trait Snapshot: Sized {
    /// `self` and `other` hold the same data.
    spec fn same(&self, other: &Self) -> bool;

    /// The value holds no not-a-number reading. (Such a reading differs
    /// from every value, itself included, as IEEE 754 says.)
    spec fn no_nan(&self) -> bool;

    /// A value without a not-a-number reading holds the same data as itself.
    proof fn lemma_same_reflexive(&self)
        requires
            self.no_nan(),
        ensures
            self.same(self),
    ;

    /// Compares two values by content.
    fn same_as(&self, other: &Self) -> (r: bool)
        ensures
            r == self.same(other),
    ;

    /// An identical copy.
    fn snapshot(&self) -> (r: Self)
        ensures
            r == *self,
    ;
}

impl Snapshot for u8 {
    open spec fn same(&self, other: &Self) -> bool {
        *self == *other
    }

    open spec fn no_nan(&self) -> bool {
        true
    }

    proof fn lemma_same_reflexive(&self) {
    }

    fn same_as(&self, other: &Self) -> (r: bool) {
        *self == *other
    }

    fn snapshot(&self) -> (r: Self) {
        *self
    }
}

impl Snapshot for u32 {
    open spec fn same(&self, other: &Self) -> bool {
        *self == *other
    }

    open spec fn no_nan(&self) -> bool {
        true
    }

    proof fn lemma_same_reflexive(&self) {
    }

    fn same_as(&self, other: &Self) -> (r: bool) {
        *self == *other
    }

    fn snapshot(&self) -> (r: Self) {
        *self
    }
}

impl Snapshot for u64 {
    open spec fn same(&self, other: &Self) -> bool {
        *self == *other
    }

    open spec fn no_nan(&self) -> bool {
        true
    }

    proof fn lemma_same_reflexive(&self) {
    }

    fn same_as(&self, other: &Self) -> (r: bool) {
        *self == *other
    }

    fn snapshot(&self) -> (r: Self) {
        *self
    }
}

impl Snapshot for i32 {
    open spec fn same(&self, other: &Self) -> bool {
        *self == *other
    }

    open spec fn no_nan(&self) -> bool {
        true
    }

    proof fn lemma_same_reflexive(&self) {
    }

    fn same_as(&self, other: &Self) -> (r: bool) {
        *self == *other
    }

    fn snapshot(&self) -> (r: Self) {
        *self
    }
}

impl Snapshot for bool {
    open spec fn same(&self, other: &Self) -> bool {
        *self == *other
    }

    open spec fn no_nan(&self) -> bool {
        true
    }

    proof fn lemma_same_reflexive(&self) {
    }

    fn same_as(&self, other: &Self) -> (r: bool) {
        *self == *other
    }

    fn snapshot(&self) -> (r: Self) {
        *self
    }
}

impl Snapshot for String {
    open spec fn same(&self, other: &Self) -> bool {
        self@ == other@
    }

    open spec fn no_nan(&self) -> bool {
        true
    }

    proof fn lemma_same_reflexive(&self) {
    }

    fn same_as(&self, other: &Self) -> (r: bool) {
        *self == *other
    }

    fn snapshot(&self) -> (r: Self) {
        self.clone()
    }
}

impl<T: Snapshot> Snapshot for Option<T> {
    open spec fn same(&self, other: &Self) -> bool {
        match (self, other) {
            (Some(a), Some(b)) => a.same(b),
            (None, None) => true,
            _ => false,
        }
    }

    open spec fn no_nan(&self) -> bool {
        match self {
            Some(a) => a.no_nan(),
            None => true,
        }
    }

    proof fn lemma_same_reflexive(&self) {
        if let Some(a) = self {
            a.lemma_same_reflexive();
        }
    }

    fn same_as(&self, other: &Self) -> (r: bool) {
        match (self, other) {
            (Some(a), Some(b)) => a.same_as(b),
            (None, None) => true,
            _ => false,
        }
    }

    fn snapshot(&self) -> (r: Self) {
        match self {
            Some(a) => Some(a.snapshot()),
            None => None,
        }
    }
}

} // verus!
