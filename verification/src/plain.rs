//! Values that are compared and copied by what they hold.

use vstd::prelude::*;
use crate::strmap::StrMap;

verus! {

/// A value that is compared and copied by its contents.
pub trait Plain: DeepView + Sized {
    /// Whether both values have the same contents.
    fn equals(&self, other: &Self) -> (same: bool)
        ensures
            same == (self.deep_view() == other.deep_view()),
    ;

    /// A value with the same contents.
    fn copy_of(&self) -> (out: Self)
        ensures
            out.deep_view() == self.deep_view(),
    ;
}

impl Plain for String {
    fn equals(&self, other: &Self) -> (same: bool) {
        *self == *other
    }

    fn copy_of(&self) -> (out: Self) {
        self.clone()
    }
}

impl Plain for StrMap {
    fn equals(&self, other: &Self) -> (same: bool) {
        self.same_as(other)
    }

    fn copy_of(&self) -> (out: Self) {
        self.clone()
    }
}

impl Plain for bool {
    fn equals(&self, other: &Self) -> (same: bool) {
        *self == *other
    }

    fn copy_of(&self) -> (out: Self) {
        *self
    }
}

impl Plain for u32 {
    fn equals(&self, other: &Self) -> (same: bool) {
        *self == *other
    }

    fn copy_of(&self) -> (out: Self) {
        *self
    }
}

impl Plain for u64 {
    fn equals(&self, other: &Self) -> (same: bool) {
        *self == *other
    }

    fn copy_of(&self) -> (out: Self) {
        *self
    }
}

impl Plain for u128 {
    fn equals(&self, other: &Self) -> (same: bool) {
        *self == *other
    }

    fn copy_of(&self) -> (out: Self) {
        *self
    }
}

impl Plain for i32 {
    fn equals(&self, other: &Self) -> (same: bool) {
        *self == *other
    }

    fn copy_of(&self) -> (out: Self) {
        *self
    }
}

impl Plain for i64 {
    fn equals(&self, other: &Self) -> (same: bool) {
        *self == *other
    }

    fn copy_of(&self) -> (out: Self) {
        *self
    }
}

impl<T: Plain> Plain for Option<T> {
    fn equals(&self, other: &Self) -> (same: bool) {
        match (self, other) {
            (None, None) => true,
            (Some(a), Some(b)) => a.equals(b),
            _ => false,
        }
    }

    fn copy_of(&self) -> (out: Self) {
        match self {
            None => None,
            Some(a) => Some(a.copy_of()),
        }
    }
}

impl<T: Plain> Plain for Vec<T> {
    fn equals(&self, other: &Self) -> (same: bool) {
        if self.len() != other.len() {
            return false;
        }
        let mut i: usize = 0;
        while i < self.len()
            invariant
                i <= self@.len(),
                self@.len() == other@.len(),
                forall|j: int| 0 <= j < i ==> (#[trigger] self@[j]).deep_view() == other@[j].deep_view(),
            decreases self@.len() - i,
        {
            if !self[i].equals(&other[i]) {
                proof {
                    assert(self.deep_view()[i as int] != other.deep_view()[i as int]);
                }
                return false;
            }
            i = i + 1;
        }
        proof {
            assert(self.deep_view() =~= other.deep_view());
        }
        true
    }

    fn copy_of(&self) -> (out: Self) {
        let mut out: Vec<T> = Vec::new();
        let mut i: usize = 0;
        while i < self.len()
            invariant
                i <= self@.len(),
                out@.len() == i,
                forall|j: int| 0 <= j < i ==> (#[trigger] out@[j]).deep_view() == self@[j].deep_view(),
            decreases self@.len() - i,
        {
            out.push(self[i].copy_of());
            i = i + 1;
        }
        proof {
            assert(out.deep_view() =~= self.deep_view());
        }
        out
    }
}

} // verus!
