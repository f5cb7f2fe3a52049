//! Equality by value, and facts about the values of growing vectors.
use vstd::prelude::*;

verus! {

/// Types that can be told apart by the value their deep view stands for.
pub trait DeepEq: DeepView {
    /// Whether both sides stand for the same value.
    fn deep_eq(&self, other: &Self) -> (r: bool)
        ensures
            r == (self.deep_view() == other.deep_view()),
    ;
}

/// The values on either side of a result.
pub open spec fn result_view<T: DeepView, E: DeepView>(r: Result<T, E>) -> Result<T::V, E::V> {
    match r {
        Ok(value) => Ok(value.deep_view()),
        Err(error) => Err(error.deep_view()),
    }
}

impl DeepEq for bool {
    fn deep_eq(&self, other: &bool) -> (r: bool) {
        *self == *other
    }
}

impl DeepEq for u64 {
    fn deep_eq(&self, other: &u64) -> (r: bool) {
        *self == *other
    }
}

impl DeepEq for u128 {
    fn deep_eq(&self, other: &u128) -> (r: bool) {
        *self == *other
    }
}

impl DeepEq for i128 {
    fn deep_eq(&self, other: &i128) -> (r: bool) {
        *self == *other
    }
}

impl DeepEq for usize {
    fn deep_eq(&self, other: &usize) -> (r: bool) {
        *self == *other
    }
}

impl DeepEq for String {
    fn deep_eq(&self, other: &String) -> (r: bool) {
        *self == *other
    }
}

impl<T: DeepEq> DeepEq for Option<T> {
    fn deep_eq(&self, other: &Option<T>) -> (r: bool) {
        match (self, other) {
            (Some(x), Some(y)) => x.deep_eq(y),
            (None, None) => true,
            _ => false,
        }
    }
}

impl<T: DeepEq> DeepEq for Vec<T> {
    fn deep_eq(&self, other: &Vec<T>) -> (r: bool) {
        if self.len() != other.len() {
            assert(self.deep_view().len() != other.deep_view().len());
            return false;
        }
        let mut i: usize = 0;
        while i < self.len()
            invariant
                i <= self.len() == other.len(),
                forall|k: int| 0 <= k < i ==> self.deep_view()[k] == other.deep_view()[k],
            decreases self.len() - i,
        {
            if !self[i].deep_eq(&other[i]) {
                assert(self.deep_view()[i as int] != other.deep_view()[i as int]);
                return false;
            }
            i += 1;
        }
        assert(self.deep_view() =~= other.deep_view());
        true
    }
}

impl<A: DeepEq, B: DeepEq> DeepEq for (A, B) {
    fn deep_eq(&self, other: &(A, B)) -> (r: bool) {
        self.0.deep_eq(&other.0) && self.1.deep_eq(&other.1)
    }
}

} // verus!
