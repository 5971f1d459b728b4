//! Walking over the elements of a packed array, front to back.
//!
//! A walk is a cursor into an array. Its view is the sequence of elements that
//! are still to come; `next` hands out the first of them.

use vstd::prelude::*;
use crate::array::PackedIntegers;
use crate::model::in_range;
use crate::width::PackedInt;

verus! {

/// A walk over a borrowed array.
pub struct PackedIntegersIterator<'a, T: PackedInt> {
    vec: &'a PackedIntegers<T>,
    index: usize,
}

impl<'a, T: PackedInt> View for PackedIntegersIterator<'a, T> {
    type V = Seq<u32>;

    closed spec fn view(&self) -> Seq<u32> {
        self.vec@.skip(self.index as int)
    }
}

impl<'a, T: PackedInt> PackedIntegersIterator<'a, T> {
    /// The cursor never passes the end of the array.
    #[verifier::type_invariant]
    spec fn well_formed(self) -> bool {
        self.index <= self.vec@.len()
    }

    /// The number of elements already handed out.
    pub closed spec fn position(&self) -> nat {
        self.index as nat
    }

    /// Hands out the next element, or `None` once all have been handed out.
    pub fn next(&mut self) -> (value: Option<u32>)
        ensures
            value == if old(self)@.len() > 0 {
                Some(old(self)@[0])
            } else {
                None
            },
            final(self)@ == if old(self)@.len() > 0 {
                old(self)@.skip(1)
            } else {
                old(self)@
            },
            final(self).position() == if value is Some {
                old(self).position() + 1
            } else {
                old(self).position()
            },
            value matches Some(v) ==> in_range(T::width(), v),
    {
        proof {
            use_type_invariant(&*self);
        }
        let result = self.vec.get(self.index);
        if self.index < self.vec.len() {
            self.index += 1;
        }
        result
    }
}

/// A walk over an array that it owns.
pub struct PackedIntegersIntoIterator<T: PackedInt> {
    vec: PackedIntegers<T>,
    index: usize,
}

impl<T: PackedInt> View for PackedIntegersIntoIterator<T> {
    type V = Seq<u32>;

    closed spec fn view(&self) -> Seq<u32> {
        self.vec@.skip(self.index as int)
    }
}

impl<T: PackedInt> PackedIntegersIntoIterator<T> {
    /// The cursor never passes the end of the array.
    #[verifier::type_invariant]
    spec fn well_formed(self) -> bool {
        self.index <= self.vec@.len()
    }

    /// The number of elements already handed out.
    pub closed spec fn position(&self) -> nat {
        self.index as nat
    }

    /// Hands out the next element, or `None` once all have been handed out.
    pub fn next(&mut self) -> (value: Option<u32>)
        ensures
            value == if old(self)@.len() > 0 {
                Some(old(self)@[0])
            } else {
                None
            },
            final(self)@ == if old(self)@.len() > 0 {
                old(self)@.skip(1)
            } else {
                old(self)@
            },
            final(self).position() == if value is Some {
                old(self).position() + 1
            } else {
                old(self).position()
            },
            value matches Some(v) ==> in_range(T::width(), v),
    {
        proof {
            use_type_invariant(&*self);
        }
        let result = self.vec.get(self.index);
        if self.index < self.vec.len() {
            self.index += 1;
        }
        result
    }
}

impl<T: PackedInt> PackedIntegers<T> {
    /// Starts a walk over the elements that leaves the array in place.
    pub fn iter(&self) -> (iter: PackedIntegersIterator<'_, T>)
        ensures
            iter@ == self@,
            iter.position() == 0,
    {
        PackedIntegersIterator { vec: self, index: 0 }
    }

    /// Starts a walk over the elements that takes the array with it.
    pub fn into_iter(self) -> (iter: PackedIntegersIntoIterator<T>)
        ensures
            iter@ == self@,
            iter.position() == 0,
    {
        PackedIntegersIntoIterator { vec: self, index: 0 }
    }
}

} // verus!
