//! Equality and order of packed arrays.
//!
//! Two arrays are equal when they hold the same elements. Arrays are ordered
//! as words in a dictionary: by the first element in which they differ, and an
//! array that is the beginning of a longer one comes before it.

use core::cmp::Ordering;
use vstd::prelude::*;
use vstd::std_specs::cmp::{PartialEqSpecImpl, PartialOrdSpecImpl};
use crate::array::PackedIntegers;
use crate::width::PackedInt;

verus! {

/// The dictionary order of two sequences of elements.
pub open spec fn compare_elements(a: Seq<u32>, b: Seq<u32>) -> Ordering
    decreases a.len(),
{
    if a.len() == 0 {
        if b.len() == 0 {
            Ordering::Equal
        } else {
            Ordering::Less
        }
    } else if b.len() == 0 {
        Ordering::Greater
    } else if a[0] < b[0] {
        Ordering::Less
    } else if a[0] > b[0] {
        Ordering::Greater
    } else {
        compare_elements(a.skip(1), b.skip(1))
    }
}

/// Two sequences compare as equal exactly when they are the same sequence.
pub proof fn lemma_equal_iff_same(a: Seq<u32>, b: Seq<u32>)
    ensures
        compare_elements(a, b) == Ordering::Equal <==> a == b,
    decreases a.len(),
{
    if a.len() > 0 && b.len() > 0 {
        lemma_equal_iff_same(a.skip(1), b.skip(1));
        if a[0] == b[0] && a.skip(1) == b.skip(1) {
            assert forall|i: int| 0 <= i < a.len() implies a[i] == b[i] by {
                if i > 0 {
                    assert(a[i] == a.skip(1)[i - 1]);
                    assert(b[i] == b.skip(1)[i - 1]);
                }
            }
            assert(a =~= b);
        }
    } else if a.len() == 0 && b.len() == 0 {
        assert(a =~= b);
    }
}

/// Swapping the two sides swaps `Less` and `Greater` and keeps `Equal`, so of
/// two different sequences exactly one is the lesser.
pub proof fn lemma_compare_reverses(a: Seq<u32>, b: Seq<u32>)
    ensures
        compare_elements(a, b) == Ordering::Less <==> compare_elements(b, a) == Ordering::Greater,
        compare_elements(a, b) == Ordering::Greater <==> compare_elements(b, a) == Ordering::Less,
        compare_elements(a, b) == Ordering::Equal <==> compare_elements(b, a) == Ordering::Equal,
    decreases a.len(),
{
    if a.len() > 0 && b.len() > 0 {
        lemma_compare_reverses(a.skip(1), b.skip(1));
    }
}

/// The order is transitive: what is not greater than a sequence is not greater
/// than anything that sequence is not greater than, and strictly less where
/// one of the two steps is strict.
pub proof fn lemma_compare_transitive(a: Seq<u32>, b: Seq<u32>, c: Seq<u32>)
    requires
        compare_elements(a, b) != Ordering::Greater,
        compare_elements(b, c) != Ordering::Greater,
    ensures
        compare_elements(a, c) != Ordering::Greater,
        compare_elements(a, b) == Ordering::Less || compare_elements(b, c) == Ordering::Less
            ==> compare_elements(a, c) == Ordering::Less,
    decreases a.len(),
{
    if a.len() > 0 && b.len() > 0 && c.len() > 0 {
        if a[0] == b[0] && b[0] == c[0] {
            lemma_compare_transitive(a.skip(1), b.skip(1), c.skip(1));
        }
    }
}

/// A sequence that is the beginning of a longer one is less than it.
pub proof fn lemma_prefix_is_less(a: Seq<u32>, b: Seq<u32>)
    requires
        a.is_prefix_of(b),
        a.len() < b.len(),
    ensures
        compare_elements(a, b) == Ordering::Less,
    decreases a.len(),
{
    if a.len() > 0 {
        assert forall|i: int| 0 <= i < a.skip(1).len() implies a.skip(1)[i] == b.skip(1)[i] by {
            assert(a[i + 1] == b[i + 1]);
        }
        lemma_prefix_is_less(a.skip(1), b.skip(1));
    }
}

impl<T: PackedInt> PackedIntegers<T> {
    /// Compares two arrays in dictionary order.
    ///
    /// The arrays are walked side by side. The first pair of elements that
    /// differ decides; where one array ends first, it is the lesser.
    pub fn cmp(&self, other: &Self) -> (order: Ordering)
        ensures
            order == compare_elements(self@, other@),
    {
        let mut s_iter = self.iter();
        let mut o_iter = other.iter();
        loop
            invariant
                compare_elements(self@, other@) == compare_elements(s_iter@, o_iter@),
            ensures
                s_iter@.len() == 0,
            decreases s_iter@.len(),
        {
            let s = match s_iter.next() {
                Some(s) => s,
                None => {
                    break ;
                },
            };
            let o = match o_iter.next() {
                Some(o) => o,
                None => {
                    return Ordering::Greater;
                },
            };
            if s < o {
                return Ordering::Less;
            } else if s > o {
                return Ordering::Greater;
            }
        }

        match o_iter.next() {
            Some(_) => Ordering::Less,
            None => Ordering::Equal,
        }
    }
}

impl<T: PackedInt> PartialEq for PackedIntegers<T> {
    fn eq(&self, other: &Self) -> (equal: bool) {
        proof {
            lemma_equal_iff_same(self@, other@);
        }
        self.len() == other.len() && match self.cmp(other) {
            Ordering::Equal => true,
            _ => false,
        }
    }
}

impl<T: PackedInt> PartialEqSpecImpl for PackedIntegers<T> {
    open spec fn obeys_eq_spec() -> bool {
        true
    }

    open spec fn eq_spec(&self, other: &Self) -> bool {
        self@ == other@
    }
}

impl<T: PackedInt> Eq for PackedIntegers<T> {

}

impl<T: PackedInt> PartialOrd for PackedIntegers<T> {
    fn partial_cmp(&self, other: &Self) -> (order: Option<Ordering>) {
        Some(self.cmp(other))
    }
}

impl<T: PackedInt> PartialOrdSpecImpl for PackedIntegers<T> {
    open spec fn obeys_partial_cmp_spec() -> bool {
        true
    }

    open spec fn partial_cmp_spec(&self, other: &Self) -> Option<Ordering> {
        Some(compare_elements(self@, other@))
    }
}

} // verus!
