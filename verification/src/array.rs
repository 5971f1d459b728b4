//! The packed array and its operations.

use core::marker::PhantomData;
use vstd::prelude::*;
use crate::bits::{lemma_max_value_is_low_mask, lemma_merge_is_masked_union};
use crate::codec::{
    decode, decode_all, encode, lemma_decode_all_extended, lemma_decode_all_written,
    lemma_decode_in_range,
};
use crate::error::PackedError;
use crate::layout::{
    available_bits, capacity_of, cell_index, cells_for, fits, lemma_capacity_monotonic,
    lemma_element_cells, lemma_fits, lemma_fits_fewer, lemma_last_cell, max_cells, start_bit,
    CELL_BITS,
};
use crate::model::{
    get_result, in_range, insert_result, pop_result, push_result, remove_result, set_result,
    truncate_result,
};
use crate::width::{valid_width, PackedInt};

verus! {

/// A growable array of integers of `T::NUM_BITS` bits each, packed into 32-bit
/// cells.
///
/// Its view is the sequence of its elements. Besides the elements it owns a
/// number of cells, which decides how many elements it can hold before it has
/// to grow.
#[derive(Debug)]
pub struct PackedIntegers<T: PackedInt> {
    buf: Vec<u32>,
    len: usize,
    phantom: PhantomData<T>,
}

impl<T: PackedInt> View for PackedIntegers<T> {
    type V = Seq<u32>;

    closed spec fn view(&self) -> Seq<u32> {
        decode_all(self.buf@, T::width(), self.len as nat)
    }
}

impl<T: PackedInt> PackedIntegers<T> {
    /// The elements lie within the owned cells, and the cells' bits can be
    /// counted in a `usize`.
    #[verifier::type_invariant]
    spec fn well_formed(self) -> bool {
        &&& fits(T::width(), self.len as nat, self.buf@.len())
        &&& self.buf@.len() <= max_cells()
    }

    /// The number of cells that the array owns.
    pub closed spec fn cells(&self) -> nat {
        self.buf@.len()
    }

    /// The number of elements that the owned cells can hold.
    pub open spec fn spec_capacity(&self) -> nat {
        capacity_of(T::width(), self.cells())
    }

    /// The largest number of elements that an array of this width can hold.
    pub open spec fn spec_max_len() -> nat {
        capacity_of(T::width(), max_cells())
    }

    /// Whether the elements have room in the owned cells, and the cells are no
    /// more than the machine allows.
    pub open spec fn within_capacity(&self) -> bool {
        self@.len() <= self.spec_capacity() <= Self::spec_max_len()
    }

    /// No element exceeds the largest value of the width.
    pub proof fn lemma_elements_in_range(&self)
        ensures
            forall|i: int| 0 <= i < self@.len() ==> in_range(T::width(), #[trigger] self@[i]),
    {
        T::width_is_valid();
        assert forall|i: int| 0 <= i < self@.len() implies in_range(
            T::width(),
            #[trigger] self@[i],
        ) by {
            lemma_decode_in_range(self.buf@, T::width(), i as nat);
        }
    }

    /// Constructs a new, empty array that owns no cells.
    pub fn new() -> (array: PackedIntegers<T>)
        ensures
            array@ == Seq::<u32>::empty(),
            array.cells() == 0,
            array.within_capacity(),
    {
        proof {
            T::width_is_valid();
        }
        PackedIntegers { buf: Vec::new(), len: 0, phantom: PhantomData }
    }

    /// Constructs a new, empty array that owns the fewest cells that hold
    /// `capacity` elements.
    pub fn with_capacity(capacity: usize) -> (array: PackedIntegers<T>)
        requires
            capacity <= Self::spec_max_len(),
        ensures
            array@ == Seq::<u32>::empty(),
            array.cells() == cells_for(T::width(), capacity as nat),
            capacity <= array.spec_capacity(),
            array.within_capacity(),
    {
        proof {
            T::width_is_valid();
            let cells = cells_for(T::width(), capacity as nat);
            lemma_fits(T::width(), capacity as nat, max_cells());
            lemma_fits(T::width(), capacity as nat, cells);
            lemma_capacity_monotonic(T::width(), cells, max_cells());
        }
        let cells = Self::to_buf_capacity(capacity);
        let mut buf = Vec::new();
        buf.resize(cells, 0);
        PackedIntegers { buf, len: 0, phantom: PhantomData }
    }

    /// Returns the number of elements the array can hold without growing.
    pub fn capacity(&self) -> (capacity: usize)
        ensures
            capacity == self.spec_capacity(),
            self.within_capacity(),
    {
        proof {
            use_type_invariant(self);
            T::width_is_valid();
            lemma_fits(T::width(), self.len as nat, self.buf@.len());
            lemma_capacity_monotonic(T::width(), self.buf@.len(), max_cells());
        }
        self.buf.len() * CELL_BITS / T::NUM_BITS
    }

    /// Returns the number of cells that the array owns.
    pub fn allocated_cells(&self) -> (cells: usize)
        ensures
            cells == self.cells(),
    {
        self.buf.len()
    }

    /// Returns the largest number of elements that an array of this width can
    /// hold on this machine.
    pub fn max_len() -> (limit: usize)
        ensures
            limit == Self::spec_max_len(),
    {
        proof {
            T::width_is_valid();
        }
        usize::MAX / CELL_BITS * CELL_BITS / T::NUM_BITS
    }

    /// Returns the number of elements in the array.
    pub fn len(&self) -> (len: usize)
        ensures
            len == self@.len(),
    {
        self.len
    }

    /// Returns `true` if the array holds no element.
    pub fn is_empty(&self) -> (empty: bool)
        ensures
            empty == (self@.len() == 0),
    {
        self.len == 0
    }

    /// Returns the element at `index`, or `None` if there is none.
    pub fn get(&self, index: usize) -> (value: Option<u32>)
        ensures
            value == get_result(self@, index as nat),
            value matches Some(v) ==> in_range(T::width(), v),
    {
        if index >= self.len {
            None
        } else {
            proof {
                use_type_invariant(self);
                T::width_is_valid();
                lemma_fits_fewer(
                    T::width(),
                    index as nat + 1,
                    self.len as nat,
                    self.buf@.len(),
                );
            }
            Some(self.get_unchecked(index))
        }
    }

    #[inline]
    fn available_bits(start_bit: usize) -> (bits: usize)
        requires
            start_bit < 32,
        ensures
            bits == available_bits(start_bit as nat),
    {
        CELL_BITS - start_bit
    }

    #[inline]
    fn buf_index(index: usize) -> (cell: usize)
        requires
            index * T::NUM_BITS <= usize::MAX,
        ensures
            cell == cell_index(T::width(), index as nat),
    {
        proof {
            T::width_is_valid();
        }
        index * T::NUM_BITS / CELL_BITS
    }

    #[inline]
    fn start_bit(index: usize) -> (bit: usize)
        requires
            index * T::NUM_BITS <= usize::MAX,
        ensures
            bit == start_bit(T::width(), index as nat),
            bit < 32,
    {
        proof {
            T::width_is_valid();
        }
        index * T::NUM_BITS % CELL_BITS
    }

    #[inline]
    fn to_buf_capacity(capacity: usize) -> (cells: usize)
        requires
            T::NUM_BITS * capacity + 31 <= usize::MAX,
        ensures
            cells == cells_for(T::width(), capacity as nat),
    {
        proof {
            T::width_is_valid();
        }
        (T::NUM_BITS * capacity + (CELL_BITS - 1)) / CELL_BITS
    }

    /// Reads element `index` without looking at the length: the element only
    /// has to lie within the owned cells.
    fn get_unchecked(&self, index: usize) -> (value: u32)
        requires
            fits(T::width(), index as nat + 1, self.buf@.len()),
        ensures
            value == decode(self.buf@, T::width(), index as nat),
            value <= T::MAX,
            index < self.len ==> value == self@[index as int],
    {
        proof {
            use_type_invariant(self);
            T::width_is_valid();
            lemma_element_cells(T::width(), index as nat, self.buf@.len());
            lemma_decode_in_range(self.buf@, T::width(), index as nat);
            lemma_max_value_is_low_mask(T::width());
        }
        let buf_index = Self::buf_index(index);
        let start_bit = Self::start_bit(index);
        let available_bits = Self::available_bits(start_bit);
        let shift = start_bit as u32;

        if available_bits >= T::NUM_BITS {
            (self.buf[buf_index] >> shift) & T::MAX
        } else {
            // The value spans two cells.
            let rest = available_bits as u32;
            let lo = self.buf[buf_index] >> shift;
            let hi = self.buf[buf_index + 1] << rest;
            proof {
                lemma_merge_is_masked_union(
                    self.buf@[buf_index as int],
                    self.buf@[buf_index + 1],
                    shift,
                    T::NUM_BITS as u32,
                );
            }
            lo ^ ((lo ^ hi) & (T::MAX >> rest << rest))
        }
    }

    /// Writes element `index` without looking at the length: the element only
    /// has to lie within the owned cells. No other element changes.
    fn set_unchecked(&mut self, index: usize, value: u32)
        requires
            fits(T::width(), index as nat + 1, old(self).buf@.len()),
            value <= T::MAX,
        ensures
            final(self).buf@ == encode(old(self).buf@, T::width(), index as nat, value),
            final(self).buf@.len() == old(self).buf@.len(),
            final(self).len == old(self).len,
            final(self)@ == if index < old(self).len {
                old(self)@.update(index as int, value)
            } else {
                old(self)@
            },
    {
        proof {
            use_type_invariant(&*self);
            T::width_is_valid();
            lemma_element_cells(T::width(), index as nat, self.buf@.len());
            lemma_decode_all_written(
                self.buf@,
                T::width(),
                index as nat,
                value,
                self.len as nat,
            );
        }
        let buf_index = Self::buf_index(index);
        let start_bit = Self::start_bit(index);
        let available_bits = Self::available_bits(start_bit);
        let shift = start_bit as u32;

        let low = (self.buf[buf_index] & !(T::MAX << shift)) | (value << shift);
        self.buf[buf_index] = low;
        if available_bits < T::NUM_BITS {
            // The value spans two cells.
            let rest = available_bits as u32;
            let high = (self.buf[buf_index + 1] & !(T::MAX >> rest)) | (value >> rest);
            self.buf[buf_index + 1] = high;
        }
    }

    /// Adds `additional` cleared cells behind the owned ones.
    ///
    /// The cells are taken out of the array while they grow and the length is
    /// set aside, so that the array is consistent at every step.
    fn grow(&mut self, additional: usize)
        requires
            old(self).buf@.len() + additional <= max_cells(),
        ensures
            final(self).buf@.len() == old(self).buf@.len() + additional,
            final(self).buf@.subrange(0, old(self).buf@.len() as int) == old(self).buf@,
            final(self).len == old(self).len,
            final(self)@ == old(self)@,
    {
        proof {
            use_type_invariant(&*self);
            T::width_is_valid();
        }
        let len = self.len;
        self.len = 0;
        let mut buf = Vec::new();
        core::mem::swap(&mut buf, &mut self.buf);
        buf.resize(buf.len() + additional, 0);
        self.buf = buf;
        self.len = len;
        proof {
            assert(self.buf@.subrange(0, old(self).buf@.len() as int) =~= old(self).buf@);
            lemma_decode_all_extended(
                old(self).buf@,
                self.buf@,
                T::width(),
                self.len as nat,
            );
        }
    }

    /// Appends `value` to the back of the array.
    ///
    /// A value that does not fit in the width is rejected and the array stays
    /// as it was. The array grows by one cell where the new element reaches
    /// past the cells it owns. The array must not be at the largest length that
    /// the machine allows.
    pub fn push(&mut self, value: u32) -> (result: Result<(), PackedError>)
        requires
            in_range(T::width(), value) ==> old(self)@.len() < Self::spec_max_len(),
        ensures
            match push_result(T::width(), old(self)@, value) {
                Ok(elements) => result is Ok && final(self)@ == elements,
                Err(error) => result == Err::<(), PackedError>(error) && final(self)@ == old(
                    self,
                )@,
            },
            final(self).cells() == if result is Ok && old(self).cells() < cells_for(
                T::width(),
                old(self)@.len() + 1,
            ) {
                old(self).cells() + 1
            } else {
                old(self).cells()
            },
            final(self).within_capacity(),
            final(self).spec_capacity() >= old(self).spec_capacity(),
    {
        proof {
            use_type_invariant(&*self);
            T::width_is_valid();
            lemma_fits(T::width(), self.len as nat, self.buf@.len());
            lemma_fits(T::width(), self.len as nat + 1, max_cells());
            lemma_capacity_monotonic(T::width(), self.buf@.len(), max_cells());
            lemma_capacity_monotonic(T::width(), self.buf@.len(), self.buf@.len() + 1);
            lemma_last_cell(T::width(), self.len as nat, max_cells());
        }
        if value > T::MAX {
            return Err(PackedError::ValueOutOfRange);
        }
        let buf_index = Self::buf_index(self.len);
        let start_bit = Self::start_bit(self.len);
        let available_bits = Self::available_bits(start_bit);
        let last = if available_bits >= T::NUM_BITS {
            buf_index
        } else {
            // The value spans two cells.
            buf_index + 1
        };
        let ghost before = self.buf@;
        if last == self.buf.len() {
            self.grow(1);
        }
        proof {
            assert(self.buf@.subrange(0, before.len() as int) =~= before);
            lemma_fits(T::width(), self.len as nat + 1, self.buf@.len());
            lemma_capacity_monotonic(T::width(), self.buf@.len(), max_cells());
        }
        let ghost grown = self.buf@;
        self.set_unchecked(self.len, value);
        self.len += 1;
        proof {
            lemma_decode_all_written(
                grown,
                T::width(),
                old(self).len as nat,
                value,
                self.len as nat,
            );
        }
        Ok(())
    }

    /// Sets the element at `index` to `value`.
    ///
    /// An index at or past the length is rejected first, then a value that does
    /// not fit in the width. A rejected call leaves the array as it was.
    pub fn set(&mut self, index: usize, value: u32) -> (result: Result<(), PackedError>)
        ensures
            match set_result(T::width(), old(self)@, index as nat, value) {
                Ok(elements) => result is Ok && final(self)@ == elements,
                Err(error) => result == Err::<(), PackedError>(error) && final(self)@ == old(
                    self,
                )@,
            },
            final(self).cells() == old(self).cells(),
            final(self).within_capacity(),
            final(self).spec_capacity() == old(self).spec_capacity(),
    {
        proof {
            use_type_invariant(&*self);
            T::width_is_valid();
            lemma_fits(T::width(), self.len as nat, self.buf@.len());
            lemma_capacity_monotonic(T::width(), self.buf@.len(), max_cells());
        }
        if index >= self.len {
            Err(PackedError::IndexOutOfBounds)
        } else if value > T::MAX {
            Err(PackedError::ValueOutOfRange)
        } else {
            proof {
                lemma_fits_fewer(
                    T::width(),
                    index as nat + 1,
                    self.len as nat,
                    self.buf@.len(),
                );
            }
            self.set_unchecked(index, value);
            Ok(())
        }
    }

    /// Removes the last element and returns it, or `None` if the array is
    /// empty. The cells stay.
    pub fn pop(&mut self) -> (value: Option<u32>)
        ensures
            final(self)@ == pop_result(old(self)@).0,
            value == pop_result(old(self)@).1,
            value matches Some(v) ==> in_range(T::width(), v),
            final(self).cells() == old(self).cells(),
            final(self).within_capacity(),
            final(self).spec_capacity() == old(self).spec_capacity(),
    {
        proof {
            use_type_invariant(&*self);
            T::width_is_valid();
            lemma_fits(T::width(), self.len as nat, self.buf@.len());
            lemma_capacity_monotonic(T::width(), self.buf@.len(), max_cells());
        }
        if self.len == 0 {
            None
        } else {
            proof {
                lemma_fits_fewer(
                    T::width(),
                    (self.len - 1) as nat,
                    self.len as nat,
                    self.buf@.len(),
                );
            }
            let value = self.get_unchecked(self.len - 1);
            self.len -= 1;
            Some(value)
        }
    }

    /// Keeps the first `len` elements and drops the rest. Nothing changes where
    /// the array holds no more than `len`. The cells stay.
    pub fn truncate(&mut self, len: usize)
        ensures
            final(self)@ == truncate_result(old(self)@, len as nat),
            final(self).cells() == old(self).cells(),
            final(self).within_capacity(),
            final(self).spec_capacity() == old(self).spec_capacity(),
    {
        proof {
            use_type_invariant(&*self);
            T::width_is_valid();
            lemma_fits(T::width(), self.len as nat, self.buf@.len());
            lemma_capacity_monotonic(T::width(), self.buf@.len(), max_cells());
        }
        if len > self.len {
            return ;
        }
        proof {
            lemma_fits_fewer(T::width(), len as nat, self.len as nat, self.buf@.len());
        }
        self.len = len;
    }

    /// Removes every element. The cells stay.
    pub fn clear(&mut self)
        ensures
            final(self)@ == Seq::<u32>::empty(),
            final(self)@ == truncate_result(old(self)@, 0),
            final(self).cells() == old(self).cells(),
            final(self).within_capacity(),
            final(self).spec_capacity() == old(self).spec_capacity(),
    {
        self.truncate(0);
    }

    /// Inserts `value` at position `index` and moves the elements from there on
    /// one place to the right.
    ///
    /// An index past the length is rejected first, then a value that does not
    /// fit in the width. A rejected call leaves the array as it was. The value
    /// is first pushed at the end, which makes the room; the elements behind
    /// `index` then move up from the last one down.
    pub fn insert(&mut self, index: usize, value: u32) -> (result: Result<(), PackedError>)
        requires
            index <= old(self)@.len() && in_range(T::width(), value) ==> old(self)@.len()
                < Self::spec_max_len(),
        ensures
            match insert_result(T::width(), old(self)@, index as nat, value) {
                Ok(elements) => result is Ok && final(self)@ == elements,
                Err(error) => result == Err::<(), PackedError>(error) && final(self)@ == old(
                    self,
                )@,
            },
            final(self).cells() == if result is Ok && old(self).cells() < cells_for(
                T::width(),
                old(self)@.len() + 1,
            ) {
                old(self).cells() + 1
            } else {
                old(self).cells()
            },
            final(self).within_capacity(),
            final(self).spec_capacity() >= old(self).spec_capacity(),
    {
        proof {
            use_type_invariant(&*self);
            T::width_is_valid();
            lemma_fits(T::width(), self.len as nat, self.buf@.len());
            lemma_capacity_monotonic(T::width(), self.buf@.len(), max_cells());
        }
        if index > self.len {
            return Err(PackedError::IndexOutOfBounds);
        }
        match self.push(value) {
            Ok(()) => {},
            Err(error) => {
                return Err(error);
            },
        }
        let ghost pushed = self@;
        let mut i = self.len - 1;
        while i > index
            invariant
                index <= i < self.len,
                self.len == old(self).len + 1,
                self.buf@.len() == self.cells(),
                self.cells() == if old(self).cells() < cells_for(
                    T::width(),
                    old(self)@.len() + 1,
                ) {
                    old(self).cells() + 1
                } else {
                    old(self).cells()
                },
                self@.len() == self.len,
                old(self)@.len() == old(self).len,
                pushed == old(self)@.push(value),
                forall|j: int| 0 <= j <= i ==> #[trigger] self@[j] == pushed[j],
                forall|j: int| i < j < self.len ==> #[trigger] self@[j] == old(self)@[j - 1],
                value <= T::MAX,
            decreases i,
        {
            proof {
                use_type_invariant(&*self);
                lemma_fits_fewer(
                    T::width(),
                    i as nat + 1,
                    self.len as nat,
                    self.buf@.len(),
                );
                lemma_fits_fewer(T::width(), i as nat, self.len as nat, self.buf@.len());
            }
            let moved = self.get_unchecked(i - 1);
            self.set_unchecked(i, moved);
            i -= 1;
        }
        proof {
            use_type_invariant(&*self);
            lemma_fits_fewer(
                T::width(),
                index as nat + 1,
                self.len as nat,
                self.buf@.len(),
            );
        }
        self.set_unchecked(index, value);
        Ok(())
    }

    /// Removes and returns the element at position `index` and moves the
    /// elements behind it one place to the left. The cells stay.
    ///
    /// An index at or past the length is rejected and the array stays as it
    /// was.
    pub fn remove(&mut self, index: usize) -> (result: Result<u32, PackedError>)
        ensures
            match remove_result(old(self)@, index as nat) {
                Ok((elements, value)) => result == Ok::<u32, PackedError>(value) && final(self)@
                    == elements,
                Err(error) => result == Err::<u32, PackedError>(error) && final(self)@ == old(
                    self,
                )@,
            },
            result matches Ok(v) ==> in_range(T::width(), v),
            final(self).cells() == old(self).cells(),
            final(self).within_capacity(),
            final(self).spec_capacity() == old(self).spec_capacity(),
    {
        proof {
            use_type_invariant(&*self);
            T::width_is_valid();
            lemma_fits(T::width(), self.len as nat, self.buf@.len());
            lemma_capacity_monotonic(T::width(), self.buf@.len(), max_cells());
        }
        if index >= self.len {
            return Err(PackedError::IndexOutOfBounds);
        }
        proof {
            lemma_fits_fewer(
                T::width(),
                index as nat + 1,
                self.len as nat,
                self.buf@.len(),
            );
        }
        let result = self.get_unchecked(index);

        let mut i = index + 1;
        while i < self.len
            invariant
                index < i <= self.len,
                self.len == old(self).len,
                self.buf@.len() == old(self).buf@.len(),
                self@.len() == self.len,
                forall|j: int| 0 <= j < index ==> self@[j] == old(self)@[j],
                forall|j: int| index <= j < i - 1 ==> self@[j] == old(self)@[j + 1],
                forall|j: int| i - 1 <= j < self.len ==> self@[j] == old(self)@[j],
            decreases self.len - i,
        {
            proof {
                use_type_invariant(&*self);
                lemma_fits_fewer(
                    T::width(),
                    i as nat + 1,
                    self.len as nat,
                    self.buf@.len(),
                );
                lemma_fits_fewer(T::width(), i as nat, self.len as nat, self.buf@.len());
            }
            let moved = self.get_unchecked(i);
            self.set_unchecked(i - 1, moved);
            i += 1;
        }
        proof {
            lemma_fits_fewer(
                T::width(),
                (self.len - 1) as nat,
                self.len as nat,
                self.buf@.len(),
            );
        }
        let ghost shifted = self@;
        self.len -= 1;
        proof {
            assert(self@ =~= shifted.drop_last());
        }
        Ok(result)
    }

    /// Makes room for at least `additional` more elements.
    ///
    /// Nothing happens where the owned cells already hold that many more.
    /// Otherwise the array takes on the fewest cells that hold `additional`
    /// elements, on top of those it owns. The elements stay as they are.
    pub fn reserve(&mut self, additional: usize)
        requires
            old(self).spec_capacity() >= old(self)@.len() + additional || old(self).cells()
                + cells_for(T::width(), additional as nat) <= max_cells(),
        ensures
            final(self)@ == old(self)@,
            final(self).cells() == if old(self).spec_capacity() >= old(self)@.len() + additional {
                old(self).cells()
            } else {
                old(self).cells() + cells_for(T::width(), additional as nat)
            },
            final(self).spec_capacity() >= final(self)@.len() + additional,
            final(self).within_capacity(),
            final(self).spec_capacity() >= old(self).spec_capacity(),
    {
        proof {
            use_type_invariant(&*self);
            T::width_is_valid();
        }
        let capacity = self.capacity();
        if additional <= capacity - self.len {
            return ;
        }
        proof {
            let cells = cells_for(T::width(), additional as nat);
            lemma_fits(
                T::width(),
                self.len as nat + additional as nat,
                self.buf@.len() + cells,
            );
            lemma_capacity_monotonic(T::width(), self.buf@.len() + cells, max_cells());
            assert((self.len + additional) * T::NUM_BITS == self.len * T::NUM_BITS + additional
                * T::NUM_BITS) by (nonlinear_arith);
        }
        let additional = Self::to_buf_capacity(additional);
        self.grow(additional);
    }

    /// Moves all elements of `other` to the end of `self`, in their order, and
    /// leaves `other` empty.
    ///
    /// Room for the elements of `other` is reserved first, so that the pushes
    /// that follow do not grow the array.
    pub fn append(&mut self, other: &mut Self)
        requires
            old(self).spec_capacity() >= old(self)@.len() + old(other)@.len() || old(self).cells()
                + cells_for(T::width(), old(other)@.len()) <= max_cells(),
        ensures
            final(self)@ == old(self)@ + old(other)@,
            final(other)@ == Seq::<u32>::empty(),
            final(other).cells() == old(other).cells(),
            final(other).spec_capacity() == old(other).spec_capacity(),
            final(self).cells() == if old(self).spec_capacity() >= old(self)@.len() + old(
                other,
            )@.len() {
                old(self).cells()
            } else {
                old(self).cells() + cells_for(T::width(), old(other)@.len())
            },
            final(self).within_capacity(),
            final(other).within_capacity(),
            final(self).spec_capacity() >= old(self).spec_capacity(),
    {
        proof {
            T::width_is_valid();
        }
        self.reserve(other.len);
        let ghost reserved = self.cells();

        let mut iter = other.iter();
        loop
            invariant
                self@ + iter@ == old(self)@ + old(other)@,
                self.cells() == reserved,
                self@.len() + iter@.len() <= self.spec_capacity(),
                self.within_capacity(),
                valid_width(T::width()),
            ensures
                iter@.len() == 0,
            decreases iter@.len(),
        {
            let ghost rest = iter@;
            let value = match iter.next() {
                Some(value) => value,
                None => {
                    break ;
                },
            };
            proof {
                lemma_fits(T::width(), self@.len() + 1, self.cells());
                assert(rest =~= seq![value] + rest.skip(1));
            }
            let _ = self.push(value);
        }
        other.clear();
    }
}

impl<T: PackedInt> Clone for PackedIntegers<T> {
    /// Returns an array with the same elements and as many cells.
    fn clone(&self) -> (copy: Self)
        ensures
            copy@ == self@,
            copy.cells() == self.cells(),
            copy.within_capacity(),
    {
        proof {
            use_type_invariant(self);
            T::width_is_valid();
            lemma_fits(T::width(), self.len as nat, self.buf@.len());
            lemma_capacity_monotonic(T::width(), self.buf@.len(), max_cells());
        }
        let buf = self.buf.clone();
        PackedIntegers { buf, len: self.len, phantom: PhantomData }
    }
}

} // verus!
