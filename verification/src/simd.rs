//! A contiguous buffer intended for lane-wise numeric work.

use vstd::prelude::*;

verus! {

/// A growable buffer of elements laid out for lane-wise processing.
#[derive(Debug)]
pub struct SimdVector<T> {
    data: Vec<T>,
}

impl<T> SimdVector<T> {
    /// The elements, in order.
    pub closed spec fn view(&self) -> Seq<T> {
        self.data@
    }

    /// An empty buffer with room reserved for `capacity` elements.
    pub fn new(capacity: usize) -> (r: SimdVector<T>)
        ensures
            r@ == Seq::<T>::empty(),
    {
        SimdVector { data: Vec::with_capacity(capacity) }
    }

    /// Appends one element.
    pub fn push(&mut self, value: T)
        ensures
            final(self)@ == old(self)@.push(value),
    {
        self.data.push(value);
    }

    /// How many elements the buffer holds.
    pub fn len(&self) -> (r: usize)
        ensures
            r == self@.len(),
    {
        self.data.len()
    }
}

} // verus!
