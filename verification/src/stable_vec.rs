//! # `StableVec`
//!
//! The growable array handed across module boundaries; it is converted to
//! and from a `Vec` without copying its elements.
use vstd::prelude::*;

verus! {

/// A sequence of elements that can be handed across module boundaries.
pub struct StableVec<T> {
    items: Vec<T>,
}

impl<T> View for StableVec<T> {
    type V = Seq<T>;

    closed spec fn view(&self) -> Seq<T> {
        self.items@
    }
}

impl<T> StableVec<T> {
    /// Takes over the elements of `items`.
    pub fn from_vec(items: Vec<T>) -> (v: Self)
        ensures
            v@ == items@,
    {
        StableVec { items }
    }

    /// Gives the elements back as a `Vec`.
    pub fn into_vec(self) -> (items: Vec<T>)
        ensures
            items@ == self@,
    {
        self.items
    }

    /// The elements, in order.
    pub fn as_slice(&self) -> (s: &[T])
        ensures
            s@ == self@,
    {
        self.items.as_slice()
    }

    /// The number of elements.
    pub fn len(&self) -> (n: usize)
        ensures
            n == self@.len(),
    {
        self.items.len()
    }
}

impl<T> From<Vec<T>> for StableVec<T> {
    fn from(items: Vec<T>) -> (v: Self) {
        StableVec { items }
    }
}

impl<T> vstd::std_specs::convert::FromSpecImpl<Vec<T>> for StableVec<T> {
    open spec fn obeys_from_spec() -> bool {
        true
    }

    closed spec fn from_spec(items: Vec<T>) -> Self {
        StableVec { items }
    }
}

} // verus!
