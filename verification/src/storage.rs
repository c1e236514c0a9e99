//! Fallible reservation and measurement of vector storage, and shared owners.

use std::sync::Arc;
use vstd::prelude::*;

verus! {

/// Elements that no vector is asked to hold: there are more of them, or they take
/// up more bytes, than one allocation can have.
pub open spec fn unrepresentable<T>(elements: int) -> bool {
    elements > isize::MAX || elements * vstd::layout::size_of::<T>() > isize::MAX
}

/// Calls `Vec::try_reserve_exact`: asks for room for `additional` more elements
/// and returns whether the room was granted.
///
/// The elements are unchanged either way. A request for nothing is granted. A
/// request that would bring the vector above `usize::MAX` elements or
/// `isize::MAX` bytes is refused. Whether room is granted otherwise depends on
/// the allocator.
#[verifier::external_body]
pub(crate) fn try_reserve<T>(values: &mut Vec<T>, additional: usize) -> (granted: bool)
    ensures
        final(values)@ == old(values)@,
        additional == 0 ==> granted,
        old(values)@.len() + additional > usize::MAX ==> !granted,
        (old(values)@.len() + additional) * vstd::layout::size_of::<T>() > isize::MAX ==> !granted,
{
    values.try_reserve_exact(additional).is_ok()
}

/// Creates an empty vector with room for `maximum` elements, unless the room
/// cannot be reserved.
///
/// No room is always granted. More than `isize::MAX` elements or bytes are always
/// refused: a single allocation has no place for them. Otherwise the allocator
/// decides.
pub(crate) fn try_vector<T>(maximum: usize) -> (r: Option<Vec<T>>)
    ensures
        maximum == 0 ==> r is Some,
        unrepresentable::<T>(maximum as int) ==> r is None,
        r matches Some(values) ==> values@ == Seq::<T>::empty(),
{
    let mut values: Vec<T> = Vec::new();
    if maximum <= isize::MAX as usize && try_reserve(&mut values, maximum) {
        Some(values)
    } else {
        None
    }
}

/// Calls `Vec::capacity`: returns how many elements fit without reallocation.
///
/// The answer is never below the number of elements; beyond that it depends on
/// the allocator.
#[verifier::external_body]
pub(crate) fn allocated<T>(values: &Vec<T>) -> (slots: usize)
    ensures
        slots >= values@.len(),
{
    values.capacity()
}

/// Calls `Vec::shrink_to_fit`: gives back what room the elements do not need.
///
/// The elements are unchanged. How much room is left depends on the allocator.
#[verifier::external_body]
pub(crate) fn release_spare<T>(values: &mut Vec<T>)
    ensures
        final(values)@ == old(values)@,
{
    values.shrink_to_fit();
}

/// Calls `Arc::clone`: returns another handle on the same shared value.
#[verifier::external_body]
pub(crate) fn share_owner<T>(owner: &Arc<T>) -> (handle: Arc<T>)
    ensures
        handle == *owner,
{
    Arc::clone(owner)
}

/// Calls `Arc::ptr_eq`: returns whether two handles point to one allocation.
///
/// Handles on one allocation hold one value. Nothing is claimed of handles on
/// different allocations, whose values may still be equal.
#[verifier::external_body]
pub(crate) fn shares_owner<T>(left: &Arc<T>, right: &Arc<T>) -> (shared: bool)
    ensures
        shared ==> *left == *right,
{
    Arc::ptr_eq(left, right)
}

/// A reusable list and the number of elements that were reserved for it.
#[derive(Debug)]
pub struct Scratch<T> {
    /// Elements.
    pub values: Vec<T>,
    /// Elements for which storage was reserved.
    pub reserved: usize,
}

impl<T> View for Scratch<T> {
    type V = Seq<T>;

    open spec fn view(&self) -> Seq<T> {
        self.values@
    }
}

/// An empty list with room for a maximum.
pub open spec fn scratch_reserved<T>(scratch: Option<Scratch<T>>, maximum: usize) -> bool {
    scratch matches Some(list) ==> list@.len() == 0 && list.reserved == maximum
}

impl<T> Scratch<T> {
    /// Creates an empty list with room for `maximum` elements, unless the room
    /// cannot be reserved.
    ///
    /// No room is always granted, and room that no vector can hold is always
    /// refused. Otherwise the allocator decides.
    pub fn try_with_capacity(maximum: usize) -> (r: Option<Self>)
        ensures
            maximum == 0 ==> r is Some,
            unrepresentable::<T>(maximum as int) ==> r is None,
            scratch_reserved(r, maximum),
    {
        match try_vector(maximum) {
            Some(values) => Some(Scratch { values, reserved: maximum }),
            None => None,
        }
    }

    /// Returns the number of elements.
    pub fn len(&self) -> (r: usize)
        ensures
            r == self@.len(),
    {
        self.values.len()
    }

    /// Returns the elements.
    pub fn as_slice(&self) -> (r: &[T])
        ensures
            r@ == self@,
    {
        self.values.as_slice()
    }

    /// Appends an element.
    pub fn push(&mut self, value: T)
        ensures
            final(self)@ == old(self)@.push(value),
            final(self).reserved == old(self).reserved,
    {
        self.values.push(value);
    }

    /// Removes every element and keeps the storage.
    pub fn clear(&mut self)
        ensures
            final(self)@ == Seq::<T>::empty(),
            final(self).reserved == old(self).reserved,
    {
        self.values.clear();
    }

    /// Gives reserved but unused storage back to the allocator.
    pub fn shrink_to_fit(&mut self)
        ensures
            final(self)@ == old(self)@,
            final(self).reserved == old(self)@.len(),
    {
        release_spare(&mut self.values);
        self.reserved = self.values.len();
    }
}

} // verus!
