use std::marker::PhantomData;
use vstd::prelude::*;
use vstd::std_specs::cmp::PartialEqSpec;

verus! {

/// A generational reference to a value kept in an [`Arena`](crate::Arena).
///
/// `index` names the arena slot and `generation` the occupant of that slot
/// that the handle was issued for. Two handles are equal when both numbers
/// are equal; the type parameter only records what the handle points to.
#[derive(Debug, Hash, Eq)]
pub struct Handle<T> {
    pub index: u32,
    pub generation: u32,
    pub _marker: PhantomData<T>,
}

impl<T> Handle<T> {
    /// The handle with the given slot index and generation.
    pub open spec fn spec_new(index: u32, generation: u32) -> Handle<T> {
        Handle { index, generation, _marker: PhantomData }
    }

    /// Builds the handle with the given slot index and generation.
    pub fn new(index: u32, generation: u32) -> (h: Handle<T>)
        ensures
            h == Handle::<T>::spec_new(index, generation),
    {
        Handle { index, generation, _marker: PhantomData }
    }
}

impl<T> Clone for Handle<T> {
    fn clone(&self) -> (h: Self)
        ensures
            h == *self,
    {
        Handle { index: self.index, generation: self.generation, _marker: PhantomData }
    }
}

impl<T> Copy for Handle<T> {
}

impl<T> PartialEq for Handle<T> {
    fn eq(&self, other: &Self) -> (r: bool) {
        self.index == other.index && self.generation == other.generation
    }
}

impl<T> vstd::std_specs::cmp::PartialEqSpecImpl for Handle<T> {
    open spec fn obeys_eq_spec() -> bool {
        true
    }

    open spec fn eq_spec(&self, other: &Self) -> bool {
        self.index == other.index && self.generation == other.generation
    }
}

/// Handles compare equal exactly when they are the same value: the marker
/// carries no data, so slot index and generation decide.
pub proof fn lemma_handle_eq_is_identity<T>(a: Handle<T>, b: Handle<T>)
    ensures
        a.eq_spec(&b) <==> a == b,
{
}

} // verus!
