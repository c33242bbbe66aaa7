use vstd::prelude::*;

verus! {

/// A read-only view of a map, safe to copy onto other threads.
///
/// The maps are `Send` + `Sync`: every stored value is `Copy` or borrowed from the arena,
/// and every mutating method takes `&mut self`. This view wraps `&self` so that the intent
/// is explicit; it dereferences to the map, so every getter works as usual.
pub struct Readonly<'a, T: Sync> {
    inner: &'a T,
}

impl<'a, T: Sync> Readonly<'a, T> {
    /// The map this view reads.
    pub closed spec fn spec_inner(&self) -> &'a T {
        self.inner
    }

    /// Wraps a shared borrow of a map.
    pub fn new(map: &'a T) -> (r: Self)
        ensures
            *r.spec_inner() == *map,
    {
        Readonly { inner: map }
    }

    /// The map this view reads.
    pub fn get(&self) -> (r: &'a T)
        ensures
            *r == *self.spec_inner(),
    {
        self.inner
    }
}

impl<'a, T: Sync> Clone for Readonly<'a, T> {
    /// Another view of the same map.
    fn clone(&self) -> (r: Self)
        ensures
            r == *self,
    {
        Readonly { inner: self.inner }
    }
}

impl<'a, T: Sync> Copy for Readonly<'a, T> {
}

impl<'a, T: Sync> core::ops::Deref for Readonly<'a, T> {
    type Target = T;

    /// Returns the inner map for shared (read-only) access.
    fn deref(&self) -> (r: &T)
        ensures
            *r == *self.spec_inner(),
    {
        self.inner
    }
}

} // verus!
