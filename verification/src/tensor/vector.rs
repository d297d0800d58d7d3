//! Vectors in the mathematical sense over a choice of linear storage.

use core::marker::PhantomData;
use vstd::prelude::*;

verus! {

/// Linear storage that knows its length.
pub trait LinearStorageLen {
    /// The number of entries, as a specification.
    spec fn count(&self) -> nat;

    fn len(&self) -> (len: usize)
        ensures
            len == self.count(),
    ;

    fn is_empty(&self) -> (empty: bool)
        ensures
            empty == (self.count() == 0),
    ;
}

/// Linear storage of entries of type `T`.
pub trait VecStorage<T>: LinearStorageLen {

}

impl<T> LinearStorageLen for Vec<T> {
    open spec fn count(&self) -> nat {
        self@.len()
    }

    fn len(&self) -> (len: usize) {
        Vec::len(self)
    }

    fn is_empty(&self) -> (empty: bool) {
        Vec::len(self) == 0
    }
}

impl<T> VecStorage<T> for Vec<T> {

}

impl<T, const N: usize> LinearStorageLen for [T; N] {
    open spec fn count(&self) -> nat {
        N as nat
    }

    fn len(&self) -> (len: usize) {
        N
    }

    fn is_empty(&self) -> (empty: bool) {
        N == 0
    }
}

impl<T, const N: usize> VecStorage<T> for [T; N] {

}

/// A vector whose entries of type `T` are held by the storage `S`.
#[derive(PartialEq, Debug)]
pub struct Vector<T, S: VecStorage<T>> {
    inner: S,
    phantom: PhantomData<T>,
}

/// A vector held by a `Vec`.
pub type VectorInnerVec<T> = Vector<T, Vec<T>>;

impl<T, S: VecStorage<T>> Vector<T, S> {
    /// The storage of the vector.
    pub closed spec fn storage(&self) -> S {
        self.inner
    }

    /// The vector that `inner` holds.
    pub fn new(inner: S) -> (vector: Self)
        ensures
            vector.storage() == inner,
    {
        Self { inner, phantom: PhantomData }
    }

    /// The number of entries.
    pub fn len(&self) -> (len: usize)
        ensures
            len == self.storage().count(),
    {
        self.inner.len()
    }

    /// Whether the vector has no entries.
    pub fn is_empty(&self) -> (empty: bool)
        ensures
            empty == (self.storage().count() == 0),
    {
        self.inner.is_empty()
    }
}

impl<T> View for Vector<T, Vec<T>> {
    type V = Seq<T>;

    /// The entries of the vector.
    closed spec fn view(&self) -> Seq<T> {
        self.inner@
    }
}

impl<T: Copy> Vector<T, Vec<T>> {
    /// The view shows what the storage holds.
    pub proof fn lemma_view(&self)
        ensures
            self@ == self.storage()@,
    {
    }

    /// The entry at `i`.
    pub fn get(&self, i: usize) -> (value: T)
        requires
            i < self@.len(),
        ensures
            value == self@[i as int],
    {
        self.inner[i]
    }

    /// Replaces the entry at `i`.
    pub fn set(&mut self, i: usize, value: T)
        requires
            i < old(self)@.len(),
        ensures
            final(self)@ == old(self)@.update(i as int, value),
    {
        self.inner.set(i, value);
    }

    /// Appends an entry.
    pub fn push(&mut self, value: T)
        ensures
            final(self)@ == old(self)@.push(value),
    {
        self.inner.push(value);
    }

    /// The storage.
    pub fn as_vec(&self) -> (inner: &Vec<T>)
        ensures
            inner@ == self@,
    {
        &self.inner
    }

    /// The storage, given up by the vector.
    pub fn into_inner(self) -> (inner: Vec<T>)
        ensures
            inner@ == self@,
    {
        self.inner
    }
}

} // verus!
