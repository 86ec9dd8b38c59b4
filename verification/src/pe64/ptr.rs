//! Typed virtual addresses.

use core::marker::PhantomData;
use vstd::prelude::*;

use crate::pe64::image::Va;

verus! {

/// A virtual address at which a `T` is expected. Zero is the null pointer.
pub struct Ptr<T> {
    va: Va,
    marker: PhantomData<T>,
}

impl<T> Ptr<T> {
    /// The virtual address.
    pub closed spec fn view(self) -> Va {
        self.va
    }

    /// The pointer to a `T` at `va`.
    pub fn from(va: Va) -> (r: Ptr<T>)
        ensures
            r@ == va,
    {
        Ptr { va, marker: PhantomData }
    }

    /// The null pointer.
    pub fn null() -> (r: Ptr<T>)
        ensures
            r@ == 0,
    {
        Ptr { va: 0, marker: PhantomData }
    }

    /// Whether this is the null pointer.
    pub fn is_null(&self) -> (b: bool)
        ensures
            b == (self@ == 0),
    {
        self.va == 0
    }

    /// The virtual address.
    pub fn into(self) -> (va: Va)
        ensures
            va == self@,
    {
        self.va
    }

    /// The same address, as a pointer to a `U`.
    pub fn cast<U>(self) -> (r: Ptr<U>)
        ensures
            r@ == self@,
    {
        Ptr { va: self.va, marker: PhantomData }
    }
}

impl<T> Clone for Ptr<T> {
    fn clone(&self) -> (r: Ptr<T>)
        ensures
            r@ == self@,
    {
        Ptr { va: self.va, marker: PhantomData }
    }
}

impl<T> Copy for Ptr<T> {

}

} // verus!
