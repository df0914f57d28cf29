//! The smart pointer: a handle to one live slot of one arena.

use vstd::prelude::*;

verus! {

use core::marker::PhantomData;
use crate::arena::Reap;
use crate::model::Addr;

/// A handle granting access to one live object inside one arena.  Its view
/// `self@` is the address of the slot the object occupies; the address never
/// changes for the pointer's whole lifetime.  A pointer is only obtained
/// from `Reap::allocate` or by recomposition through `Rp::from_raw`.
pub struct Rp<T> {
    addr: Addr,
    _marker: PhantomData<T>,
}

impl<T> View for Rp<T> {
    type V = Addr;

    closed spec fn view(&self) -> Addr {
        self.addr
    }
}

impl<T> Rp<T> {
    /// Internal constructor; reachable from outside the crate only through
    /// `Reap::allocate` and `Rp::from_raw`.
    pub(crate) fn make(addr: Addr) -> (p: Rp<T>)
        ensures
            p@ == addr,
    {
        Rp { addr, _marker: PhantomData }
    }

    /// The address of the slot this pointer wraps.
    pub(crate) fn addr(&self) -> (a: Addr)
        ensures
            a == self@,
    {
        self.addr
    }

    /// Decomposes the pointer: consumes it and returns the raw slot address,
    /// suppressing reclamation.  The object stays live in the arena; unless
    /// the address is recomposed with `Rp::from_raw`, it is never destructed
    /// and its slot is never reused.
    pub fn into_raw(this: Rp<T>) -> (a: Addr)
        ensures
            a == this@,
    {
        this.addr
    }

    /// Recomposes a pointer from an address previously produced by
    /// `Rp::into_raw` on a pointer of the same arena.  The caller must bring
    /// the arena the address came from: the address must hold a live object
    /// there, and no other live pointer may wrap it.
    pub fn from_raw(addr: Addr, reap: &Reap<T>) -> (p: Rp<T>)
        requires
            reap.wf(),
            reap@.store.dom().contains(addr),
        ensures
            p@ == addr,
    {
        Rp { addr, _marker: PhantomData }
    }
}

} // verus!
