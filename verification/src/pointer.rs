//! Addresses of objects that C code owns.
use core::marker::PhantomData;
use vstd::prelude::*;

verus! {

/// The address of a `T` that lives outside this library. It is only ever handed on, never
/// followed, so it may be sent to and shared between threads.
#[derive(Debug)]
pub struct SyncSendPointer<T> {
    address: usize,
    pointee: PhantomData<T>,
}

impl<T> Copy for SyncSendPointer<T> {

}

impl<T> Clone for SyncSendPointer<T> {
    /// The same address.
    fn clone(&self) -> (r: SyncSendPointer<T>)
        ensures
            r.address() == self.address(),
    {
        SyncSendPointer { address: self.address, pointee: PhantomData }
    }
}

impl<T> SyncSendPointer<T> {
    /// The address.
    pub closed spec fn address(self) -> usize {
        self.address
    }

    /// Wraps an address.
    pub fn new(address: usize) -> (r: SyncSendPointer<T>)
        ensures
            r.address() == address,
    {
        SyncSendPointer { address, pointee: PhantomData }
    }

    /// Get the address.
    pub fn ptr(&self) -> (r: usize)
        ensures
            r == self.address(),
    {
        self.address
    }

    /// Get a mutable reference to the address.
    pub fn ptr_mut(&mut self) -> (r: &mut usize)
        ensures
            *r == old(self).address(),
            *final(r) == final(self).address(),
    {
        &mut self.address
    }
}

} // verus!
