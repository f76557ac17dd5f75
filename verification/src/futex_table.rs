//! The futexes of a host.
use crate::pointer::SyncSendPointer;
use std::collections::HashMap;
use vstd::prelude::*;

verus! {

broadcast use vstd::std_specs::hash::group_hash_axioms;

/// A futex object that is known by its address.
pub struct Futex;

/// An owned reference to a futex.
pub struct FutexRef {
    ptr: SyncSendPointer<Futex>,
    physical_addr: u64,
}

/// What a reference to a futex is, apart from how it is stored.
#[verifier::ext_equal]
pub struct FutexRefView {
    /// Where the futex object is.
    pub ptr: usize,
    /// The physical address that the managed processes share.
    pub physical_addr: u64,
}

impl View for FutexRef {
    type V = FutexRefView;

    closed spec fn view(&self) -> FutexRefView {
        FutexRefView { ptr: self.ptr.address(), physical_addr: self.physical_addr }
    }
}

impl FutexRef {
    /// Takes ownership of the reference to the futex object at `ptr`, whose physical address is
    /// `physical_addr`.
    pub fn new(ptr: usize, physical_addr: u64) -> (r: FutexRef)
        requires
            ptr != 0,
        ensures
            r@ == (FutexRefView { ptr, physical_addr }),
    {
        FutexRef { ptr: SyncSendPointer::new(ptr), physical_addr }
    }

    /// Where the futex object is.
    pub fn ptr(&self) -> (r: usize)
        ensures
            r == self@.ptr,
    {
        self.ptr.ptr()
    }

    /// The physical address of the futex.
    pub fn physical_addr(&self) -> (r: u64)
        ensures
            r == self@.physical_addr,
    {
        self.physical_addr
    }
}

/// A map of physical addresses to futexes.
pub struct FutexTable {
    /// All futexes that we are tracking. Each futex has a unique physical address associated with
    /// it when it is stored in our table, which we refer to as a table index or table indices.
    futexes: HashMap<u64, FutexRef>,
}

impl View for FutexTable {
    type V = Map<u64, FutexRefView>;

    closed spec fn view(&self) -> Map<u64, FutexRefView> {
        self.futexes@.map_values(|futex: FutexRef| futex@)
    }
}

/// Each futex is stored under its own physical address.
pub open spec fn by_address(futexes: Map<u64, FutexRefView>) -> bool {
    forall|addr: u64| #[trigger]
        futexes.contains_key(addr) ==> futexes[addr].physical_addr == addr
}

impl FutexTable {
    /// Each futex is stored under its own physical address.
    pub open spec fn wf(self) -> bool {
        by_address(self@)
    }

    /// A table without futexes.
    pub fn new() -> (r: FutexTable)
        ensures
            r.wf(),
            r@ == Map::<u64, FutexRefView>::empty(),
    {
        let r = FutexTable { futexes: HashMap::new() };
        assert(r@ == Map::<u64, FutexRefView>::empty());
        r
    }

    /// Add the futex to the table. If the futex already exists in the table, `futex` will be
    /// returned in the `Err` value.
    pub fn add(&mut self, futex: FutexRef) -> (r: Result<(), FutexRef>)
        requires
            old(self).wf(),
        ensures
            final(self).wf(),
            r == (if old(self)@.contains_key(futex@.physical_addr) {
                Err::<(), FutexRef>(futex)
            } else {
                Ok::<(), FutexRef>(())
            }),
            r is Err ==> final(self)@ == old(self)@,
            r is Ok ==> final(self)@ == old(self)@.insert(futex@.physical_addr, futex@),
    {
        let addr = futex.physical_addr();
        if self.futexes.contains_key(&addr) {
            return Err(futex);
        }
        self.futexes.insert(addr, futex);
        assert(self@ == old(self)@.insert(addr, futex@));
        Ok(())
    }

    /// Takes the futex with this physical address out of the table.
    pub fn remove(&mut self, addr: u64) -> (r: Option<FutexRef>)
        requires
            old(self).wf(),
        ensures
            final(self).wf(),
            match r {
                Some(futex) => old(self)@.contains_key(addr) && futex@ == old(self)@[addr],
                None => !old(self)@.contains_key(addr),
            },
            final(self)@ == old(self)@.remove(addr),
    {
        let removed = self.futexes.remove(&addr);
        assert(self@ == old(self)@.remove(addr));
        removed
    }

    /// The futex with this physical address.
    pub fn get(&self, addr: u64) -> (r: Option<&FutexRef>)
        ensures
            match r {
                Some(futex) => self@.contains_key(addr) && futex@ == self@[addr],
                None => !self@.contains_key(addr),
            },
    {
        self.futexes.get(&addr)
    }
}

/// A futex that was added is found under its physical address, until it is removed; the others are
/// found as before.
pub proof fn law_added_is_found(futexes: Map<u64, FutexRefView>, futex: FutexRefView, addr: u64)
    requires
        !futexes.contains_key(futex.physical_addr),
    ensures
        ({
            let added = futexes.insert(futex.physical_addr, futex);
            &&& added.contains_key(futex.physical_addr) && added[futex.physical_addr] == futex
            &&& addr != futex.physical_addr ==> added.contains_key(addr) == futexes.contains_key(
                addr,
            ) && (futexes.contains_key(addr) ==> added[addr] == futexes[addr])
            &&& added.remove(futex.physical_addr) == futexes
        }),
{
    assert(futexes.insert(futex.physical_addr, futex).remove(futex.physical_addr) == futexes);
}

} // verus!
