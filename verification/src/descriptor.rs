//! File descriptors, and what they refer to.
use crate::errno::SyscallReturn;
use crate::events::EventQueue;
use crate::flags::Status;
use crate::pointer::SyncSendPointer;
use atomic_refcell::AtomicRefCell;
use std::sync::Arc;
use vstd::prelude::*;

verus! {

/// The cell of the `atomic_refcell` crate in which files are shared. It is only ever handed on.
#[verifier::external_type_specification]
#[verifier::external_body]
#[verifier::reject_recursive_types(T)]
pub struct ExAtomicRefCell<T: ?Sized>(AtomicRefCell<T>);

/// One end of a pipe.
pub trait PipeFile {
    /// Reads from the pipe.
    fn read(&mut self, bytes: &mut [u8], event_queue: &mut EventQueue) -> SyscallReturn;

    /// Writes to the pipe.
    fn write(&mut self, bytes: &[u8], event_queue: &mut EventQueue) -> SyscallReturn;

    /// The status bits.
    fn status(&self) -> Status;

    /// Subscribes the status listener object at `ptr`. Returns whether it was subscribed now.
    fn add_legacy_listener(&mut self, ptr: usize) -> bool
        requires
            ptr != 0,
    ;

    /// Ends the subscription of the status listener object at `ptr`. Returns whether there was one.
    fn remove_legacy_listener(&mut self, ptr: usize) -> bool
        requires
            ptr != 0,
    ;
}

/// Represents a POSIX description, or a Linux "struct file".
pub enum PosixFile<P> {
    Pipe(P),
}

impl<P: PipeFile> PosixFile<P> {
    /// Reads from the file: what the pipe does is done.
    pub fn read(&mut self, bytes: &mut [u8], event_queue: &mut EventQueue) -> (r: SyscallReturn)
        ensures
            exists|pipe: &mut P, buffer: &mut [u8], queue: &mut EventQueue|
                {
                    &&& *old(self) == PosixFile::Pipe(*pipe)
                    &&& *final(self) == PosixFile::Pipe(*final(pipe))
                    &&& buffer@ == old(bytes)@ && final(buffer)@ == final(bytes)@
                    &&& *queue == *old(event_queue) && *final(queue) == *final(event_queue)
                    &&& #[trigger] call_ensures(P::read, (pipe, buffer, queue), r)
                },
    {
        match self {
            PosixFile::Pipe(f) => f.read(bytes, event_queue),
        }
    }

    /// Writes to the file: what the pipe does is done.
    pub fn write(&mut self, bytes: &[u8], event_queue: &mut EventQueue) -> (r: SyscallReturn)
        ensures
            exists|pipe: &mut P, queue: &mut EventQueue|
                {
                    &&& *old(self) == PosixFile::Pipe(*pipe)
                    &&& *final(self) == PosixFile::Pipe(*final(pipe))
                    &&& *queue == *old(event_queue) && *final(queue) == *final(event_queue)
                    &&& #[trigger] call_ensures(P::write, (pipe, bytes, queue), r)
                },
    {
        match self {
            PosixFile::Pipe(f) => f.write(bytes, event_queue),
        }
    }

    /// The status bits of the file: those of the pipe.
    pub fn status(&self) -> (r: Status)
        ensures
            self matches PosixFile::Pipe(pipe) ==> call_ensures(P::status, (&pipe,), r),
    {
        match self {
            PosixFile::Pipe(f) => f.status(),
        }
    }

    /// Subscribes the status listener object at `ptr`, as the pipe does.
    pub fn add_legacy_listener(&mut self, ptr: usize) -> (r: bool)
        requires
            ptr != 0,
        ensures
            exists|pipe: &mut P|
                *old(self) == PosixFile::Pipe(*pipe) && *final(self) == PosixFile::Pipe(
                    *final(pipe),
                ) && #[trigger] call_ensures(P::add_legacy_listener, (pipe, ptr), r),
    {
        match self {
            PosixFile::Pipe(f) => f.add_legacy_listener(ptr),
        }
    }

    /// Ends the subscription of the status listener object at `ptr`, as the pipe does.
    pub fn remove_legacy_listener(&mut self, ptr: usize) -> (r: bool)
        requires
            ptr != 0,
        ensures
            exists|pipe: &mut P|
                *old(self) == PosixFile::Pipe(*pipe) && *final(self) == PosixFile::Pipe(
                    *final(pipe),
                ) && #[trigger] call_ensures(P::remove_legacy_listener, (pipe, ptr), r),
    {
        match self {
            PosixFile::Pipe(f) => f.remove_legacy_listener(ptr),
        }
    }
}

/// A file descriptor.
#[verifier::reject_recursive_types(P)]
pub struct Descriptor<P> {
    file: Arc<AtomicRefCell<PosixFile<P>>>,
    flags: i32,
}

impl<P> Descriptor<P> {
    /// The file that the descriptor refers to.
    pub closed spec fn file(self) -> Arc<AtomicRefCell<PosixFile<P>>> {
        self.file
    }

    /// The flags of the descriptor.
    pub closed spec fn flags(self) -> i32 {
        self.flags
    }

    /// A descriptor without flags.
    pub fn new(file: Arc<AtomicRefCell<PosixFile<P>>>) -> (r: Descriptor<P>)
        ensures
            r.file() == file,
            r.flags() == 0,
    {
        Descriptor { file, flags: 0 }
    }

    /// The file that the descriptor refers to.
    pub fn get_file(&self) -> (r: &Arc<AtomicRefCell<PosixFile<P>>>)
        ensures
            *r == self.file(),
    {
        &self.file
    }

    /// The flags of the descriptor.
    pub fn get_flags(&self) -> (r: i32)
        ensures
            r == self.flags(),
    {
        self.flags
    }

    /// Replaces the flags.
    pub fn set_flags(&mut self, flags: i32)
        ensures
            final(self).file() == old(self).file(),
            final(self).flags() == flags,
    {
        self.flags = flags;
    }

    /// Adds to the flags.
    pub fn add_flags(&mut self, flags: i32)
        ensures
            final(self).file() == old(self).file(),
            final(self).flags() == old(self).flags() | flags,
    {
        self.flags = self.flags | flags;
    }
}

impl<P> Clone for Descriptor<P> {
    fn clone(&self) -> (r: Descriptor<P>)
        ensures
            r == *self,
    {
        Descriptor { file: self.file.clone(), flags: self.flags }
    }
}

/// A legacy descriptor object that is known by its address.
pub struct LegacyDescriptor;

/// A descriptor of either kind. A legacy descriptor object is referred to, which has to be taken
/// back with [`CompatDescriptor::release`].
#[verifier::reject_recursive_types(P)]
pub enum CompatDescriptor<P> {
    New(Descriptor<P>),
    Legacy(SyncSendPointer<LegacyDescriptor>),
}

impl<P> CompatDescriptor<P> {
    /// The address of the legacy descriptor object, if it is one.
    pub open spec fn legacy(self) -> Option<usize> {
        match self {
            CompatDescriptor::Legacy(d) => Some(d.address()),
            CompatDescriptor::New(_) => None,
        }
    }

    /// The file that the descriptor refers to, if it is not a legacy descriptor.
    pub open spec fn posix_file(self) -> Option<Arc<AtomicRefCell<PosixFile<P>>>> {
        match self {
            CompatDescriptor::Legacy(_) => None,
            CompatDescriptor::New(d) => Some(d.file()),
        }
    }

    /// Gives the descriptor up. Returns the address of the legacy descriptor object to which a
    /// reference is no longer held, if it was one.
    pub fn release(self) -> (r: Option<usize>)
        ensures
            r == self.legacy(),
    {
        match self {
            CompatDescriptor::Legacy(d) => Some(d.ptr()),
            CompatDescriptor::New(_) => None,
        }
    }
}

/// An opaque type used when passing a shared file to C code.
pub struct PosixFileArc;

/// The new compat descriptor takes ownership of the reference to the legacy descriptor and does not
/// increment its ref count, but the ref count is to be decremented when this compat descriptor is
/// released.
#[allow(non_snake_case)]
pub fn compatdescriptor_fromLegacy<P>(legacy_descriptor: usize) -> (r: CompatDescriptor<P>)
    requires
        legacy_descriptor != 0,
    ensures
        r.legacy() == Some(legacy_descriptor),
{
    CompatDescriptor::Legacy(SyncSendPointer::new(legacy_descriptor))
}

/// If the compat descriptor is a legacy descriptor, returns the address of the legacy descriptor
/// object. Otherwise returns 0. The legacy descriptor's ref count is not modified, so the address
/// must not outlive the lifetime of the compat descriptor.
#[allow(non_snake_case)]
pub fn compatdescriptor_asLegacy<P>(descriptor: &CompatDescriptor<P>) -> (r: usize)
    ensures
        r == (match descriptor.legacy() {
            Some(address) => address,
            None => 0,
        }),
{
    match descriptor {
        CompatDescriptor::Legacy(d) => d.ptr(),
        CompatDescriptor::New(_) => 0,
    }
}

/// The address of the legacy descriptor object whose file handle has to be set when that of the
/// compat descriptor is set. New descriptor types don't store their file handle, so there is
/// nothing to do for them.
#[allow(non_snake_case)]
pub fn compatdescriptor_setHandle<P>(descriptor: &CompatDescriptor<P>, handle: i32) -> (r: Option<
    (usize, i32),
>)
    ensures
        r == (match descriptor.legacy() {
            Some(address) => Some((address, handle)),
            None => None,
        }),
{
    match descriptor {
        CompatDescriptor::Legacy(d) => Some((d.ptr(), handle)),
        CompatDescriptor::New(_) => None,
    }
}

/// If the compat descriptor is a new descriptor, returns the reference-counted posix file object.
/// The posix file object's ref count is not modified.
#[allow(non_snake_case)]
pub fn compatdescriptor_borrowPosixFile<P>(descriptor: &CompatDescriptor<P>) -> (r: Option<
    &Arc<AtomicRefCell<PosixFile<P>>>,
>)
    ensures
        match r {
            Some(file) => descriptor.posix_file() == Some(*file),
            None => descriptor.posix_file() is None,
        },
{
    match descriptor {
        CompatDescriptor::Legacy(_) => None,
        CompatDescriptor::New(d) => Some(d.get_file()),
    }
}

/// If the compat descriptor is a new descriptor, returns one more reference to the
/// reference-counted posix file object.
#[allow(non_snake_case)]
pub fn compatdescriptor_newRefPosixFile<P>(descriptor: &CompatDescriptor<P>) -> (r: Option<
    Arc<AtomicRefCell<PosixFile<P>>>,
>)
    ensures
        r == descriptor.posix_file(),
{
    match descriptor {
        CompatDescriptor::Legacy(_) => None,
        CompatDescriptor::New(d) => Some(d.get_file().clone()),
    }
}

/// What a descriptor of either kind refers to: a legacy descriptor to an object at an address and
/// to no file, a new one to a file and to no such object.
pub proof fn law_kinds<P>(legacy: SyncSendPointer<LegacyDescriptor>, descriptor: Descriptor<P>)
    ensures
        CompatDescriptor::<P>::Legacy(legacy).legacy() == Some(legacy.address()),
        CompatDescriptor::<P>::Legacy(legacy).posix_file() is None,
        CompatDescriptor::New(descriptor).legacy() is None,
        CompatDescriptor::New(descriptor).posix_file() == Some(descriptor.file()),
{
}

} // verus!
