//! Sockets of any kind.
//!
//! What a call on a socket does is what the socket of its kind does. Unix sockets are defined
//! elsewhere, so a call on one is described by what its own function was handed and returned.
use crate::errno::{Errno, SyscallError};
use crate::events::{has_legacy, legacy_added, without_legacy, EventQueue};
use crate::flags::{FileMode, FileState, FileStatus};
use crate::netlink::{NetlinkSocket, NetlinkSocketView, NetlinkView};
use crate::sockaddr::SockaddrStorage;
use atomic_refcell::{AtomicRef, AtomicRefCell, AtomicRefMut, BorrowError, BorrowMutError};
use std::sync::Arc;
use vstd::prelude::*;

verus! {

/// What refers to a file in a cell of the `atomic_refcell` crate while it is looked at.
#[verifier::external_type_specification]
#[verifier::external_body]
#[verifier::reject_recursive_types(T)]
pub struct ExAtomicRef<'b, T: ?Sized>(AtomicRef<'b, T>);

/// What refers to a file in a cell of the `atomic_refcell` crate while it is changed.
#[verifier::external_type_specification]
#[verifier::external_body]
#[verifier::reject_recursive_types(T)]
pub struct ExAtomicRefMut<'b, T: ?Sized + 'b>(AtomicRefMut<'b, T>);

/// Why a file in a cell of the `atomic_refcell` crate cannot be looked at.
#[verifier::external_type_specification]
#[verifier::external_body]
pub struct ExBorrowError(BorrowError);

/// Why a file in a cell of the `atomic_refcell` crate cannot be changed.
#[verifier::external_type_specification]
#[verifier::external_body]
pub struct ExBorrowMutError(BorrowMutError);

/// `AtomicRefCell::try_borrow` fails if the value is mutably borrowed. Whether it is changes while
/// the cell stays the same, so nothing is claimed of the result.
pub assume_specification<T: ?Sized>[ AtomicRefCell::<T>::try_borrow ](
    cell: &AtomicRefCell<T>,
) -> Result<AtomicRef<'_, T>, BorrowError>
;

/// `AtomicRefCell::try_borrow_mut` fails if the value is borrowed. Whether it is changes while the
/// cell stays the same, so nothing is claimed of the result.
pub assume_specification<T: ?Sized>[ AtomicRefCell::<T>::try_borrow_mut ](
    cell: &AtomicRefCell<T>,
) -> Result<AtomicRefMut<'_, T>, BorrowMutError>
;

/// A socket that descriptors share.
#[verifier::reject_recursive_types(U)]
pub enum Socket<U> {
    Unix(Arc<AtomicRefCell<U>>),
    Netlink(Arc<AtomicRefCell<NetlinkSocket>>),
}

/// A shared socket while it is looked at.
#[verifier::reject_recursive_types(U)]
pub enum SocketGuard<'a, U> {
    Unix(AtomicRef<'a, U>),
    Netlink(AtomicRef<'a, NetlinkSocket>),
}

/// A shared socket while it is changed.
#[verifier::reject_recursive_types(U)]
pub enum SocketGuardMut<'a, U> {
    Unix(AtomicRefMut<'a, U>),
    Netlink(AtomicRefMut<'a, NetlinkSocket>),
}

impl<U> Clone for Socket<U> {
    fn clone(&self) -> (r: Socket<U>)
        ensures
            r == *self,
    {
        match self {
            Socket::Unix(f) => Socket::Unix(f.clone()),
            Socket::Netlink(f) => Socket::Netlink(f.clone()),
        }
    }
}

impl<U> Socket<U> {
    /// Looks at the socket, if it is not being changed: what the cell returns is returned, for a
    /// socket of the same kind.
    pub fn try_borrow(&self) -> (r: Result<SocketGuard<'_, U>, BorrowError>)
        ensures
            match (self, r) {
                (Socket::Unix(cell), Ok(SocketGuard::Unix(guard))) => call_ensures(
                    AtomicRefCell::<U>::try_borrow,
                    (&**cell,),
                    Ok(guard),
                ),
                (Socket::Unix(cell), Err(error)) => call_ensures(
                    AtomicRefCell::<U>::try_borrow,
                    (&**cell,),
                    Err(error),
                ),
                (Socket::Netlink(cell), Ok(SocketGuard::Netlink(guard))) => call_ensures(
                    AtomicRefCell::<NetlinkSocket>::try_borrow,
                    (&**cell,),
                    Ok(guard),
                ),
                (Socket::Netlink(cell), Err(error)) => call_ensures(
                    AtomicRefCell::<NetlinkSocket>::try_borrow,
                    (&**cell,),
                    Err(error),
                ),
                _ => false,
            },
    {
        match self {
            Socket::Unix(f) => match f.try_borrow() {
                Ok(guard) => Ok(SocketGuard::Unix(guard)),
                Err(error) => Err(error),
            },
            Socket::Netlink(f) => match f.try_borrow() {
                Ok(guard) => Ok(SocketGuard::Netlink(guard)),
                Err(error) => Err(error),
            },
        }
    }

    /// Changes the socket, if nobody else does or looks at it: what the cell returns is returned,
    /// for a socket of the same kind.
    pub fn try_borrow_mut(&self) -> (r: Result<SocketGuardMut<'_, U>, BorrowMutError>)
        ensures
            match (self, r) {
                (Socket::Unix(cell), Ok(SocketGuardMut::Unix(guard))) => call_ensures(
                    AtomicRefCell::<U>::try_borrow_mut,
                    (&**cell,),
                    Ok(guard),
                ),
                (Socket::Unix(cell), Err(error)) => call_ensures(
                    AtomicRefCell::<U>::try_borrow_mut,
                    (&**cell,),
                    Err(error),
                ),
                (Socket::Netlink(cell), Ok(SocketGuardMut::Netlink(guard))) => call_ensures(
                    AtomicRefCell::<NetlinkSocket>::try_borrow_mut,
                    (&**cell,),
                    Ok(guard),
                ),
                (Socket::Netlink(cell), Err(error)) => call_ensures(
                    AtomicRefCell::<NetlinkSocket>::try_borrow_mut,
                    (&**cell,),
                    Err(error),
                ),
                _ => false,
            },
    {
        match self {
            Socket::Unix(f) => match f.try_borrow_mut() {
                Ok(guard) => Ok(SocketGuardMut::Unix(guard)),
                Err(error) => Err(error),
            },
            Socket::Netlink(f) => match f.try_borrow_mut() {
                Ok(guard) => Ok(SocketGuardMut::Netlink(guard)),
                Err(error) => Err(error),
            },
        }
    }
}

/// A Unix socket.
pub trait UnixSocketFile {
    /// The state.
    fn state(&self) -> FileState;

    /// The mode that the socket was opened with.
    fn mode(&self) -> FileMode;

    /// The status flags.
    fn get_status(&self) -> FileStatus;

    /// Whether an open file refers to the socket.
    fn has_open_file(&self) -> bool;

    /// Whether a blocked call is restarted after a signal handler has run.
    fn supports_sa_restart(&self) -> bool;

    /// The address of the peer.
    fn getpeername(&self) -> Result<Option<SockaddrStorage>, SyscallError>;

    /// The address that the socket is bound to.
    fn getsockname(&self) -> Result<Option<SockaddrStorage>, SyscallError>;

    /// The number of the address family.
    fn address_family(&self) -> u16;

    /// Remembers whether an open file refers to the socket.
    fn set_has_open_file(&mut self, val: bool);

    /// Closes the socket.
    fn close(&mut self, cb_queue: &mut EventQueue) -> Result<(), SyscallError>;

    /// Replaces the status flags.
    fn set_status(&mut self, status: FileStatus);

    /// Handles an ioctl request.
    fn ioctl(&mut self, request: u64) -> Result<i32, SyscallError>;

    /// Subscribes the status listener object at `ptr`. Returns whether it was subscribed now.
    fn add_legacy_listener(&mut self, ptr: usize) -> bool
        requires
            ptr != 0,
    ;

    /// Ends the subscription of the status listener object at `ptr`. Returns whether there was one.
    fn remove_legacy_listener(&mut self, ptr: usize) -> bool
        requires
            ptr != 0,
    ;

    /// Binds the socket.
    fn bind(&mut self, addr: Option<SockaddrStorage>) -> Result<i32, SyscallError>;

    /// Connects to `addr`.
    fn connect(&mut self, addr: SockaddrStorage, cb_queue: &mut EventQueue) -> Result<
        (),
        SyscallError,
    >;

    /// Accepts a connection, as a socket that can be shared.
    fn accept(&mut self, cb_queue: &mut EventQueue) -> Result<
        Arc<AtomicRefCell<Self>>,
        SyscallError,
    > where Self: Sized;

    /// Reads bytes.
    fn read(&mut self, bytes: &mut [u8], offset: i64, cb_queue: &mut EventQueue) -> Result<
        i32,
        SyscallError,
    >;

    /// Writes bytes.
    fn write(&mut self, source: &[u8], offset: i64, cb_queue: &mut EventQueue) -> Result<
        i32,
        SyscallError,
    >;

    /// Sends bytes to `addr`, or to the peer.
    fn sendto(
        &mut self,
        source: &[u8],
        addr: Option<SockaddrStorage>,
        cb_queue: &mut EventQueue,
    ) -> Result<i32, SyscallError>;

    /// Receives bytes, along with the address that they are from.
    fn recvfrom(&mut self, bytes: &mut [u8], cb_queue: &mut EventQueue) -> Result<
        (i32, Option<SockaddrStorage>),
        SyscallError,
    >;

    /// Listens for connections.
    fn listen(&mut self, backlog: i32, cb_queue: &mut EventQueue) -> Result<(), SyscallError>;
}

/// A socket that can be looked at.
pub enum SocketRef<'a, U> {
    Unix(&'a U),
    Netlink(&'a NetlinkSocket),
}

/// A socket that can be changed.
pub enum SocketRefMut<'a, U> {
    Unix(&'a mut U),
    Netlink(&'a mut NetlinkSocket),
}

impl<'a, U: UnixSocketFile> SocketRef<'a, U> {
    /// The state.
    pub fn state(&self) -> (r: FileState)
        ensures
            match self {
                SocketRef::Unix(socket) => call_ensures(U::state, (socket,), r),
                SocketRef::Netlink(socket) => r == socket@.common.state,
            },
    {
        match self {
            SocketRef::Unix(socket) => socket.state(),
            SocketRef::Netlink(socket) => socket.state(),
        }
    }

    /// The status flags.
    pub fn get_status(&self) -> (r: FileStatus)
        ensures
            match self {
                SocketRef::Unix(socket) => call_ensures(U::get_status, (socket,), r),
                SocketRef::Netlink(socket) => r == socket@.common.status,
            },
    {
        match self {
            SocketRef::Unix(socket) => socket.get_status(),
            SocketRef::Netlink(socket) => socket.get_status(),
        }
    }

    /// Whether an open file refers to the socket.
    pub fn has_open_file(&self) -> (r: bool)
        ensures
            match self {
                SocketRef::Unix(socket) => call_ensures(U::has_open_file, (socket,), r),
                SocketRef::Netlink(socket) => r == socket@.common.has_open_file,
            },
    {
        match self {
            SocketRef::Unix(socket) => socket.has_open_file(),
            SocketRef::Netlink(socket) => socket.has_open_file(),
        }
    }

    /// Whether a blocked call is restarted after a signal handler has run.
    pub fn supports_sa_restart(&self) -> (r: bool)
        ensures
            match self {
                SocketRef::Unix(socket) => call_ensures(U::supports_sa_restart, (socket,), r),
                SocketRef::Netlink(socket) => r,
            },
    {
        match self {
            SocketRef::Unix(socket) => socket.supports_sa_restart(),
            SocketRef::Netlink(socket) => socket.supports_sa_restart(),
        }
    }

    /// The mode that the socket was opened with. It is not defined for a netlink socket.
    pub fn mode(&self) -> (r: FileMode)
        requires
            self is Unix,
        ensures
            self matches SocketRef::Unix(socket) ==> call_ensures(U::mode, (socket,), r),
    {
        match self {
            SocketRef::Unix(socket) => socket.mode(),
            SocketRef::Netlink(_) => vstd::pervasive::unreached(),
        }
    }

    /// The address of the peer. It is not defined for a netlink socket.
    pub fn getpeername(&self) -> (r: Result<Option<SockaddrStorage>, SyscallError>)
        requires
            self is Unix,
        ensures
            self matches SocketRef::Unix(socket) ==> call_ensures(U::getpeername, (socket,), r),
    {
        match self {
            SocketRef::Unix(socket) => socket.getpeername(),
            SocketRef::Netlink(_) => vstd::pervasive::unreached(),
        }
    }

    /// The address that the socket is bound to. It is not defined for a netlink socket.
    pub fn getsockname(&self) -> (r: Result<Option<SockaddrStorage>, SyscallError>)
        requires
            self is Unix,
        ensures
            self matches SocketRef::Unix(socket) ==> call_ensures(U::getsockname, (socket,), r),
    {
        match self {
            SocketRef::Unix(socket) => socket.getsockname(),
            SocketRef::Netlink(_) => vstd::pervasive::unreached(),
        }
    }

    /// The number of the address family. It is not defined for a netlink socket.
    pub fn address_family(&self) -> (r: u16)
        requires
            self is Unix,
        ensures
            self matches SocketRef::Unix(socket) ==> call_ensures(U::address_family, (socket,), r),
    {
        match self {
            SocketRef::Unix(socket) => socket.address_family(),
            SocketRef::Netlink(_) => vstd::pervasive::unreached(),
        }
    }
}

impl<'a, U: UnixSocketFile> SocketRefMut<'a, U> {
    /// The state.
    pub fn state(&self) -> (r: FileState)
        ensures
            match self {
                SocketRefMut::Unix(socket) => call_ensures(U::state, (&**socket,), r),
                SocketRefMut::Netlink(socket) => r == socket@.common.state,
            },
    {
        match self {
            SocketRefMut::Unix(socket) => socket.state(),
            SocketRefMut::Netlink(socket) => socket.state(),
        }
    }

    /// The status flags.
    pub fn get_status(&self) -> (r: FileStatus)
        ensures
            match self {
                SocketRefMut::Unix(socket) => call_ensures(U::get_status, (&**socket,), r),
                SocketRefMut::Netlink(socket) => r == socket@.common.status,
            },
    {
        match self {
            SocketRefMut::Unix(socket) => socket.get_status(),
            SocketRefMut::Netlink(socket) => socket.get_status(),
        }
    }

    /// Whether an open file refers to the socket.
    pub fn has_open_file(&self) -> (r: bool)
        ensures
            match self {
                SocketRefMut::Unix(socket) => call_ensures(U::has_open_file, (&**socket,), r),
                SocketRefMut::Netlink(socket) => r == socket@.common.has_open_file,
            },
    {
        match self {
            SocketRefMut::Unix(socket) => socket.has_open_file(),
            SocketRefMut::Netlink(socket) => socket.has_open_file(),
        }
    }

    /// Whether a blocked call is restarted after a signal handler has run.
    pub fn supports_sa_restart(&self) -> (r: bool)
        ensures
            match self {
                SocketRefMut::Unix(socket) => call_ensures(U::supports_sa_restart, (&**socket,), r),
                SocketRefMut::Netlink(socket) => r,
            },
    {
        match self {
            SocketRefMut::Unix(socket) => socket.supports_sa_restart(),
            SocketRefMut::Netlink(socket) => socket.supports_sa_restart(),
        }
    }

    /// The mode that the socket was opened with. It is not defined for a netlink socket.
    pub fn mode(&self) -> (r: FileMode)
        requires
            self is Unix,
        ensures
            self matches SocketRefMut::Unix(socket) ==> call_ensures(U::mode, (&**socket,), r),
    {
        match self {
            SocketRefMut::Unix(socket) => socket.mode(),
            SocketRefMut::Netlink(_) => vstd::pervasive::unreached(),
        }
    }

    /// The address of the peer. It is not defined for a netlink socket.
    pub fn getpeername(&self) -> (r: Result<Option<SockaddrStorage>, SyscallError>)
        requires
            self is Unix,
        ensures
            self matches SocketRefMut::Unix(socket) ==> call_ensures(
                U::getpeername,
                (&**socket,),
                r,
            ),
    {
        match self {
            SocketRefMut::Unix(socket) => socket.getpeername(),
            SocketRefMut::Netlink(_) => vstd::pervasive::unreached(),
        }
    }

    /// The address that the socket is bound to. It is not defined for a netlink socket.
    pub fn getsockname(&self) -> (r: Result<Option<SockaddrStorage>, SyscallError>)
        requires
            self is Unix,
        ensures
            self matches SocketRefMut::Unix(socket) ==> call_ensures(
                U::getsockname,
                (&**socket,),
                r,
            ),
    {
        match self {
            SocketRefMut::Unix(socket) => socket.getsockname(),
            SocketRefMut::Netlink(_) => vstd::pervasive::unreached(),
        }
    }

    /// The number of the address family. It is not defined for a netlink socket.
    pub fn address_family(&self) -> (r: u16)
        requires
            self is Unix,
        ensures
            self matches SocketRefMut::Unix(socket) ==> call_ensures(
                U::address_family,
                (&**socket,),
                r,
            ),
    {
        match self {
            SocketRefMut::Unix(socket) => socket.address_family(),
            SocketRefMut::Netlink(_) => vstd::pervasive::unreached(),
        }
    }

    /// Remembers whether an open file refers to the socket.
    pub fn set_has_open_file(self, val: bool) -> (r: ())
        requires
            self matches SocketRefMut::Netlink(socket) ==> socket.wf(),
        ensures
            match self {
                SocketRefMut::Unix(socket) => exists|unix: &mut U|
                    *unix == *socket && *final(unix) == *final(socket) && #[trigger] call_ensures(
                        U::set_has_open_file,
                        (unix, val),
                        r,
                    ),
                SocketRefMut::Netlink(socket) => final(socket).wf() && final(socket)@ == (
                NetlinkSocketView {
                    common: NetlinkView { has_open_file: val, ..socket@.common },
                    ..socket@
                }),
            },
    {
        match self {
            SocketRefMut::Unix(socket) => socket.set_has_open_file(val),
            SocketRefMut::Netlink(socket) => socket.set_has_open_file(val),
        }
    }

    /// Replaces the status flags.
    pub fn set_status(self, status: FileStatus) -> (r: ())
        requires
            self matches SocketRefMut::Netlink(socket) ==> socket.wf(),
        ensures
            match self {
                SocketRefMut::Unix(socket) => exists|unix: &mut U|
                    *unix == *socket && *final(unix) == *final(socket) && #[trigger] call_ensures(
                        U::set_status,
                        (unix, status),
                        r,
                    ),
                SocketRefMut::Netlink(socket) => final(socket).wf() && final(socket)@ == (
                NetlinkSocketView {
                    common: NetlinkView { status, ..socket@.common },
                    ..socket@
                }),
            },
    {
        match self {
            SocketRefMut::Unix(socket) => socket.set_status(status),
            SocketRefMut::Netlink(socket) => socket.set_status(status),
        }
    }

    /// Handles an ioctl request.
    pub fn ioctl(self, request: u64) -> (r: Result<i32, SyscallError>)
        ensures
            match self {
                SocketRefMut::Unix(socket) => exists|unix: &mut U|
                    *unix == *socket && *final(unix) == *final(socket) && #[trigger] call_ensures(
                        U::ioctl,
                        (unix, request),
                        r,
                    ),
                SocketRefMut::Netlink(socket) => r == Err::<i32, SyscallError>(
                    SyscallError::Failed(Errno::EINVAL),
                ) && *final(socket) == *socket,
            },
    {
        match self {
            SocketRefMut::Unix(socket) => socket.ioctl(request),
            SocketRefMut::Netlink(socket) => socket.ioctl(request),
        }
    }

    /// Subscribes the status listener object at `ptr`, unless it is subscribed already. Returns
    /// whether it was subscribed now.
    pub fn add_legacy_listener(self, ptr: usize) -> (r: bool)
        requires
            ptr != 0,
            self matches SocketRefMut::Netlink(socket) ==> socket.wf(),
        ensures
            match self {
                SocketRefMut::Unix(socket) => exists|unix: &mut U|
                    *unix == *socket && *final(unix) == *final(socket) && #[trigger] call_ensures(
                        U::add_legacy_listener,
                        (unix, ptr),
                        r,
                    ),
                SocketRefMut::Netlink(socket) => {
                    &&& final(socket).wf()
                    &&& r == !has_legacy(socket@.common.listeners, ptr)
                    &&& final(socket)@ == (NetlinkSocketView {
                        common: NetlinkView {
                            listeners: final(socket)@.common.listeners,
                            ..socket@.common
                        },
                        ..socket@
                    })
                    &&& !r ==> final(socket)@.common.listeners == socket@.common.listeners
                    &&& r ==> legacy_added(
                        socket@.common.listeners,
                        final(socket)@.common.listeners,
                        ptr,
                    )
                },
            },
    {
        match self {
            SocketRefMut::Unix(socket) => socket.add_legacy_listener(ptr),
            SocketRefMut::Netlink(socket) => socket.add_legacy_listener(ptr),
        }
    }

    /// Ends the subscription of the status listener object at `ptr`, if there is one. Returns
    /// whether there was one.
    pub fn remove_legacy_listener(self, ptr: usize) -> (r: bool)
        requires
            ptr != 0,
            self matches SocketRefMut::Netlink(socket) ==> socket.wf(),
        ensures
            match self {
                SocketRefMut::Unix(socket) => exists|unix: &mut U|
                    *unix == *socket && *final(unix) == *final(socket) && #[trigger] call_ensures(
                        U::remove_legacy_listener,
                        (unix, ptr),
                        r,
                    ),
                SocketRefMut::Netlink(socket) => {
                    &&& final(socket).wf()
                    &&& r == has_legacy(socket@.common.listeners, ptr)
                    &&& final(socket)@ == (NetlinkSocketView {
                        common: NetlinkView {
                            listeners: without_legacy(socket@.common.listeners, ptr),
                            ..socket@.common
                        },
                        ..socket@
                    })
                },
            },
    {
        match self {
            SocketRefMut::Unix(socket) => socket.remove_legacy_listener(ptr),
            SocketRefMut::Netlink(socket) => socket.remove_legacy_listener(ptr),
        }
    }

    /// Binds the socket.
    pub fn bind(self, addr: Option<SockaddrStorage>) -> (r: Result<i32, SyscallError>)
        requires
            self matches SocketRefMut::Netlink(socket) ==> socket.wf(),
        ensures
            match self {
                SocketRefMut::Unix(socket) => exists|unix: &mut U|
                    *unix == *socket && *final(unix) == *final(socket) && #[trigger] call_ensures(
                        U::bind,
                        (unix, addr),
                        r,
                    ),
                SocketRefMut::Netlink(socket) => {
                    &&& final(socket).wf()
                    &&& r == socket@.protocol_state.bind_outcome(addr)
                    &&& final(socket)@ == (NetlinkSocketView {
                        protocol_state: socket@.protocol_state.after_bind(addr),
                        ..socket@
                    })
                },
            },
    {
        match self {
            SocketRefMut::Unix(socket) => socket.bind(addr),
            SocketRefMut::Netlink(socket) => socket.bind(addr),
        }
    }

    /// Closes the socket. A netlink socket cannot be closed.
    pub fn close(self, cb_queue: &mut EventQueue) -> (r: Result<(), SyscallError>)
        requires
            self is Unix,
        ensures
            self matches SocketRefMut::Unix(socket) ==> exists|unix: &mut U, queue: &mut EventQueue|
                {
                    &&& *unix == *socket && *final(unix) == *final(socket)
                    &&& *queue == *old(cb_queue) && *final(queue) == *final(cb_queue)
                    &&& #[trigger] call_ensures(U::close, (unix, queue), r)
                },
    {
        match self {
            SocketRefMut::Unix(socket) => socket.close(cb_queue),
            SocketRefMut::Netlink(_) => vstd::pervasive::unreached(),
        }
    }

    /// Listens for connections. A netlink socket cannot.
    pub fn listen(self, backlog: i32, cb_queue: &mut EventQueue) -> (r: Result<(), SyscallError>)
        requires
            self is Unix,
        ensures
            self matches SocketRefMut::Unix(socket) ==> exists|unix: &mut U, queue: &mut EventQueue|
                {
                    &&& *unix == *socket && *final(unix) == *final(socket)
                    &&& *queue == *old(cb_queue) && *final(queue) == *final(cb_queue)
                    &&& #[trigger] call_ensures(U::listen, (unix, backlog, queue), r)
                },
    {
        match self {
            SocketRefMut::Unix(socket) => socket.listen(backlog, cb_queue),
            SocketRefMut::Netlink(_) => vstd::pervasive::unreached(),
        }
    }

    /// Connects to `addr`. A netlink socket cannot.
    pub fn connect(self, addr: SockaddrStorage, cb_queue: &mut EventQueue) -> (r: Result<
        (),
        SyscallError,
    >)
        requires
            self is Unix,
        ensures
            self matches SocketRefMut::Unix(socket) ==> exists|unix: &mut U, queue: &mut EventQueue|
                {
                    &&& *unix == *socket && *final(unix) == *final(socket)
                    &&& *queue == *old(cb_queue) && *final(queue) == *final(cb_queue)
                    &&& #[trigger] call_ensures(U::connect, (unix, addr, queue), r)
                },
    {
        match self {
            SocketRefMut::Unix(socket) => socket.connect(addr, cb_queue),
            SocketRefMut::Netlink(_) => vstd::pervasive::unreached(),
        }
    }

    /// Accepts a connection. A netlink socket cannot.
    pub fn accept(self, cb_queue: &mut EventQueue) -> (r: Result<Socket<U>, SyscallError>)
        requires
            self is Unix,
        ensures
            self matches SocketRefMut::Unix(socket) ==> exists|
                unix: &mut U,
                queue: &mut EventQueue,
                accepted: Result<Arc<AtomicRefCell<U>>, SyscallError>,
            |
                {
                    &&& *unix == *socket && *final(unix) == *final(socket)
                    &&& *queue == *old(cb_queue) && *final(queue) == *final(cb_queue)
                    &&& #[trigger] call_ensures(U::accept, (unix, queue), accepted)
                    &&& r == (match accepted {
                        Ok(socket) => Ok::<Socket<U>, SyscallError>(Socket::Unix(socket)),
                        Err(error) => Err::<Socket<U>, SyscallError>(error),
                    })
                },
    {
        match self {
            SocketRefMut::Unix(socket) => match socket.accept(cb_queue) {
                Ok(socket) => Ok(Socket::Unix(socket)),
                Err(error) => Err(error),
            },
            SocketRefMut::Netlink(_) => vstd::pervasive::unreached(),
        }
    }

    /// Reads bytes. It is not defined for a netlink socket.
    pub fn read(
        self,
        bytes: &mut [u8],
        offset: i64,
        cb_queue: &mut EventQueue,
    ) -> (r: Result<i32, SyscallError>)
        requires
            self is Unix,
        ensures
            self matches SocketRefMut::Unix(socket) ==> exists|
                unix: &mut U,
                buffer: &mut [u8],
                queue: &mut EventQueue,
            |
                {
                    &&& *unix == *socket && *final(unix) == *final(socket)
                    &&& buffer@ == old(bytes)@ && final(buffer)@ == final(bytes)@
                    &&& *queue == *old(cb_queue) && *final(queue) == *final(cb_queue)
                    &&& #[trigger] call_ensures(U::read, (unix, buffer, offset, queue), r)
                },
    {
        match self {
            SocketRefMut::Unix(socket) => socket.read(bytes, offset, cb_queue),
            SocketRefMut::Netlink(_) => vstd::pervasive::unreached(),
        }
    }

    /// Writes bytes. It is not defined for a netlink socket.
    pub fn write(
        self,
        source: &[u8],
        offset: i64,
        cb_queue: &mut EventQueue,
    ) -> (r: Result<i32, SyscallError>)
        requires
            self is Unix,
        ensures
            self matches SocketRefMut::Unix(socket) ==> exists|unix: &mut U, queue: &mut EventQueue|
                {
                    &&& *unix == *socket && *final(unix) == *final(socket)
                    &&& *queue == *old(cb_queue) && *final(queue) == *final(cb_queue)
                    &&& #[trigger] call_ensures(U::write, (unix, source, offset, queue), r)
                },
    {
        match self {
            SocketRefMut::Unix(socket) => socket.write(source, offset, cb_queue),
            SocketRefMut::Netlink(_) => vstd::pervasive::unreached(),
        }
    }

    /// Sends bytes. It is not defined for a netlink socket.
    pub fn sendto(
        self,
        source: &[u8],
        addr: Option<SockaddrStorage>,
        cb_queue: &mut EventQueue,
    ) -> (r: Result<i32, SyscallError>)
        requires
            self is Unix,
        ensures
            self matches SocketRefMut::Unix(socket) ==> exists|unix: &mut U, queue: &mut EventQueue|
                {
                    &&& *unix == *socket && *final(unix) == *final(socket)
                    &&& *queue == *old(cb_queue) && *final(queue) == *final(cb_queue)
                    &&& #[trigger] call_ensures(U::sendto, (unix, source, addr, queue), r)
                },
    {
        match self {
            SocketRefMut::Unix(socket) => socket.sendto(source, addr, cb_queue),
            SocketRefMut::Netlink(_) => vstd::pervasive::unreached(),
        }
    }

    /// Receives bytes. It is not defined for a netlink socket.
    pub fn recvfrom(
        self,
        bytes: &mut [u8],
        cb_queue: &mut EventQueue,
    ) -> (r: Result<(i32, Option<SockaddrStorage>), SyscallError>)
        requires
            self is Unix,
        ensures
            self matches SocketRefMut::Unix(socket) ==> exists|
                unix: &mut U,
                buffer: &mut [u8],
                queue: &mut EventQueue,
            |
                {
                    &&& *unix == *socket && *final(unix) == *final(socket)
                    &&& buffer@ == old(bytes)@ && final(buffer)@ == final(bytes)@
                    &&& *queue == *old(cb_queue) && *final(queue) == *final(cb_queue)
                    &&& #[trigger] call_ensures(U::recvfrom, (unix, buffer, queue), r)
                },
    {
        match self {
            SocketRefMut::Unix(socket) => socket.recvfrom(bytes, cb_queue),
            SocketRefMut::Netlink(_) => vstd::pervasive::unreached(),
        }
    }
}

} // verus!
