//! Netlink sockets.
//!
//! What is sent to a netlink socket waits in its buffer until it is read. Reading takes the oldest
//! packet out and hands out the kernel's answer to it.
use crate::errno::{Errno, SyscallError};
use crate::events::{
    announcements, distinct_ids, distinct_legacy, has_id, has_legacy, legacy_added,
    without_filtered, without_legacy, EventQueue, Handle, Listener, NewStatusListenerFilter,
    StatusEventSource, Subscription,
};
use crate::flags::{FileState, FileStatus};
use crate::rtnetlink::{
    answer, has_plausible_length, is_answer, law_reply_len, length_plausible, request_of,
};
use crate::sockaddr::{NetlinkAddr, SockaddrStorage};
use crate::text::{push_signed_decimal, signed_decimal};
use nix::sys::socket::MsgFlags;
use vstd::prelude::*;
use vstd::std_specs::convert::{TryFromSpec, TryFromSpecImpl};

verus! {

/// How many bytes may be in flight.
pub const NETLINK_SOCKET_DEFAULT_BUFFER_SIZE: u64 = 212_992;

/// The number of `MSG_TRUNC`.
pub const MSG_TRUNC: i32 = 0x20;

/// The number of `MSG_DONTWAIT`.
pub const MSG_DONTWAIT: i32 = 0x40;

/// The number of `MSG_NOSIGNAL`.
pub const MSG_NOSIGNAL: i32 = 0x4000;

/// The flags that `MsgFlags` knows on Linux: `MSG_OOB`, `MSG_PEEK`, `MSG_CTRUNC`, `MSG_TRUNC`,
/// `MSG_DONTWAIT`, `MSG_EOR`, `MSG_WAITALL`, `MSG_ERRQUEUE`, `MSG_NOSIGNAL` and
/// `MSG_CMSG_CLOEXEC`.
pub const KNOWN_MSG_FLAGS: i32 = 0x1 | 0x2 | 0x8 | 0x20 | 0x40 | 0x80 | 0x100 | 0x2000 | 0x4000
    | 0x4000_0000;

/// The flags that sending supports. `MSG_NOSIGNAL` is a no-op, since netlink sockets are not
/// stream-oriented, and `MSG_TRUNC` doesn't do anything when sending.
pub const SEND_FLAGS: i32 = 0x40 | 0x4000 | 0x20;

/// The flags that receiving supports.
pub const RECV_FLAGS: i32 = 0x40 | 0x20;

/// Reads a number as message flags, if all of them are known.
///
/// This is `MsgFlags::from_bits` of `nix`. It is trusted to refuse a number exactly if it has a
/// bit that stands for no known flag, and to keep the bits otherwise.
#[verifier::external_body]
fn known_msg_flags(flags: i32) -> (r: Option<i32>)
    ensures
        r == (if flags & !KNOWN_MSG_FLAGS == 0 {
            Some(flags)
        } else {
            None
        }),
{
    MsgFlags::from_bits(flags).map(|flags| flags.bits())
}

/// The sum of the lengths of the parts of a message.
pub open spec fn total(lens: Seq<usize>) -> nat
    decreases lens.len(),
{
    if lens.len() == 0 {
        0
    } else {
        total(lens.drop_last()) + lens.last() as nat
    }
}

proof fn lemma_total_take(lens: Seq<usize>, i: int)
    requires
        0 <= i <= lens.len(),
    ensures
        total(lens.take(i)) <= total(lens),
    decreases lens.len(),
{
    if i < lens.len() {
        assert(lens.drop_last().take(i) == lens.take(i));
        lemma_total_take(lens.drop_last(), i);
    } else {
        assert(lens.take(i) == lens);
    }
}

fn sum(lens: &[usize]) -> (r: usize)
    requires
        total(lens@) <= usize::MAX,
    ensures
        r == total(lens@),
{
    let mut len: usize = 0;
    let mut i: usize = 0;
    while i < lens.len()
        invariant
            i <= lens.len(),
            len == total(lens@.take(i as int)),
            total(lens@) <= usize::MAX,
        decreases lens.len() - i,
    {
        proof {
            assert(lens@.take(i + 1).drop_last() == lens@.take(i as int));
            lemma_total_take(lens@, i + 1);
        }
        len = len + lens[i];
        i += 1;
    }
    assert(lens@.take(i as int) == lens@);
    len
}

/// A request to send a message.
pub struct SendmsgArgs {
    /// Whom the message is for.
    pub addr: Option<SockaddrStorage>,
    /// How long the parts of the message are.
    pub iov_lens: Vec<usize>,
    /// The message, or why it could not be read from the memory of the managed process.
    pub packet: Result<Vec<u8>, Errno>,
    /// Where the control data is in the memory of the managed process, or 0.
    pub control_ptr: usize,
    /// How to send.
    pub flags: i32,
}

impl SendmsgArgs {
    /// The message is as long as its parts together.
    pub open spec fn wf(self) -> bool {
        &&& total(self.iov_lens@) <= usize::MAX
        &&& self.packet matches Ok(packet) ==> packet@.len() == total(self.iov_lens@)
    }
}

/// A request to receive a message.
#[derive(Clone, Copy, PartialEq, Eq, Structural, Debug)]
pub struct RecvmsgArgs {
    /// Where the control data goes in the memory of the managed process, or 0.
    pub control_ptr: usize,
    /// How to receive.
    pub flags: i32,
}

/// What is returned along with a message that was received.
#[derive(Clone, Copy, PartialEq, Eq, Structural, Debug)]
pub struct RecvmsgReturn {
    /// The length of the message.
    pub return_val: isize,
    /// Whom the message is from.
    pub addr: Option<SockaddrStorage>,
    /// What the message flags are set to.
    pub msg_flags: i32,
    /// The length of the control data.
    pub control_len: usize,
}

/// The kinds of netlink sockets.
#[derive(Copy, Clone, Debug, Hash, PartialEq, Eq, Structural)]
pub enum NetlinkSocketType {
    Dgram,
    Raw,
}

/// The number of `SOCK_DGRAM`.
pub const SOCK_DGRAM: i32 = 2;

/// The number of `SOCK_RAW`.
pub const SOCK_RAW: i32 = 3;

/// The number of `NETLINK_ROUTE`.
pub const NETLINK_ROUTE: i32 = 0;

/// A socket type that netlink sockets do not support.
#[derive(Copy, Clone, Debug, PartialEq, Eq, Structural)]
pub struct NetlinkSocketTypeConversionError(pub i32);

impl NetlinkSocketTypeConversionError {
    /// What to tell the user.
    pub fn message(&self) -> (r: String)
        ensures
            r@ == "Invalid socket type "@ + signed_decimal(self.0 as int)
                + "; netlink sockets only support SOCK_DGRAM and SOCK_RAW"@,
    {
        let mut message = String::new();
        message.push_str("Invalid socket type ");
        push_signed_decimal(&mut message, self.0);
        message.push_str("; netlink sockets only support SOCK_DGRAM and SOCK_RAW");
        message
    }
}

impl TryFrom<i32> for NetlinkSocketType {
    type Error = NetlinkSocketTypeConversionError;

    fn try_from(val: i32) -> (r: Result<NetlinkSocketType, NetlinkSocketTypeConversionError>)
    {
        if val == SOCK_DGRAM {
            Ok(NetlinkSocketType::Dgram)
        } else if val == SOCK_RAW {
            Ok(NetlinkSocketType::Raw)
        } else {
            Err(NetlinkSocketTypeConversionError(val))
        }
    }
}

impl TryFromSpecImpl<i32> for NetlinkSocketType {
    open spec fn obeys_try_from_spec() -> bool {
        true
    }

    open spec fn try_from_spec(val: i32) -> Result<
        NetlinkSocketType,
        NetlinkSocketTypeConversionError,
    > {
        if val == SOCK_DGRAM {
            Ok(NetlinkSocketType::Dgram)
        } else if val == SOCK_RAW {
            Ok(NetlinkSocketType::Raw)
        } else {
            Err(NetlinkSocketTypeConversionError(val))
        }
    }
}

/// The netlink families.
#[derive(Copy, Clone, Debug, Hash, PartialEq, Eq, Structural)]
pub enum NetlinkFamily {
    Route,
}

/// A netlink family that is not supported.
#[derive(Copy, Clone, Debug, PartialEq, Eq, Structural)]
pub struct NetlinkFamilyConversionError(pub i32);

impl NetlinkFamilyConversionError {
    /// What to tell the user.
    pub fn message(&self) -> (r: String)
        ensures
            r@ == "Invalid netlink family "@ + signed_decimal(self.0 as int)
                + "; netlink families only support NETLINK_ROUTE"@,
    {
        let mut message = String::new();
        message.push_str("Invalid netlink family ");
        push_signed_decimal(&mut message, self.0);
        message.push_str("; netlink families only support NETLINK_ROUTE");
        message
    }
}

impl TryFrom<i32> for NetlinkFamily {
    type Error = NetlinkFamilyConversionError;

    fn try_from(val: i32) -> (r: Result<NetlinkFamily, NetlinkFamilyConversionError>)
    {
        if val == NETLINK_ROUTE {
            Ok(NetlinkFamily::Route)
        } else {
            Err(NetlinkFamilyConversionError(val))
        }
    }
}

impl TryFromSpecImpl<i32> for NetlinkFamily {
    open spec fn obeys_try_from_spec() -> bool {
        true
    }

    open spec fn try_from_spec(val: i32) -> Result<NetlinkFamily, NetlinkFamilyConversionError> {
        if val == NETLINK_ROUTE {
            Ok(NetlinkFamily::Route)
        } else {
            Err(NetlinkFamilyConversionError(val))
        }
    }
}

/// The number of bytes in `packets`.
pub open spec fn packets_len(packets: Seq<Seq<u8>>) -> nat
    decreases packets.len(),
{
    if packets.len() == 0 {
        0
    } else {
        packets[0].len() + packets_len(packets.drop_first())
    }
}

proof fn lemma_packets_len_push(packets: Seq<Seq<u8>>, packet: Seq<u8>)
    ensures
        packets_len(packets.push(packet)) == packets_len(packets) + packet.len(),
    decreases packets.len(),
{
    let pushed = packets.push(packet);
    if packets.len() == 0 {
        assert(pushed.drop_first() == Seq::<Seq<u8>>::empty());
        reveal_with_fuel(packets_len, 2);
    } else {
        assert(pushed.drop_first() == packets.drop_first().push(packet));
        lemma_packets_len_push(packets.drop_first(), packet);
    }
}

/// What all netlink sockets have in common, apart from how it is stored.
#[verifier::ext_equal]
pub struct NetlinkView {
    /// The packets that were sent and not yet read, the oldest first.
    pub packets: Seq<Seq<u8>>,
    /// Who is told about changes of the state.
    pub listeners: Seq<Listener>,
    /// The state.
    pub state: FileState,
    /// The status flags.
    pub status: FileStatus,
    /// Whether an open file refers to the socket.
    pub has_open_file: bool,
}

impl NetlinkView {
    /// The number of "in flight" bytes (sent but not yet read).
    pub open spec fn in_flight(self) -> nat {
        packets_len(self.packets)
    }

    /// Whether a call with these flags fails instead of blocking.
    pub open spec fn dont_wait(self, flags: i32) -> bool {
        flags & MSG_DONTWAIT == MSG_DONTWAIT || self.status.contains(FileStatus::nonblock())
    }

    /// What becomes of a call with these flags that failed with `errno`: if it would block, it
    /// waits for one of the flags in `state`, unless it was told not to.
    pub open spec fn failure(self, flags: i32, errno: Errno, state: FileState) -> SyscallError {
        if errno == Errno::EAGAIN && !self.dont_wait(flags) {
            SyscallError::Blocked { state, restartable: true }
        } else {
            SyscallError::Failed(errno)
        }
    }

    /// What appending a packet that consists of parts of these lengths to the buffer comes to: the
    /// length of the packet, or an error. A packet that could never be sent is refused for good.
    pub open spec fn push_outcome(
        self,
        iov_lens: Seq<usize>,
        packet: Result<Vec<u8>, Errno>,
    ) -> Result<nat, Errno> {
        let len = total(iov_lens);
        let space_available = NETLINK_SOCKET_DEFAULT_BUFFER_SIZE - self.in_flight();
        if space_available == 0 {
            Err(Errno::EAGAIN)
        } else if len > NETLINK_SOCKET_DEFAULT_BUFFER_SIZE {
            Err(Errno::EMSGSIZE)
        } else if len > space_available {
            Err(Errno::EAGAIN)
        } else {
            match packet {
                Err(errno) => Err(errno),
                Ok(_) => Ok(len),
            }
        }
    }

    /// What sending a packet that consists of parts of these lengths comes to: the length of the
    /// packet, or an error.
    pub open spec fn send_outcome(
        self,
        flags: i32,
        iov_lens: Seq<usize>,
        packet: Result<Vec<u8>, Errno>,
    ) -> Result<nat, SyscallError> {
        if flags & !SEND_FLAGS != 0 {
            Err(SyscallError::Failed(Errno::EINVAL))
        } else {
            match self.push_outcome(iov_lens, packet) {
                Ok(len) => Ok(len),
                Err(errno) => Err(self.failure(flags, errno, FileState::writable())),
            }
        }
    }

    /// Why nothing can be received with these flags, if nothing can.
    pub open spec fn recv_error(self, flags: i32) -> Option<SyscallError> {
        if flags & !RECV_FLAGS != 0 {
            Some(SyscallError::Failed(Errno::EINVAL))
        } else if self.packets.len() == 0 {
            Some(self.failure(flags, Errno::EAGAIN, FileState::readable()))
        } else {
            None
        }
    }

    /// The socket after its state was brought in line with its buffer: readable if something was
    /// sent, writable if there is room for more.
    pub open spec fn refreshed(self) -> NetlinkView {
        NetlinkView {
            state: FileState {
                active: true,
                readable: self.packets.len() > 0,
                writable: self.in_flight() < NETLINK_SOCKET_DEFAULT_BUFFER_SIZE,
                ..FileState::empty()
            },
            ..self
        }
    }

    /// The socket with one more packet in its buffer.
    pub open spec fn with_packet(self, packet: Seq<u8>) -> NetlinkView {
        NetlinkView { packets: self.packets.push(packet), ..self }
    }

    /// The socket without the oldest packet in its buffer.
    pub open spec fn without_packet(self) -> NetlinkView {
        NetlinkView { packets: self.packets.drop_first(), ..self }
    }
}

/// How long a message is said to be of which `copied` bytes were copied and `removed` bytes were
/// removed from the buffer: with `MSG_TRUNC` the total size of the message, not the number of bytes
/// that were copied.
pub fn received_len(flags: i32, copied: usize, removed: usize) -> (r: usize)
    ensures
        r == (if flags & MSG_TRUNC == MSG_TRUNC {
            removed
        } else {
            copied
        }),
{
    if flags & MSG_TRUNC == MSG_TRUNC {
        removed
    } else {
        copied
    }
}

/// Common data and functionality that is useful for all states.
pub struct NetlinkSocketCommon {
    buffer: Vec<Vec<u8>>,
    /// The max number of "in flight" bytes (sent but not yet read from the receiving socket).
    send_limit: u64,
    /// The number of "in flight" bytes.
    sent_len: u64,
    event_source: StatusEventSource,
    state: FileState,
    status: FileStatus,
    // should only be used by an open file to make sure there is only ever one open file for this
    // file
    has_open_file: bool,
}

impl View for NetlinkSocketCommon {
    type V = NetlinkView;

    closed spec fn view(&self) -> NetlinkView {
        NetlinkView {
            packets: Seq::new(self.buffer@.len(), |i: int| self.buffer@[i]@),
            listeners: self.event_source@,
            state: self.state,
            status: self.status,
            has_open_file: self.has_open_file,
        }
    }
}

impl NetlinkSocketCommon {
    /// The count of the bytes in flight is right and within the limit, and the listeners are in
    /// order.
    pub closed spec fn wf(self) -> bool {
        &&& self.send_limit == NETLINK_SOCKET_DEFAULT_BUFFER_SIZE
        &&& self.sent_len == self@.in_flight()
        &&& self.sent_len <= self.send_limit
        &&& self.event_source.wf()
    }

    /// At most as many bytes as the limit says are in flight.
    pub proof fn law_within_limit(self)
        requires
            self.wf(),
        ensures
            self@.in_flight() <= NETLINK_SOCKET_DEFAULT_BUFFER_SIZE,
    {
    }

    /// The listeners have distinct numbers, and each status listener object is there at most once,
    /// however often it was added.
    pub proof fn law_distinct(self)
        requires
            self.wf(),
        ensures
            distinct_ids(self@.listeners),
            distinct_legacy(self@.listeners),
    {
        self.event_source.law_distinct();
    }

    /// A socket to which nothing was sent.
    pub fn new(status: FileStatus) -> (r: NetlinkSocketCommon)
        ensures
            r.wf(),
            r@ == (NetlinkView {
                packets: Seq::empty(),
                listeners: Seq::empty(),
                state: FileState::active(),
                status,
                has_open_file: false,
            }),
    {
        NetlinkSocketCommon {
            buffer: Vec::new(),
            send_limit: NETLINK_SOCKET_DEFAULT_BUFFER_SIZE,
            sent_len: 0,
            event_source: StatusEventSource::new(),
            state: FileState::active(),
            status,
            has_open_file: false,
        }
    }

    /// A blocked call on a netlink socket is restarted after a signal handler has run.
    pub fn supports_sa_restart(&self) -> (r: bool)
        ensures
            r,
    {
        true
    }

    /// Whether a call with these flags fails instead of blocking.
    fn dont_wait(&self, flags: i32) -> (r: bool)
        ensures
            r == self@.dont_wait(flags),
    {
        let mut flags: i32 = flags;
        if self.status.contains(FileStatus::nonblock()) {
            assert((flags | MSG_DONTWAIT) & MSG_DONTWAIT == MSG_DONTWAIT) by (bit_vector);
            flags = flags | MSG_DONTWAIT;
        }
        flags & MSG_DONTWAIT == MSG_DONTWAIT
    }

    /// Sends the packet directly to the buffer of the socket so that it will be processed when the
    /// socket is read.
    pub fn sendmsg(
        &mut self,
        iov_lens: &[usize],
        packet: Result<Vec<u8>, Errno>,
        flags: i32,
    ) -> (r: Result<usize, SyscallError>)
        requires
            old(self).wf(),
            total(iov_lens@) <= usize::MAX,
            packet matches Ok(bytes) ==> bytes@.len() == total(iov_lens@),
        ensures
            final(self).wf(),
            match old(self)@.send_outcome(flags, iov_lens@, packet) {
                Err(error) => r == Err::<usize, SyscallError>(error) && final(self)@ == old(self)@,
                Ok(len) => r matches Ok(sent) && sent == len && final(self)@
                    == old(self)@.with_packet(packet->Ok_0@),
            },
    {
        proof {
            assert(flags & !KNOWN_MSG_FLAGS != 0 ==> flags & !SEND_FLAGS != 0) by (bit_vector);
        }
        // if there's a flag we don't support, it's probably best to raise an error rather than do
        // the wrong thing
        let flags: i32 = match known_msg_flags(flags) {
            Some(flags) => flags,
            None => {
                return Err(SyscallError::Failed(Errno::EINVAL));
            },
        };
        if flags & !SEND_FLAGS != 0 {
            return Err(SyscallError::Failed(Errno::EINVAL));
        }
        match self.push_packet(iov_lens, packet) {
            Ok(len) => Ok(len),
            // if the syscall would block and we don't have the MSG_DONTWAIT flag
            Err(Errno::EAGAIN) if !self.dont_wait(flags) => Err(
                SyscallError::Blocked {
                    state: FileState::writable(),
                    restartable: self.supports_sa_restart(),
                },
            ),
            Err(errno) => Err(SyscallError::Failed(errno)),
        }
    }

    /// Appends a packet to the buffer.
    fn push_packet(&mut self, iov_lens: &[usize], packet: Result<Vec<u8>, Errno>) -> (r: Result<
        usize,
        Errno,
    >)
        requires
            old(self).wf(),
            total(iov_lens@) <= usize::MAX,
            packet matches Ok(bytes) ==> bytes@.len() == total(iov_lens@),
        ensures
            final(self).wf(),
            match old(self)@.push_outcome(iov_lens@, packet) {
                Err(errno) => r == Err::<usize, Errno>(errno) && final(self)@ == old(self)@,
                Ok(len) => r matches Ok(sent) && sent == len && final(self)@
                    == old(self)@.with_packet(packet->Ok_0@),
            },
    {
        let len = sum(iov_lens);
        // we keep track of the send buffer size manually
        let space_available: usize = (self.send_limit - self.sent_len) as usize;
        if space_available == 0 {
            return Err(Errno::EAGAIN);
        }
        if len > space_available {
            if len <= self.send_limit as usize {
                // we can send this when the buffer has more space available
                return Err(Errno::EAGAIN);
            } else {
                // we could never send this message
                return Err(Errno::EMSGSIZE);
            }
        }
        let packet = match packet {
            Ok(packet) => packet,
            Err(errno) => {
                return Err(errno);
            },
        };
        proof {
            lemma_packets_len_push(self@.packets, packet@);
        }
        self.buffer.push(packet);
        // if we successfully sent bytes, update the sent count
        self.sent_len = self.sent_len + len as u64;
        assert(self@.packets == old(self)@.packets.push(packet@));
        Ok(len)
    }

    /// Takes the oldest packet out of the buffer and appends it to `dst`. Returns how many bytes
    /// were copied and how many were removed from the buffer.
    pub fn recvmsg(&mut self, dst: &mut Vec<u8>, flags: i32) -> (r: Result<
        (usize, usize),
        SyscallError,
    >)
        requires
            old(self).wf(),
        ensures
            final(self).wf(),
            match old(self)@.recv_error(flags) {
                Some(error) => {
                    &&& r == Err::<(usize, usize), SyscallError>(error)
                    &&& final(self)@ == old(self)@
                    &&& final(dst)@ == old(dst)@
                },
                None => {
                    &&& r matches Ok((copied, removed)) && copied == old(self)@.packets[0].len()
                        && removed == copied
                    &&& final(self)@ == old(self)@.without_packet()
                    &&& final(dst)@ == old(dst)@ + old(self)@.packets[0]
                },
            },
    {
        proof {
            assert(flags & !KNOWN_MSG_FLAGS != 0 ==> flags & !RECV_FLAGS != 0) by (bit_vector);
        }
        // if there's a flag we don't support, it's probably best to raise an error rather than do
        // the wrong thing
        let flags: i32 = match known_msg_flags(flags) {
            Some(flags) => flags,
            None => {
                return Err(SyscallError::Failed(Errno::EINVAL));
            },
        };
        if flags & !RECV_FLAGS != 0 {
            return Err(SyscallError::Failed(Errno::EINVAL));
        }
        // the read would block if the buffer has no data
        if self.buffer.len() == 0 {
            // if the syscall would block and we don't have the MSG_DONTWAIT flag
            if !self.dont_wait(flags) {
                return Err(
                    SyscallError::Blocked {
                        state: FileState::readable(),
                        restartable: self.supports_sa_restart(),
                    },
                );
            }
            return Err(SyscallError::Failed(Errno::EAGAIN));
        }
        let mut packet = self.buffer.remove(0);
        let num_removed_from_buf = packet.len();
        // these bytes are no longer in flight
        self.sent_len = self.sent_len - num_removed_from_buf as u64;
        assert(self@.packets == old(self)@.packets.drop_first());
        dst.append(&mut packet);
        // the destination takes the whole packet
        let num_copied = num_removed_from_buf;
        Ok((received_len(flags, num_copied, num_removed_from_buf), num_removed_from_buf))
    }

    /// Gives the flags in `mask` the values that they have in `state`.
    fn copy_state(&mut self, mask: FileState, state: FileState, cb_queue: &mut EventQueue)
        requires
            old(self).wf(),
        ensures
            final(self).wf(),
            final(self)@ == (NetlinkView {
                state: old(self)@.state.difference(mask).union(state.intersection(mask)),
                ..old(self)@
            }),
            final(cb_queue)@ == old(cb_queue)@ + announcements(
                old(self)@.listeners,
                old(self)@.state,
                final(self)@.state,
            ),
    {
        let old_state = self.state;
        // remove the masked flags, then copy the masked flags
        self.state.remove(mask);
        self.state.insert(state.intersection(mask));
        self.handle_state_change(old_state, cb_queue);
    }

    /// Tells the listeners that the state is no longer `old_state`, if it is not.
    fn handle_state_change(&mut self, old_state: FileState, cb_queue: &mut EventQueue)
        requires
            old(self).wf(),
        ensures
            final(self).wf(),
            final(self)@ == old(self)@,
            final(cb_queue)@ == old(cb_queue)@ + announcements(
                old(self)@.listeners,
                old_state,
                old(self)@.state,
            ),
    {
        let states_changed = self.state.symmetric_difference(old_state);
        // if nothing changed
        if states_changed.is_empty() {
            assert(self.state == old_state);
            return ;
        }
        self.event_source.notify_listeners(self.state.bits(), states_changed.bits(), cb_queue);
    }
}

/// The address of the kernel.
pub open spec fn kernel_addr() -> SockaddrStorage {
    SockaddrStorage::Netlink(NetlinkAddr { pid: 0, groups: 0 })
}

/// The state of a socket that was not closed.
#[derive(Clone, Copy, PartialEq, Eq, Structural, Debug)]
pub struct InitialState {
    // Indicate that if the socket is already bound or not. We don't keep the bound address so that
    // we won't need to fill it.
    pub is_bound: bool,
}

/// The state of a socket that was closed.
#[derive(Clone, Copy, PartialEq, Eq, Structural, Debug)]
pub struct ClosedState {}

/// The current protocol state of the netlink socket.
#[derive(Clone, Copy, PartialEq, Eq, Structural, Debug)]
pub enum ProtocolState {
    Initial(InitialState),
    Closed(ClosedState),
}

impl ProtocolState {
    /// Whether a socket in this state can be bound to `addr`: it must not be bound already, and
    /// there has to be a netlink address without groups.
    pub open spec fn bind_outcome(self, addr: Option<SockaddrStorage>) -> Result<
        i32,
        SyscallError,
    > {
        match self {
            ProtocolState::Closed(_) => Err(SyscallError::Failed(Errno::EOPNOTSUPP)),
            ProtocolState::Initial(state) => if !state.is_bound && (addr matches Some(
                SockaddrStorage::Netlink(addr),
            ) && addr.groups == 0) {
                Ok(0)
            } else {
                Err(SyscallError::Failed(Errno::EINVAL))
            },
        }
    }

    /// The state after an attempt to bind the socket to `addr`. An attempt with a netlink address
    /// counts even if it fails because of the groups.
    pub open spec fn after_bind(self, addr: Option<SockaddrStorage>) -> ProtocolState {
        match self {
            ProtocolState::Closed(_) => self,
            ProtocolState::Initial(state) => ProtocolState::Initial(
                InitialState {
                    is_bound: state.is_bound || (addr matches Some(addr)
                        && addr.as_netlink() is Some),
                },
            ),
        }
    }

    /// What sending a message comes to: its length, or an error. It has to be for the kernel, and
    /// without control data.
    pub open spec fn sendmsg_outcome(self, common: NetlinkView, args: SendmsgArgs) -> Result<
        nat,
        SyscallError,
    > {
        match self {
            ProtocolState::Closed(_) => Err(SyscallError::Failed(Errno::EOPNOTSUPP)),
            ProtocolState::Initial(_) => if args.control_ptr != 0 || args.addr != Some(
                kernel_addr(),
            ) {
                Err(SyscallError::Failed(Errno::EINVAL))
            } else {
                common.send_outcome(args.flags, args.iov_lens@, args.packet)
            },
        }
    }

    /// Why no message can be received, if none can.
    pub open spec fn recvmsg_error(self, common: NetlinkView, args: RecvmsgArgs) -> Option<
        SyscallError,
    > {
        match self {
            ProtocolState::Closed(_) => Some(SyscallError::Failed(Errno::EOPNOTSUPP)),
            ProtocolState::Initial(_) => if args.control_ptr != 0 {
                Some(SyscallError::Failed(Errno::EINVAL))
            } else {
                common.recv_error(args.flags)
            },
        }
    }

    /// The state of a new socket.
    pub fn new() -> (r: ProtocolState)
        ensures
            r == ProtocolState::Initial(InitialState { is_bound: false }),
    {
        ProtocolState::Initial(InitialState { is_bound: false })
    }

    /// Binds the socket.
    pub fn bind(&mut self, addr: Option<SockaddrStorage>) -> (r: Result<i32, SyscallError>)
        ensures
            r == old(self).bind_outcome(addr),
            *final(self) == old(self).after_bind(addr),
    {
        match self {
            ProtocolState::Initial(x) => x.bind(addr),
            ProtocolState::Closed(x) => x.bind(addr),
        }
    }

    /// Sends a message.
    pub fn sendmsg(
        &mut self,
        common: &mut NetlinkSocketCommon,
        args: SendmsgArgs,
        cb_queue: &mut EventQueue,
    ) -> (r: Result<isize, SyscallError>)
        requires
            old(common).wf(),
            args.wf(),
        ensures
            *final(self) == *old(self),
            final(common).wf(),
            match old(self).sendmsg_outcome(old(common)@, args) {
                Err(error) => {
                    &&& r == Err::<isize, SyscallError>(error)
                    &&& final(common)@ == old(common)@
                    &&& final(cb_queue)@ == old(cb_queue)@
                },
                Ok(len) => {
                    &&& r matches Ok(sent) && sent == len
                    &&& final(common)@ == old(common)@.with_packet(args.packet->Ok_0@).refreshed()
                    &&& final(cb_queue)@ == old(cb_queue)@ + announcements(
                        old(common)@.listeners,
                        old(common)@.state,
                        final(common)@.state,
                    )
                },
            },
    {
        match self {
            ProtocolState::Initial(x) => x.sendmsg(common, args, cb_queue),
            ProtocolState::Closed(x) => x.sendmsg(common, args, cb_queue),
        }
    }

    /// Receives the answer to the oldest packet, as the bytes of the message and what goes along
    /// with it.
    pub fn recvmsg(
        &mut self,
        common: &mut NetlinkSocketCommon,
        args: RecvmsgArgs,
        default_ip: u32,
        cb_queue: &mut EventQueue,
    ) -> (r: Result<(Vec<u8>, RecvmsgReturn), SyscallError>)
        requires
            old(common).wf(),
            old(self).recvmsg_error(old(common)@, args) is None ==> length_plausible(
                old(common)@.packets[0],
            ),
        ensures
            *final(self) == *old(self),
            final(common).wf(),
            match old(self).recvmsg_error(old(common)@, args) {
                Some(error) => {
                    &&& r == Err::<(Vec<u8>, RecvmsgReturn), SyscallError>(error)
                    &&& final(common)@ == old(common)@
                    &&& final(cb_queue)@ == old(cb_queue)@
                },
                None => {
                    &&& r matches Ok((bytes, ret)) && {
                        &&& is_answer(bytes@, old(common)@.packets[0], default_ip)
                        &&& ret == kernel_return(bytes@)
                        &&& ret.return_val == bytes@.len()
                        &&& ret.addr matches Some(SockaddrStorage::Netlink(from)) && from.pid == 0
                            && from.groups == 0
                        &&& ret.msg_flags == 0
                        &&& ret.control_len == 0
                    }
                    &&& final(common)@ == old(common)@.without_packet().refreshed()
                    &&& final(cb_queue)@ == old(cb_queue)@ + announcements(
                        old(common)@.listeners,
                        old(common)@.state,
                        final(common)@.state,
                    )
                },
            },
    {
        match self {
            ProtocolState::Initial(x) => x.recvmsg(common, args, default_ip, cb_queue),
            ProtocolState::Closed(x) => x.recvmsg(common, args, default_ip, cb_queue),
        }
    }
}

/// What goes along with a message from the kernel.
pub open spec fn kernel_return(bytes: Seq<u8>) -> RecvmsgReturn {
    RecvmsgReturn {
        return_val: bytes.len() as isize,
        addr: Some(kernel_addr()),
        msg_flags: 0,
        control_len: 0,
    }
}

impl InitialState {
    /// Brings the state of the file in line with the buffer.
    fn refresh_file_state(&self, common: &mut NetlinkSocketCommon, cb_queue: &mut EventQueue)
        requires
            old(common).wf(),
        ensures
            final(common).wf(),
            final(common)@ == old(common)@.refreshed(),
            final(cb_queue)@ == old(cb_queue)@ + announcements(
                old(common)@.listeners,
                old(common)@.state,
                final(common)@.state,
            ),
    {
        let mut new_state = FileState::active();
        new_state.set(FileState::readable(), common.buffer.len() > 0);
        new_state.set(FileState::writable(), common.sent_len < common.send_limit);
        common.copy_state(FileState::all(), new_state, cb_queue);
    }

    /// Binds the socket.
    pub fn bind(&mut self, addr: Option<SockaddrStorage>) -> (r: Result<i32, SyscallError>)
        ensures
            r == ProtocolState::Initial(*old(self)).bind_outcome(addr),
            ProtocolState::Initial(*final(self)) == ProtocolState::Initial(*old(self)).after_bind(
                addr,
            ),
    {
        // if already bound
        if self.is_bound {
            return Err(SyscallError::Failed(Errno::EINVAL));
        }
        // get the netlink address
        let addr = match addr {
            Some(addr) => addr.as_netlink(),
            None => None,
        };
        let addr = match addr {
            Some(addr) => addr,
            None => {
                return Err(SyscallError::Failed(Errno::EINVAL));
            },
        };
        // remember that the socket is bound
        self.is_bound = true;
        // According to netlink(7), if the pid is zero, the kernel takes care of assigning it, but
        // we will leave it untouched at the moment. We can implement the assignment later when we
        // want to support it.
        // According to netlink(7), if the groups is non-zero, it means that the socket wants to
        // listen to some groups. Since we don't support broadcasting to groups yet, we will emit
        // the error here.
        if addr.groups != 0 {
            return Err(SyscallError::Failed(Errno::EINVAL));
        }
        Ok(0)
    }

    /// Sends a message.
    pub fn sendmsg(
        &mut self,
        common: &mut NetlinkSocketCommon,
        args: SendmsgArgs,
        cb_queue: &mut EventQueue,
    ) -> (r: Result<isize, SyscallError>)
        requires
            old(common).wf(),
            args.wf(),
        ensures
            *final(self) == *old(self),
            final(common).wf(),
            match ProtocolState::Initial(*old(self)).sendmsg_outcome(old(common)@, args) {
                Err(error) => {
                    &&& r == Err::<isize, SyscallError>(error)
                    &&& final(common)@ == old(common)@
                    &&& final(cb_queue)@ == old(cb_queue)@
                },
                Ok(len) => {
                    &&& r matches Ok(sent) && sent == len
                    &&& final(common)@ == old(common)@.with_packet(args.packet->Ok_0@).refreshed()
                    &&& final(cb_queue)@ == old(cb_queue)@ + announcements(
                        old(common)@.listeners,
                        old(common)@.state,
                        final(common)@.state,
                    )
                },
            },
    {
        // netlink sockets don't yet support control data for sendmsg()
        if args.control_ptr != 0 {
            return Err(SyscallError::Failed(Errno::EINVAL));
        }
        let addr = match args.addr {
            Some(addr) => addr,
            None => {
                return Err(SyscallError::Failed(Errno::EINVAL));
            },
        };
        let addr = match addr.as_netlink() {
            Some(addr) => addr,
            None => {
                return Err(SyscallError::Failed(Errno::EINVAL));
            },
        };
        // sending to non-kernel address is not supported
        if addr.pid != 0 {
            return Err(SyscallError::Failed(Errno::EINVAL));
        }
        // sending to groups is not supported
        if addr.groups != 0 {
            return Err(SyscallError::Failed(Errno::EINVAL));
        }
        let rv = match common.sendmsg(args.iov_lens.as_slice(), args.packet, args.flags) {
            Ok(rv) => rv,
            Err(error) => {
                return Err(error);
            },
        };
        self.refresh_file_state(common, cb_queue);
        Ok(rv as isize)
    }

    /// Receives the answer to the oldest packet.
    pub fn recvmsg(
        &mut self,
        common: &mut NetlinkSocketCommon,
        args: RecvmsgArgs,
        default_ip: u32,
        cb_queue: &mut EventQueue,
    ) -> (r: Result<(Vec<u8>, RecvmsgReturn), SyscallError>)
        requires
            old(common).wf(),
            ProtocolState::Initial(*old(self)).recvmsg_error(old(common)@, args) is None
                ==> length_plausible(old(common)@.packets[0]),
        ensures
            *final(self) == *old(self),
            final(common).wf(),
            match ProtocolState::Initial(*old(self)).recvmsg_error(old(common)@, args) {
                Some(error) => {
                    &&& r == Err::<(Vec<u8>, RecvmsgReturn), SyscallError>(error)
                    &&& final(common)@ == old(common)@
                    &&& final(cb_queue)@ == old(cb_queue)@
                },
                None => {
                    &&& r matches Ok((bytes, ret)) && {
                        &&& is_answer(bytes@, old(common)@.packets[0], default_ip)
                        &&& ret == kernel_return(bytes@)
                        &&& ret.return_val == bytes@.len()
                        &&& ret.addr matches Some(SockaddrStorage::Netlink(from)) && from.pid == 0
                            && from.groups == 0
                        &&& ret.msg_flags == 0
                        &&& ret.control_len == 0
                    }
                    &&& final(common)@ == old(common)@.without_packet().refreshed()
                    &&& final(cb_queue)@ == old(cb_queue)@ + announcements(
                        old(common)@.listeners,
                        old(common)@.state,
                        final(common)@.state,
                    )
                },
            },
    {
        // netlink sockets don't yet support control data for recvmsg()
        if args.control_ptr != 0 {
            return Err(SyscallError::Failed(Errno::EINVAL));
        }
        let mut packet_buffer: Vec<u8> = Vec::new();
        match common.recvmsg(&mut packet_buffer, args.flags) {
            Ok(_) => {},
            Err(error) => {
                return Err(error);
            },
        }
        assert(packet_buffer@ == old(common)@.packets[0]);
        self.refresh_file_state(common, cb_queue);
        // we set the source address as the netlink address of the kernel
        let src_addr = SockaddrStorage::Netlink(NetlinkAddr { pid: 0, groups: 0 });
        let bytes = answer(packet_buffer.as_slice(), default_ip);
        proof {
            law_reply_len(request_of(packet_buffer@), default_ip);
        }
        let ret = RecvmsgReturn {
            return_val: bytes.len() as isize,
            addr: Some(src_addr),
            msg_flags: 0,
            control_len: 0,
        };
        Ok((bytes, ret))
    }
}

impl ClosedState {
    /// A closed socket cannot be bound.
    pub fn bind(&mut self, addr: Option<SockaddrStorage>) -> (r: Result<i32, SyscallError>)
        ensures
            r == Err::<i32, SyscallError>(SyscallError::Failed(Errno::EOPNOTSUPP)),
            *final(self) == *old(self),
    {
        Err(SyscallError::Failed(Errno::EOPNOTSUPP))
    }

    /// Nothing can be sent to a closed socket.
    pub fn sendmsg(
        &mut self,
        common: &mut NetlinkSocketCommon,
        args: SendmsgArgs,
        cb_queue: &mut EventQueue,
    ) -> (r: Result<isize, SyscallError>)
        ensures
            r == Err::<isize, SyscallError>(SyscallError::Failed(Errno::EOPNOTSUPP)),
            *final(self) == *old(self),
            *final(common) == *old(common),
            *final(cb_queue) == *old(cb_queue),
    {
        Err(SyscallError::Failed(Errno::EOPNOTSUPP))
    }

    /// Nothing can be received from a closed socket.
    pub fn recvmsg(
        &mut self,
        common: &mut NetlinkSocketCommon,
        args: RecvmsgArgs,
        default_ip: u32,
        cb_queue: &mut EventQueue,
    ) -> (r: Result<(Vec<u8>, RecvmsgReturn), SyscallError>)
        ensures
            r == Err::<(Vec<u8>, RecvmsgReturn), SyscallError>(
                SyscallError::Failed(Errno::EOPNOTSUPP),
            ),
            *final(self) == *old(self),
            *final(common) == *old(common),
            *final(cb_queue) == *old(cb_queue),
    {
        Err(SyscallError::Failed(Errno::EOPNOTSUPP))
    }
}

/// What a netlink socket is, apart from how it is stored.
#[verifier::ext_equal]
pub struct NetlinkSocketView {
    pub common: NetlinkView,
    pub protocol_state: ProtocolState,
}

/// A netlink socket.
pub struct NetlinkSocket {
    /// Data and functionality that is general for all states.
    common: NetlinkSocketCommon,
    /// State-specific data and functionality.
    protocol_state: ProtocolState,
}

impl View for NetlinkSocket {
    type V = NetlinkSocketView;

    closed spec fn view(&self) -> NetlinkSocketView {
        NetlinkSocketView { common: self.common@, protocol_state: self.protocol_state }
    }
}

impl NetlinkSocket {
    /// The count of the bytes in flight is right and within the limit, and the listeners are in
    /// order.
    pub closed spec fn wf(self) -> bool {
        self.common.wf()
    }

    /// At most as many bytes as the limit says are in flight, whatever was sent and received.
    pub proof fn law_within_limit(self)
        requires
            self.wf(),
        ensures
            self@.common.in_flight() <= NETLINK_SOCKET_DEFAULT_BUFFER_SIZE,
    {
        self.common.law_within_limit();
    }

    /// The listeners have distinct numbers, and each status listener object is there at most once,
    /// however often it was added.
    pub proof fn law_distinct(self)
        requires
            self.wf(),
        ensures
            distinct_ids(self@.common.listeners),
            distinct_legacy(self@.common.listeners),
    {
        self.common.law_distinct();
    }

    /// A socket to which nothing was sent.
    pub fn new(status: FileStatus, socket_type: NetlinkSocketType, family: NetlinkFamily) -> (r:
        NetlinkSocket)
        ensures
            r.wf(),
            r@ == (NetlinkSocketView {
                common: NetlinkView {
                    packets: Seq::empty(),
                    listeners: Seq::empty(),
                    state: FileState::active(),
                    status,
                    has_open_file: false,
                },
                protocol_state: ProtocolState::Initial(InitialState { is_bound: false }),
            }),
    {
        NetlinkSocket {
            common: NetlinkSocketCommon::new(status),
            protocol_state: ProtocolState::new(),
        }
    }

    /// The status flags.
    pub fn get_status(&self) -> (r: FileStatus)
        ensures
            r == self@.common.status,
    {
        self.common.status
    }

    /// Replaces the status flags.
    pub fn set_status(&mut self, status: FileStatus)
        requires
            old(self).wf(),
        ensures
            final(self).wf(),
            final(self)@ == (NetlinkSocketView {
                common: NetlinkView { status, ..old(self)@.common },
                ..old(self)@
            }),
    {
        self.common.status = status;
    }

    /// Whether an open file refers to the socket.
    pub fn has_open_file(&self) -> (r: bool)
        ensures
            r == self@.common.has_open_file,
    {
        self.common.has_open_file
    }

    /// A blocked call on a netlink socket is restarted after a signal handler has run.
    pub fn supports_sa_restart(&self) -> (r: bool)
        ensures
            r,
    {
        self.common.supports_sa_restart()
    }

    /// Remembers whether an open file refers to the socket.
    pub fn set_has_open_file(&mut self, val: bool)
        requires
            old(self).wf(),
        ensures
            final(self).wf(),
            final(self)@ == (NetlinkSocketView {
                common: NetlinkView { has_open_file: val, ..old(self)@.common },
                ..old(self)@
            }),
    {
        self.common.has_open_file = val;
    }

    /// A netlink socket cannot be shut down yet, in whatever direction.
    pub fn shutdown(&mut self, how: i32) -> (r: Result<(), SyscallError>)
        ensures
            r == Err::<(), SyscallError>(SyscallError::Failed(Errno::ENOSYS)),
            *final(self) == *old(self),
    {
        Err(SyscallError::Failed(Errno::ENOSYS))
    }

    /// A netlink socket has no options yet.
    pub fn getsockopt(&self, level: i32, optname: i32, optval_ptr: usize, optlen: u32) -> (r:
        Result<u32, SyscallError>)
        ensures
            r == Err::<u32, SyscallError>(SyscallError::Failed(Errno::ENOSYS)),
    {
        Err(SyscallError::Failed(Errno::ENOSYS))
    }

    /// A netlink socket has no options yet.
    pub fn setsockopt(&self, level: i32, optname: i32, optval_ptr: usize, optlen: u32) -> (r:
        Result<(), SyscallError>)
        ensures
            r == Err::<(), SyscallError>(SyscallError::Failed(Errno::ENOSYS)),
    {
        Err(SyscallError::Failed(Errno::ENOSYS))
    }

    /// Binds the socket.
    pub fn bind(&mut self, addr: Option<SockaddrStorage>) -> (r: Result<i32, SyscallError>)
        requires
            old(self).wf(),
        ensures
            final(self).wf(),
            r == old(self)@.protocol_state.bind_outcome(addr),
            final(self)@ == (NetlinkSocketView {
                protocol_state: old(self)@.protocol_state.after_bind(addr),
                ..old(self)@
            }),
    {
        self.protocol_state.bind(addr)
    }

    /// Sends a message.
    pub fn sendmsg(&mut self, args: SendmsgArgs, cb_queue: &mut EventQueue) -> (r: Result<
        isize,
        SyscallError,
    >)
        requires
            old(self).wf(),
            args.wf(),
        ensures
            final(self).wf(),
            match old(self)@.protocol_state.sendmsg_outcome(old(self)@.common, args) {
                Err(error) => {
                    &&& r == Err::<isize, SyscallError>(error)
                    &&& final(self)@ == old(self)@
                    &&& final(cb_queue)@ == old(cb_queue)@
                },
                Ok(len) => {
                    &&& r matches Ok(sent) && sent == len
                    &&& final(self)@ == (NetlinkSocketView {
                        common: old(self)@.common.with_packet(args.packet->Ok_0@).refreshed(),
                        ..old(self)@
                    })
                    &&& final(cb_queue)@ == old(cb_queue)@ + announcements(
                        old(self)@.common.listeners,
                        old(self)@.common.state,
                        final(self)@.common.state,
                    )
                },
            },
    {
        self.protocol_state.sendmsg(&mut self.common, args, cb_queue)
    }

    /// Whether a message can be received with these arguments, or fails to be for a reason of its
    /// own. It cannot if the oldest packet would have to be answered and its length is not
    /// plausible: see `has_plausible_length`.
    pub fn can_answer(&self, args: RecvmsgArgs) -> (r: bool)
        ensures
            r == (self@.protocol_state.recvmsg_error(self@.common, args) is None
                ==> length_plausible(self@.common.packets[0])),
    {
        let is_closed = match self.protocol_state {
            ProtocolState::Initial(_) => false,
            ProtocolState::Closed(_) => true,
        };
        if is_closed || args.control_ptr != 0 || args.flags & !RECV_FLAGS != 0
            || self.common.buffer.len() == 0 {
            true
        } else {
            has_plausible_length(self.common.buffer[0].as_slice())
        }
    }

    /// Receives the answer to the oldest packet, as the bytes of the message and what goes along
    /// with it.
    pub fn recvmsg(&mut self, args: RecvmsgArgs, default_ip: u32, cb_queue: &mut EventQueue) -> (r:
        Result<(Vec<u8>, RecvmsgReturn), SyscallError>)
        requires
            old(self).wf(),
            old(self)@.protocol_state.recvmsg_error(old(self)@.common, args) is None
                ==> length_plausible(old(self)@.common.packets[0]),
        ensures
            final(self).wf(),
            match old(self)@.protocol_state.recvmsg_error(old(self)@.common, args) {
                Some(error) => {
                    &&& r == Err::<(Vec<u8>, RecvmsgReturn), SyscallError>(error)
                    &&& final(self)@ == old(self)@
                    &&& final(cb_queue)@ == old(cb_queue)@
                },
                None => {
                    &&& r matches Ok((bytes, ret)) && {
                        &&& is_answer(bytes@, old(self)@.common.packets[0], default_ip)
                        &&& ret == kernel_return(bytes@)
                        &&& ret.return_val == bytes@.len()
                        &&& ret.addr matches Some(SockaddrStorage::Netlink(from)) && from.pid == 0
                            && from.groups == 0
                        &&& ret.msg_flags == 0
                        &&& ret.control_len == 0
                    }
                    &&& final(self)@ == (NetlinkSocketView {
                        common: old(self)@.common.without_packet().refreshed(),
                        ..old(self)@
                    })
                    &&& final(cb_queue)@ == old(cb_queue)@ + announcements(
                        old(self)@.common.listeners,
                        old(self)@.common.state,
                        final(self)@.common.state,
                    )
                },
            },
    {
        self.protocol_state.recvmsg(&mut self.common, args, default_ip, cb_queue)
    }

    /// No ioctl request is handled on netlink sockets.
    pub fn ioctl(&mut self, request: u64) -> (r: Result<i32, SyscallError>)
        ensures
            r == Err::<i32, SyscallError>(SyscallError::Failed(Errno::EINVAL)),
            *final(self) == *old(self),
    {
        Err(SyscallError::Failed(Errno::EINVAL))
    }

    /// Subscribes the function known as `callback` to the changes of the flags in `monitoring`
    /// that pass `filter`.
    pub fn add_listener(
        &mut self,
        monitoring: FileState,
        filter: NewStatusListenerFilter,
        callback: u64,
    ) -> (r: Handle)
        requires
            old(self).wf(),
        ensures
            final(self).wf(),
            !has_id(old(self)@.common.listeners, r.id()),
            final(self)@ == (NetlinkSocketView {
                common: NetlinkView {
                    listeners: old(self)@.common.listeners.push(
                        Listener {
                            id: r.id(),
                            subscription: Subscription::Filtered {
                                monitoring: monitoring.bits(),
                                filter,
                                callback,
                            },
                        },
                    ),
                    ..old(self)@.common
                },
                ..old(self)@
            }),
    {
        self.common.event_source.add_listener(monitoring.bits(), filter, callback)
    }

    /// Ends the subscription that this socket gave out `handle` for. Handles are told apart by
    /// their numbers alone, so one of another file must not be given back here.
    pub fn remove_listener(&mut self, handle: Handle)
        requires
            old(self).wf(),
        ensures
            final(self).wf(),
            final(self)@ == (NetlinkSocketView {
                common: NetlinkView {
                    listeners: without_filtered(old(self)@.common.listeners, handle.id()),
                    ..old(self)@.common
                },
                ..old(self)@
            }),
    {
        self.common.event_source.remove_listener(handle);
    }

    /// Subscribes the status listener object at `ptr` to every change, unless it is subscribed
    /// already. Returns whether it was subscribed now.
    pub fn add_legacy_listener(&mut self, ptr: usize) -> (r: bool)
        requires
            ptr != 0,
            old(self).wf(),
        ensures
            final(self).wf(),
            r == !has_legacy(old(self)@.common.listeners, ptr),
            final(self)@ == (NetlinkSocketView {
                common: NetlinkView {
                    listeners: final(self)@.common.listeners,
                    ..old(self)@.common
                },
                ..old(self)@
            }),
            !r ==> final(self)@.common.listeners == old(self)@.common.listeners,
            r ==> legacy_added(old(self)@.common.listeners, final(self)@.common.listeners, ptr),
    {
        self.common.event_source.add_legacy_listener(ptr)
    }

    /// Ends the subscription of the status listener object at `ptr`, if there is one. Returns
    /// whether there was one.
    pub fn remove_legacy_listener(&mut self, ptr: usize) -> (r: bool)
        requires
            ptr != 0,
            old(self).wf(),
        ensures
            final(self).wf(),
            r == has_legacy(old(self)@.common.listeners, ptr),
            final(self)@ == (NetlinkSocketView {
                common: NetlinkView {
                    listeners: without_legacy(old(self)@.common.listeners, ptr),
                    ..old(self)@.common
                },
                ..old(self)@
            }),
    {
        self.common.event_source.remove_legacy_listener(ptr)
    }

    /// The state.
    pub fn state(&self) -> (r: FileState)
        ensures
            r == self@.common.state,
    {
        self.common.state
    }
}

/// Packets are answered in the order in which they were sent: while a packet waits, sending another
/// one changes nothing about what is received next.
pub proof fn law_first_in_first_out(socket: NetlinkView, packet: Seq<u8>)
    requires
        socket.packets.len() > 0,
    ensures
        socket.with_packet(packet).packets[0] == socket.packets[0],
        socket.with_packet(packet).without_packet() == socket.without_packet().with_packet(packet),
{
    let a = socket.with_packet(packet).without_packet();
    let b = socket.without_packet().with_packet(packet);
    assert(a.packets == b.packets);
    assert(a == b);
}

/// What was sent to a socket with an empty buffer is received next, and then the buffer is empty
/// again.
pub proof fn law_sent_is_received(socket: NetlinkView, packet: Seq<u8>)
    requires
        socket.packets.len() == 0,
    ensures
        socket.with_packet(packet).packets[0] == packet,
        socket.with_packet(packet).without_packet() == socket,
{
    let after = socket.with_packet(packet).without_packet();
    assert(after.packets == socket.packets);
    assert(after == socket);
}

/// The number of bytes in flight grows by what is sent and shrinks by what is received.
pub proof fn law_bytes_in_flight(socket: NetlinkView, packet: Seq<u8>)
    ensures
        socket.with_packet(packet).in_flight() == socket.in_flight() + packet.len(),
        socket.packets.len() > 0 ==> socket.without_packet().in_flight() == socket.in_flight()
            - socket.packets[0].len(),
{
    lemma_packets_len_push(socket.packets, packet);
}

/// The limit of the bytes in flight holds after every message that is accepted, and a message of
/// at most that many bytes is accepted by a socket with an empty buffer.
pub proof fn law_send_limit(
    socket: NetlinkView,
    flags: i32,
    iov_lens: Seq<usize>,
    packet: Vec<u8>,
)
    requires
        packet@.len() == total(iov_lens),
        socket.in_flight() <= NETLINK_SOCKET_DEFAULT_BUFFER_SIZE,
    ensures
        socket.send_outcome(flags, iov_lens, Ok(packet)) is Ok ==> socket.with_packet(
            packet@,
        ).in_flight() <= NETLINK_SOCKET_DEFAULT_BUFFER_SIZE,
        flags & !SEND_FLAGS == 0 && socket.packets.len() == 0 && packet@.len()
            <= NETLINK_SOCKET_DEFAULT_BUFFER_SIZE ==> socket.send_outcome(
            flags,
            iov_lens,
            Ok(packet),
        ) == Ok::<nat, SyscallError>(packet@.len()),
{
    law_bytes_in_flight(socket, packet@);
}

/// The state of a socket tells what blocks: it is readable exactly if something can be received,
/// and writable exactly if the shortest of all messages can be sent.
pub proof fn law_state_tells_what_blocks(
    socket: NetlinkView,
    send_flags: i32,
    recv_flags: i32,
    nothing: Vec<u8>,
)
    requires
        send_flags & !SEND_FLAGS == 0,
        recv_flags & !RECV_FLAGS == 0,
        nothing@.len() == 0,
        socket.in_flight() <= NETLINK_SOCKET_DEFAULT_BUFFER_SIZE,
    ensures
        socket.refreshed().state.readable <==> socket.refreshed().recv_error(recv_flags) is None,
        socket.refreshed().state.writable <==> socket.refreshed().send_outcome(
            send_flags,
            Seq::empty(),
            Ok(nothing),
        ) is Ok,
{
}

/// A message that would block is refused only for as long as other bytes are in flight: once the
/// buffer is empty it is accepted.
pub proof fn law_blocked_send_succeeds_later(
    socket: NetlinkView,
    later: NetlinkView,
    flags: i32,
    iov_lens: Seq<usize>,
    packet: Vec<u8>,
)
    requires
        packet@.len() == total(iov_lens),
        socket.send_outcome(flags, iov_lens, Ok(packet)) is Err,
        flags & !SEND_FLAGS == 0,
        total(iov_lens) <= NETLINK_SOCKET_DEFAULT_BUFFER_SIZE,
        later.packets.len() == 0,
    ensures
        socket.send_outcome(flags, iov_lens, Ok(packet)) == Err::<nat, SyscallError>(
            socket.failure(flags, Errno::EAGAIN, FileState::writable()),
        ),
        later.send_outcome(flags, iov_lens, Ok(packet)) == Ok::<nat, SyscallError>(packet@.len()),
{
}

/// What a bind comes to, told by the socket and the address. A socket that is neither bound nor
/// closed can be bound to every netlink address without groups, whatever the port id is, also to 0,
/// which leaves the choice to the kernel. Groups, an address of another family and no address are
/// refused; so is a socket that is bound or closed.
pub proof fn law_bind(pid: u32, groups: u32, family: u16, addr: Option<SockaddrStorage>)
    ensures
        ({
            let fresh = ProtocolState::Initial(InitialState { is_bound: false });
            let bound = ProtocolState::Initial(InitialState { is_bound: true });
            let closed = ProtocolState::Closed(ClosedState {  });
            let netlink = Some(SockaddrStorage::Netlink(NetlinkAddr { pid, groups }));
            let other = Some(SockaddrStorage::Other { family });
            let refused = Err::<i32, SyscallError>(SyscallError::Failed(Errno::EINVAL));
            &&& groups == 0 ==> fresh.bind_outcome(netlink) == Ok::<i32, SyscallError>(0)
            &&& groups != 0 ==> fresh.bind_outcome(netlink) == refused
            &&& fresh.after_bind(netlink) == bound
            &&& fresh.bind_outcome(other) == refused && fresh.after_bind(other) == fresh
            &&& fresh.bind_outcome(None) == refused && fresh.after_bind(None) == fresh
            &&& bound.bind_outcome(addr) == refused && bound.after_bind(addr) == bound
            &&& closed.bind_outcome(addr) == Err::<i32, SyscallError>(
                SyscallError::Failed(Errno::EOPNOTSUPP),
            ) && closed.after_bind(addr) == closed
        }),
{
}

/// Whether a bind succeeds does not depend on the port id, and a socket is bound at most once.
pub proof fn law_bound_once(
    state: ProtocolState,
    first: Option<SockaddrStorage>,
    second: Option<SockaddrStorage>,
    pid: u32,
    other_pid: u32,
    groups: u32,
)
    ensures
        state.bind_outcome(Some(SockaddrStorage::Netlink(NetlinkAddr { pid, groups })))
            == state.bind_outcome(
            Some(SockaddrStorage::Netlink(NetlinkAddr { pid: other_pid, groups })),
        ),
        state.bind_outcome(first) is Ok ==> state.after_bind(first).bind_outcome(second) is Err,
{
}

/// Whom a message can be sent to: to the kernel, without control data. What then comes of it
/// depends on the flags and the room in the buffer. Everything else is refused, and so is every
/// message on a closed socket.
pub proof fn law_sent_to_kernel(state: ProtocolState, common: NetlinkView, args: SendmsgArgs)
    ensures
        state is Closed ==> state.sendmsg_outcome(common, args) == Err::<nat, SyscallError>(
            SyscallError::Failed(Errno::EOPNOTSUPP),
        ),
        state is Initial && args.control_ptr == 0 && args.addr == Some(
            SockaddrStorage::Netlink(NetlinkAddr { pid: 0, groups: 0 }),
        ) ==> state.sendmsg_outcome(common, args) == common.send_outcome(
            args.flags,
            args.iov_lens@,
            args.packet,
        ),
        state is Initial && (args.control_ptr != 0 || args.addr != Some(
            SockaddrStorage::Netlink(NetlinkAddr { pid: 0, groups: 0 }),
        )) ==> state.sendmsg_outcome(common, args) == Err::<nat, SyscallError>(
            SyscallError::Failed(Errno::EINVAL),
        ),
{
}

/// What sending comes to, told by the numbers: only `MSG_DONTWAIT`, `MSG_NOSIGNAL` and `MSG_TRUNC`
/// are allowed; at most 212,992 bytes are in flight; a message that could never be sent is refused
/// for good unless the buffer is full; one that has to wait blocks, unless the call or the file
/// must not; what could not be read from memory fails with the reason; and everything else is sent.
pub proof fn law_send_outcome(
    socket: NetlinkView,
    flags: i32,
    iov_lens: Seq<usize>,
    packet: Result<Vec<u8>, Errno>,
)
    requires
        socket.in_flight() <= 212_992,
    ensures
        ({
            let outcome = socket.send_outcome(flags, iov_lens, packet);
            let len = total(iov_lens);
            let used = socket.in_flight();
            let waits = flags & 0x40 == 0 && socket.status.bits & 0x800 == 0;
            let blocked = if waits {
                SyscallError::Blocked { state: FileState::writable(), restartable: true }
            } else {
                SyscallError::Failed(Errno::EAGAIN)
            };
            &&& flags & !0x4060 != 0 ==> outcome == Err::<nat, SyscallError>(
                SyscallError::Failed(Errno::EINVAL),
            )
            &&& flags & !0x4060 == 0 ==> {
                &&& used == 212_992 ==> outcome == Err::<nat, SyscallError>(blocked)
                &&& used < 212_992 && len > 212_992 ==> outcome == Err::<nat, SyscallError>(
                    SyscallError::Failed(Errno::EMSGSIZE),
                )
                &&& used < 212_992 && len <= 212_992 && used + len > 212_992 ==> outcome == Err::<
                    nat,
                    SyscallError,
                >(blocked)
                &&& used < 212_992 && used + len <= 212_992 ==> match packet {
                    Ok(_) => outcome == Ok::<nat, SyscallError>(len),
                    Err(Errno::EAGAIN) => outcome == Err::<nat, SyscallError>(blocked),
                    Err(errno) => outcome == Err::<nat, SyscallError>(SyscallError::Failed(errno)),
                }
            }
        }),
{
    let status = socket.status.bits;
    assert(0x40i32 | 0x4000 | 0x20 == 0x4060) by (bit_vector);
    assert(flags & 0x40 == 0x40 <==> flags & 0x40 != 0) by (bit_vector);
    assert(status & 0x800 == 0x800 <==> status & 0x800 != 0) by (bit_vector);
}

/// What receiving comes to, told by the numbers: no control data, only `MSG_DONTWAIT` and
/// `MSG_TRUNC` are allowed, and while nothing was sent a call blocks, unless it or the file must
/// not. Nothing can be received from a closed socket.
pub proof fn law_recv_outcome(state: ProtocolState, socket: NetlinkView, args: RecvmsgArgs)
    ensures
        ({
            let error = state.recvmsg_error(socket, args);
            let waits = args.flags & 0x40 == 0 && socket.status.bits & 0x800 == 0;
            &&& state is Closed ==> error == Some(SyscallError::Failed(Errno::EOPNOTSUPP))
            &&& state is Initial && (args.control_ptr != 0 || args.flags & !0x60 != 0) ==> error
                == Some(SyscallError::Failed(Errno::EINVAL))
            &&& state is Initial && args.control_ptr == 0 && args.flags & !0x60 == 0 ==> {
                &&& socket.packets.len() > 0 ==> error is None
                &&& socket.packets.len() == 0 ==> error == Some(
                    if waits {
                        SyscallError::Blocked { state: FileState::readable(), restartable: true }
                    } else {
                        SyscallError::Failed(Errno::EAGAIN)
                    },
                )
            }
        }),
{
    let flags = args.flags;
    let status = socket.status.bits;
    assert(0x40i32 | 0x20 == 0x60) by (bit_vector);
    assert(flags & 0x40 == 0x40 <==> flags & 0x40 != 0) by (bit_vector);
    assert(status & 0x800 == 0x800 <==> status & 0x800 != 0) by (bit_vector);
}

/// How the state of a socket goes along with its buffer, flag by flag: it is active, readable if a
/// packet waits, and writable if there is room for more. Nothing but the state changes.
pub proof fn law_refreshed_state(socket: NetlinkView)
    ensures
        ({
            let after = socket.refreshed();
            &&& after.state.active
            &&& after.state.readable <==> socket.packets.len() != 0
            &&& after.state.writable <==> socket.in_flight() < 212_992
            &&& !after.state.closed
            &&& !after.state.input_buffer_parity
            &&& after.packets == socket.packets
            &&& after.listeners == socket.listeners
            &&& after.status == socket.status
            &&& after.has_open_file == socket.has_open_file
        }),
{
}

/// What becomes of the buffer, packet by packet: one that is sent comes last, the first one is
/// received, and the others stay where they are. Nothing but the buffer changes.
pub proof fn law_buffer(socket: NetlinkView, packet: Seq<u8>)
    ensures
        ({
            let sent = socket.with_packet(packet);
            &&& sent.packets.len() == socket.packets.len() + 1
            &&& sent.packets.last() == packet
            &&& sent.packets.drop_last() == socket.packets
            &&& sent.listeners == socket.listeners
            &&& sent.state == socket.state
            &&& sent.status == socket.status
            &&& sent.has_open_file == socket.has_open_file
        }),
        socket.packets.len() > 0 ==> {
            let received = socket.without_packet();
            &&& received.packets.len() == socket.packets.len() - 1
            &&& forall|i: int|
                0 <= i < received.packets.len() ==> #[trigger] received.packets[i]
                    == socket.packets[i + 1]
            &&& received.listeners == socket.listeners
            &&& received.state == socket.state
            &&& received.status == socket.status
            &&& received.has_open_file == socket.has_open_file
        },
{
    assert(socket.with_packet(packet).packets.drop_last() == socket.packets);
}

/// How lengths add up: those of the parts of a message, and those of the packets in flight.
pub proof fn law_lengths_add_up(
    lens: Seq<usize>,
    len: usize,
    packets: Seq<Seq<u8>>,
    packet: Seq<u8>,
)
    ensures
        total(Seq::empty()) == 0,
        total(lens.push(len)) == total(lens) + len,
        packets_len(Seq::empty()) == 0,
        packets_len(packets.push(packet)) == packets_len(packets) + packet.len(),
{
    assert(lens.push(len).drop_last() == lens);
    lemma_packets_len_push(packets, packet);
}

/// Which numbers stand for a type of netlink sockets, and which one for a family.
pub proof fn law_numbers_of_types(val: i32)
    ensures
        <NetlinkSocketType as TryFromSpec<i32>>::try_from_spec(val) == (if val == 2 {
            Ok(NetlinkSocketType::Dgram)
        } else if val == 3 {
            Ok(NetlinkSocketType::Raw)
        } else {
            Err(NetlinkSocketTypeConversionError(val))
        }),
        <NetlinkFamily as TryFromSpec<i32>>::try_from_spec(val) == (if val == 0 {
            Ok(NetlinkFamily::Route)
        } else {
            Err(NetlinkFamilyConversionError(val))
        }),
{
}

} // verus!
