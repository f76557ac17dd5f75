use std::sync::Arc;

use atomic_refcell::AtomicRefCell;
use shadow_host::errno::{Errno, SyscallError};
use shadow_host::events::{EventQueue, NewStatusListenerFilter, Target};
use shadow_host::flags::{FileMode, FileState, FileStatus};
use shadow_host::netlink::{
    received_len, ClosedState, NetlinkFamily, NetlinkFamilyConversionError, NetlinkSocket,
    NetlinkSocketCommon, NetlinkSocketType, NetlinkSocketTypeConversionError, ProtocolState,
    RecvmsgArgs, SendmsgArgs, MSG_DONTWAIT, MSG_NOSIGNAL, MSG_TRUNC,
    NETLINK_SOCKET_DEFAULT_BUFFER_SIZE,
};
use shadow_host::rtnetlink::{
    answer, has_plausible_length, reply, AddressHeader, Interface, Request,
};
use shadow_host::sockaddr::{NetlinkAddr, SockaddrStorage};
use shadow_host::socket::{
    Socket, SocketGuard, SocketGuardMut, SocketRef, SocketRefMut, UnixSocketFile,
};

const IP: u32 = 0x0b00_0001;

fn failed<T>(errno: Errno) -> Result<T, SyscallError> {
    Err(SyscallError::Failed(errno))
}

fn kernel() -> SockaddrStorage {
    SockaddrStorage::Netlink(NetlinkAddr { pid: 0, groups: 0 })
}

fn socket(status: FileStatus) -> NetlinkSocket {
    NetlinkSocket::new(status, NetlinkSocketType::Raw, NetlinkFamily::Route)
}

fn header(len: u32, nl_type: u16, seq: u32) -> Vec<u8> {
    let mut bytes = Vec::new();
    bytes.extend(len.to_ne_bytes());
    bytes.extend(nl_type.to_ne_bytes());
    bytes.extend(0x301u16.to_ne_bytes());
    bytes.extend(seq.to_ne_bytes());
    bytes.extend(77u32.to_ne_bytes());
    bytes
}

fn request(nl_type: u16, seq: u32, fields: [u8; 4], index: i32) -> Vec<u8> {
    let mut bytes = header(24, nl_type, seq);
    bytes.extend(fields);
    bytes.extend(index.to_ne_bytes());
    bytes
}

fn send(packet: Vec<u8>) -> SendmsgArgs {
    SendmsgArgs {
        addr: Some(kernel()),
        iov_lens: vec![packet.len()],
        packet: Ok(packet),
        control_ptr: 0,
        flags: 0,
    }
}

const RECV: RecvmsgArgs = RecvmsgArgs { control_ptr: 0, flags: 0 };

fn error_reply(seq: u32) -> Vec<u8> {
    let mut bytes = Vec::new();
    bytes.extend(16u32.to_ne_bytes());
    bytes.extend(2u16.to_ne_bytes());
    bytes.extend(0u16.to_ne_bytes());
    bytes.extend(seq.to_ne_bytes());
    bytes.extend(0u32.to_ne_bytes());
    bytes
}

fn attribute(bytes: &mut Vec<u8>, kind: u16, payload: &[u8]) {
    bytes.extend((4 + payload.len() as u16).to_ne_bytes());
    bytes.extend(kind.to_ne_bytes());
    bytes.extend(payload);
    while bytes.len() % 4 != 0 {
        bytes.push(0);
    }
}

fn list_reply(seq: u32) -> Vec<u8> {
    let mut bytes = Vec::new();
    for (len, prefix, scope, index, address, broadcast, label) in [
        (56u32, 8u8, 254u8, 1i32, [127, 0, 0, 1], [127, 255, 255, 255], &b"lo\0"[..]),
        (60, 24, 0, 2, [11, 0, 0, 1], [11, 0, 0, 255], &b"eth0\0"[..]),
    ] {
        bytes.extend(len.to_ne_bytes());
        bytes.extend(20u16.to_ne_bytes());
        bytes.extend(2u16.to_ne_bytes());
        bytes.extend(seq.to_ne_bytes());
        bytes.extend(0u32.to_ne_bytes());
        bytes.extend([2, prefix, 0x80, scope]);
        bytes.extend(index.to_ne_bytes());
        attribute(&mut bytes, 1, &address);
        attribute(&mut bytes, 2, &address);
        attribute(&mut bytes, 4, &broadcast);
        attribute(&mut bytes, 3, label);
    }
    bytes.extend(20u32.to_ne_bytes());
    bytes.extend(3u16.to_ne_bytes());
    bytes.extend(2u16.to_ne_bytes());
    bytes.extend(seq.to_ne_bytes());
    bytes.extend(0u32.to_ne_bytes());
    bytes.extend(0u32.to_ne_bytes());
    bytes
}

#[test]
fn addresses_are_listed() {
    for family in [0, 2] {
        let packet = request(22, 9, [family, 0, 0, 0], 0);
        assert_eq!(answer(&packet, IP), list_reply(9));
        assert_eq!(answer(&packet, IP).len(), 136);
    }
    let supported = Request {
        nl_type: 22,
        nl_seq: 9,
        payload: Some(AddressHeader { family: 0, prefix_len: 0, flags: 0, scope: 0, index: 0 }),
    };
    assert!(supported.is_supported());
    assert_eq!(reply(Some(supported), IP), list_reply(9));
}

#[test]
fn request_with_an_attribute_is_understood() {
    let mut packet = header(32, 22, 4);
    packet.extend([0; 8]);
    attribute(&mut packet, 2, &[1, 2, 3, 4]);
    assert!(has_plausible_length(&packet));
    assert_eq!(answer(&packet, IP), list_reply(4));
}

#[test]
fn unsupported_requests_are_refused() {
    // another type, another family, a prefix, flags, a scope, an index
    assert_eq!(answer(&request(18, 1, [0; 4], 0), IP), error_reply(1));
    assert_eq!(answer(&request(22, 2, [10, 0, 0, 0], 0), IP), error_reply(2));
    assert_eq!(answer(&request(22, 3, [0, 1, 0, 0], 0), IP), error_reply(3));
    assert_eq!(answer(&request(22, 4, [0, 0, 1, 0], 0), IP), error_reply(4));
    assert_eq!(answer(&request(22, 5, [0, 0, 0, 1], 0), IP), error_reply(5));
    assert_eq!(answer(&request(22, 6, [0, 0, 0, 0], -1), IP), error_reply(6));
}

#[test]
fn what_is_no_message_is_refused_without_a_sequence_number() {
    assert_eq!(answer(&[], IP), error_reply(0));
    assert_eq!(answer(&[1; 15], IP), error_reply(0));
    // the claimed length is longer than the message
    let mut packet = request(22, 7, [0; 4], 0);
    packet[..4].copy_from_slice(&32u32.to_ne_bytes());
    assert!(has_plausible_length(&packet));
    assert_eq!(answer(&packet, IP), error_reply(0));
    // the payload is missing
    assert_eq!(answer(&header(16, 22, 7), IP), error_reply(0));
    assert_eq!(reply(None, IP), error_reply(0));
}

#[test]
fn messages_without_a_payload_are_refused_with_their_sequence_number() {
    // the end of a multipart message
    assert_eq!(answer(&header(16, 3, 8), IP), error_reply(8));
    // an acknowledgement
    let mut packet = header(36, 2, 9);
    packet.extend(0i32.to_ne_bytes());
    packet.extend(header(16, 22, 1));
    assert!(has_plausible_length(&packet));
    assert_eq!(answer(&packet, IP), error_reply(9));
}

#[test]
fn implausible_lengths_are_found() {
    assert!(!has_plausible_length(&header(15, 22, 1)));
    assert!(!has_plausible_length(&header(0, 22, 1)));
    assert!(has_plausible_length(&header(16, 2, 1)));
    let mut packet = header(19, 2, 1);
    packet.extend([0; 4]);
    assert!(!has_plausible_length(&packet));
    packet[..4].copy_from_slice(&20u32.to_ne_bytes());
    assert!(has_plausible_length(&packet));
    packet.extend([0; 16]);
    assert!(!has_plausible_length(&packet));
    packet[..4].copy_from_slice(&40u32.to_ne_bytes());
    assert!(!has_plausible_length(&packet));
    packet[16..20].copy_from_slice(&(-1i32).to_ne_bytes());
    assert!(has_plausible_length(&packet));
}

#[test]
fn broadcast_address_fills_the_bits_behind_the_prefix() {
    let mut interface = Interface::ethernet(0x0a0b_0c0d);
    assert_eq!(interface.broadcast(), 0x0a0b_0cff);
    interface.prefix_len = 32;
    assert_eq!(interface.broadcast(), 0x0a0b_0c0d);
    interface.prefix_len = 0;
    assert_eq!(interface.broadcast(), 0xffff_ffff);
    assert_eq!(Interface::loopback().broadcast(), 0x7fff_ffff);
}

#[test]
fn packets_are_answered_in_order() {
    let mut queue = EventQueue::new();
    let mut socket = socket(FileStatus::empty());
    assert_eq!(socket.state(), FileState::active());
    assert_eq!(socket.sendmsg(send(request(22, 1, [0; 4], 0)), &mut queue), Ok(24));
    assert_eq!(socket.sendmsg(send(vec![9; 3]), &mut queue), Ok(3));
    assert_eq!(
        socket.state(),
        FileState::active() | FileState::readable() | FileState::writable()
    );
    assert!(socket.can_answer(RECV));
    let (bytes, ret) = socket.recvmsg(RECV, IP, &mut queue).unwrap();
    assert_eq!(bytes, list_reply(1));
    assert_eq!(ret.return_val, 136);
    assert_eq!(ret.addr, Some(kernel()));
    assert_eq!((ret.msg_flags, ret.control_len), (0, 0));
    let (bytes, ret) = socket.recvmsg(RECV, IP, &mut queue).unwrap();
    assert_eq!(bytes, error_reply(0));
    assert_eq!(ret.return_val, 16);
    assert_eq!(socket.state(), FileState::active() | FileState::writable());
    assert!(socket.can_answer(RECV));
}

#[test]
fn implausible_packets_matter_only_when_they_would_be_answered() {
    let mut queue = EventQueue::new();
    let mut socket = socket(FileStatus::empty());
    assert_eq!(socket.sendmsg(send(header(15, 22, 1)), &mut queue), Ok(16));
    assert!(!socket.can_answer(RECV));
    let control = RecvmsgArgs { control_ptr: 8, flags: 0 };
    let peek = RecvmsgArgs { control_ptr: 0, flags: libc::MSG_PEEK };
    for args in [control, peek] {
        assert!(socket.can_answer(args));
        assert_eq!(
            socket.recvmsg(args, IP, &mut queue).err(),
            Some(SyscallError::Failed(Errno::EINVAL))
        );
    }
}

#[test]
fn receiving_blocks_while_nothing_was_sent() {
    let mut queue = EventQueue::new();
    let mut socket = socket(FileStatus::empty());
    let blocked = SyscallError::Blocked { state: FileState::readable(), restartable: true };
    assert_eq!(socket.recvmsg(RECV, IP, &mut queue).err(), Some(blocked));
    let dont_wait = RecvmsgArgs { control_ptr: 0, flags: MSG_DONTWAIT | MSG_TRUNC };
    assert_eq!(
        socket.recvmsg(dont_wait, IP, &mut queue).err(),
        Some(SyscallError::Failed(Errno::EAGAIN))
    );
    socket.set_status(FileStatus::nonblock());
    assert_eq!(
        socket.recvmsg(RECV, IP, &mut queue).err(),
        Some(SyscallError::Failed(Errno::EAGAIN))
    );
    let control = RecvmsgArgs { control_ptr: 8, flags: 0 };
    assert_eq!(
        socket.recvmsg(control, IP, &mut queue).err(),
        Some(SyscallError::Failed(Errno::EINVAL))
    );
    for flags in [libc::MSG_PEEK, MSG_NOSIGNAL, 0x10, i32::MIN] {
        let args = RecvmsgArgs { control_ptr: 0, flags };
        assert_eq!(
            socket.recvmsg(args, IP, &mut queue).err(),
            Some(SyscallError::Failed(Errno::EINVAL))
        );
    }
    assert_eq!(queue.pop(), None);
}

#[test]
fn only_the_kernel_is_sent_to() {
    let mut queue = EventQueue::new();
    let mut socket = socket(FileStatus::empty());
    let addresses = [
        None,
        Some(SockaddrStorage::Other { family: libc::AF_INET as u16 }),
        Some(SockaddrStorage::Netlink(NetlinkAddr { pid: 1, groups: 0 })),
        Some(SockaddrStorage::Netlink(NetlinkAddr { pid: 0, groups: 1 })),
    ];
    for addr in addresses {
        let args = SendmsgArgs { addr, ..send(vec![1]) };
        assert_eq!(socket.sendmsg(args, &mut queue), failed(Errno::EINVAL));
    }
    let args = SendmsgArgs { control_ptr: 8, ..send(vec![1]) };
    assert_eq!(socket.sendmsg(args, &mut queue), failed(Errno::EINVAL));
    for flags in [libc::MSG_OOB, libc::MSG_PEEK, 0x10, i32::MIN] {
        let args = SendmsgArgs { flags, ..send(vec![1]) };
        assert_eq!(socket.sendmsg(args, &mut queue), failed(Errno::EINVAL));
    }
    let args = SendmsgArgs { flags: MSG_DONTWAIT | MSG_NOSIGNAL | MSG_TRUNC, ..send(vec![1]) };
    assert_eq!(socket.sendmsg(args, &mut queue), Ok(1));
    let args = SendmsgArgs { packet: Err(Errno::EFAULT), ..send(vec![1]) };
    assert_eq!(socket.sendmsg(args, &mut queue), failed(Errno::EFAULT));
}

#[test]
fn sending_is_limited() {
    let mut queue = EventQueue::new();
    let mut socket = socket(FileStatus::empty());
    let limit = NETLINK_SOCKET_DEFAULT_BUFFER_SIZE as usize;
    assert_eq!(limit, 212_992);
    assert_eq!(
        socket.sendmsg(send(vec![0; limit + 1]), &mut queue),
        failed(Errno::EMSGSIZE)
    );
    assert_eq!(socket.sendmsg(send(vec![0; 10]), &mut queue), Ok(10));
    let blocked = Err(SyscallError::Blocked { state: FileState::writable(), restartable: true });
    assert_eq!(socket.sendmsg(send(vec![0; limit]), &mut queue), blocked);
    let mut args = send(vec![0; limit - 10]);
    args.iov_lens = vec![limit - 20, 0, 10];
    assert_eq!(socket.sendmsg(args, &mut queue), Ok(limit as isize - 10));
    assert!(!socket.state().writable);
    // nothing more can be sent now, not even what could never be sent
    assert_eq!(socket.sendmsg(send(Vec::new()), &mut queue), blocked);
    assert_eq!(socket.sendmsg(send(vec![0; limit + 1]), &mut queue), blocked);
    let args = SendmsgArgs { flags: MSG_DONTWAIT, ..send(vec![0]) };
    assert_eq!(socket.sendmsg(args, &mut queue), failed(Errno::EAGAIN));
    // what was read is no longer in flight
    assert!(socket.recvmsg(RECV, IP, &mut queue).is_ok());
    assert!(socket.state().writable);
    assert_eq!(socket.sendmsg(send(vec![0; 10]), &mut queue), Ok(10));
}

#[test]
fn common_part_hands_packets_out() {
    let mut common = NetlinkSocketCommon::new(FileStatus::empty());
    assert!(common.supports_sa_restart());
    assert_eq!(common.sendmsg(&[2, 1], Ok(vec![1, 2, 3]), 0), Ok(3));
    let mut out = vec![0];
    assert_eq!(common.recvmsg(&mut out, MSG_TRUNC), Ok((3, 3)));
    assert_eq!(out, vec![0, 1, 2, 3]);
}

#[test]
fn truncated_messages_keep_their_length() {
    assert_eq!(received_len(0, 2, 7), 2);
    assert_eq!(received_len(MSG_DONTWAIT, 2, 7), 2);
    assert_eq!(received_len(MSG_TRUNC, 2, 7), 7);
    assert_eq!(received_len(MSG_TRUNC | MSG_DONTWAIT, 2, 7), 7);
}

#[test]
fn socket_is_bound_once() {
    let mut socket = socket(FileStatus::empty());
    let other = SockaddrStorage::Other { family: libc::AF_UNIX as u16 };
    assert_eq!(socket.bind(None), failed(Errno::EINVAL));
    assert_eq!(socket.bind(Some(other)), failed(Errno::EINVAL));
    let addr = SockaddrStorage::Netlink(NetlinkAddr { pid: 3, groups: 0 });
    assert_eq!(socket.bind(Some(addr)), Ok(0));
    assert_eq!(socket.bind(Some(addr)), failed(Errno::EINVAL));
}

#[test]
fn groups_are_refused_but_count_as_bound() {
    let mut socket = socket(FileStatus::empty());
    let groups = SockaddrStorage::Netlink(NetlinkAddr { pid: 0, groups: 2 });
    assert_eq!(socket.bind(Some(groups)), failed(Errno::EINVAL));
    assert_eq!(socket.bind(Some(kernel())), failed(Errno::EINVAL));
}

#[test]
fn closed_socket_supports_nothing() {
    let mut queue = EventQueue::new();
    let mut common = NetlinkSocketCommon::new(FileStatus::empty());
    let mut state = ProtocolState::Closed(ClosedState {});
    assert_eq!(state.bind(Some(kernel())), failed(Errno::EOPNOTSUPP));
    assert_eq!(
        state.sendmsg(&mut common, send(vec![1]), &mut queue),
        failed(Errno::EOPNOTSUPP)
    );
    assert_eq!(
        state.recvmsg(&mut common, RECV, IP, &mut queue).err(),
        Some(SyscallError::Failed(Errno::EOPNOTSUPP))
    );
}

#[test]
fn what_netlink_sockets_do_not_do() {
    let mut socket = socket(FileStatus::empty());
    assert_eq!(socket.shutdown(libc::SHUT_RD), failed(Errno::ENOSYS));
    assert_eq!(
        socket.getsockopt(libc::SOL_SOCKET, libc::SO_SNDBUF, 64, 4),
        failed(Errno::ENOSYS)
    );
    assert_eq!(
        socket.setsockopt(libc::SOL_SOCKET, libc::SO_SNDBUF, 64, 4),
        failed(Errno::ENOSYS)
    );
    assert_eq!(socket.ioctl(1), failed(Errno::EINVAL));
    assert!(socket.supports_sa_restart());
}

#[test]
fn socket_listeners_are_told() {
    let mut queue = EventQueue::new();
    let mut socket = socket(FileStatus::empty());
    let handle = socket.add_listener(FileState::readable(), NewStatusListenerFilter::OffToOn, 4);
    assert!(socket.add_legacy_listener(64));
    assert_eq!(socket.sendmsg(send(vec![1]), &mut queue), Ok(1));
    assert_eq!(queue.pop().unwrap().target, Target::Callback(4));
    let event = queue.pop().unwrap();
    assert_eq!(event.target, Target::Legacy(64));
    assert_eq!(event.status, socket.state().bits());
    assert_eq!(event.changed, (FileState::readable() | FileState::writable()).bits());
    // the state does not change
    assert_eq!(socket.sendmsg(send(vec![1]), &mut queue), Ok(1));
    assert_eq!(queue.pop(), None);
    assert!(socket.remove_legacy_listener(64));
    socket.remove_listener(handle);
    assert!(socket.recvmsg(RECV, IP, &mut queue).is_ok());
    assert!(socket.recvmsg(RECV, IP, &mut queue).is_ok());
    assert_eq!(queue.pop(), None);
}

#[test]
fn numbers_are_converted() {
    assert_eq!(NetlinkSocketType::try_from(libc::SOCK_DGRAM), Ok(NetlinkSocketType::Dgram));
    assert_eq!(NetlinkSocketType::try_from(libc::SOCK_RAW), Ok(NetlinkSocketType::Raw));
    let error = NetlinkSocketType::try_from(libc::SOCK_STREAM).unwrap_err();
    assert_eq!(error, NetlinkSocketTypeConversionError(1));
    assert_eq!(
        error.message(),
        "Invalid socket type 1; netlink sockets only support SOCK_DGRAM and SOCK_RAW"
    );
    assert_eq!(NetlinkFamily::try_from(libc::NETLINK_ROUTE), Ok(NetlinkFamily::Route));
    let error = NetlinkFamily::try_from(i32::MIN).unwrap_err();
    assert_eq!(error, NetlinkFamilyConversionError(i32::MIN));
    assert_eq!(
        error.message(),
        "Invalid netlink family -2147483648; netlink families only support NETLINK_ROUTE"
    );
    assert_eq!(MSG_TRUNC, libc::MSG_TRUNC);
    assert_eq!(MSG_DONTWAIT, libc::MSG_DONTWAIT);
    assert_eq!(MSG_NOSIGNAL, libc::MSG_NOSIGNAL);
}

#[derive(Default)]
struct Unix {
    status: i32,
    open: bool,
    listener: usize,
}

impl UnixSocketFile for Unix {
    fn state(&self) -> FileState {
        FileState::writable()
    }
    fn mode(&self) -> FileMode {
        FileMode::write()
    }
    fn get_status(&self) -> FileStatus {
        FileStatus { bits: self.status }
    }
    fn has_open_file(&self) -> bool {
        self.open
    }
    fn supports_sa_restart(&self) -> bool {
        false
    }
    fn getpeername(&self) -> Result<Option<SockaddrStorage>, SyscallError> {
        Ok(None)
    }
    fn getsockname(&self) -> Result<Option<SockaddrStorage>, SyscallError> {
        Ok(Some(SockaddrStorage::Other { family: 1 }))
    }
    fn address_family(&self) -> u16 {
        1
    }
    fn set_has_open_file(&mut self, val: bool) {
        self.open = val;
    }
    fn close(&mut self, _cb_queue: &mut EventQueue) -> Result<(), SyscallError> {
        Ok(())
    }
    fn set_status(&mut self, status: FileStatus) {
        self.status = status.bits;
    }
    fn ioctl(&mut self, request: u64) -> Result<i32, SyscallError> {
        Ok(request as i32)
    }
    fn add_legacy_listener(&mut self, ptr: usize) -> bool {
        self.listener = ptr;
        true
    }
    fn remove_legacy_listener(&mut self, ptr: usize) -> bool {
        self.listener == ptr
    }
    fn bind(&mut self, _addr: Option<SockaddrStorage>) -> Result<i32, SyscallError> {
        Ok(0)
    }
    fn connect(
        &mut self,
        _addr: SockaddrStorage,
        _cb_queue: &mut EventQueue,
    ) -> Result<(), SyscallError> {
        failed(Errno::Other(libc::ECONNREFUSED))
    }
    fn accept(
        &mut self,
        _cb_queue: &mut EventQueue,
    ) -> Result<Arc<AtomicRefCell<Self>>, SyscallError> {
        Ok(Arc::new(AtomicRefCell::new(Unix { status: 1, ..Unix::default() })))
    }
    fn read(
        &mut self,
        bytes: &mut [u8],
        offset: i64,
        _cb_queue: &mut EventQueue,
    ) -> Result<i32, SyscallError> {
        bytes[0] = offset as u8;
        Ok(1)
    }
    fn write(
        &mut self,
        source: &[u8],
        _offset: i64,
        _cb_queue: &mut EventQueue,
    ) -> Result<i32, SyscallError> {
        self.status = i32::from(source[0]);
        Ok(source.len() as i32)
    }
    fn sendto(
        &mut self,
        source: &[u8],
        _addr: Option<SockaddrStorage>,
        _cb_queue: &mut EventQueue,
    ) -> Result<i32, SyscallError> {
        Ok(source.len() as i32)
    }
    fn recvfrom(
        &mut self,
        bytes: &mut [u8],
        _cb_queue: &mut EventQueue,
    ) -> Result<(i32, Option<SockaddrStorage>), SyscallError> {
        bytes[0] = 7;
        Ok((1, None))
    }
    fn listen(&mut self, backlog: i32, _cb_queue: &mut EventQueue) -> Result<(), SyscallError> {
        if backlog < 0 {
            failed(Errno::EINVAL)
        } else {
            Ok(())
        }
    }
}

#[test]
fn shared_socket_is_borrowed_by_kind() {
    let cell = Arc::new(AtomicRefCell::new(socket(FileStatus::empty())));
    let shared: Socket<Unix> = Socket::Netlink(Arc::clone(&cell));
    let copy = shared.clone();
    assert_eq!(Arc::strong_count(&cell), 3);
    match copy.try_borrow() {
        Ok(SocketGuard::Netlink(guard)) => assert_eq!(guard.state(), FileState::active()),
        _ => panic!("the socket is not borrowed"),
    }
    match shared.try_borrow_mut() {
        Ok(SocketGuardMut::Netlink(mut guard)) => {
            guard.set_has_open_file(true);
            assert!(copy.try_borrow().is_err());
            assert!(copy.try_borrow_mut().is_err());
        }
        _ => panic!("the socket is not borrowed"),
    }
    assert!(cell.borrow().has_open_file());
    let shared = Socket::Unix(Arc::new(AtomicRefCell::new(Unix::default())));
    assert!(matches!(shared.try_borrow(), Ok(SocketGuard::Unix(_))));
    assert!(matches!(shared.try_borrow_mut(), Ok(SocketGuardMut::Unix(_))));
}

#[test]
fn bytes_go_through_unix_sockets() {
    let mut queue = EventQueue::new();
    let mut unix = Unix::default();
    let mut buffer = [0; 2];
    assert_eq!(
        SocketRefMut::Unix(&mut unix).read(&mut buffer, 3, &mut queue),
        Ok(1)
    );
    assert_eq!(buffer, [3, 0]);
    assert_eq!(
        SocketRefMut::Unix(&mut unix).write(&[5, 6], 0, &mut queue),
        Ok(2)
    );
    assert_eq!(unix.status, 5);
    assert_eq!(
        SocketRefMut::Unix(&mut unix).sendto(&[5, 6, 7], None, &mut queue),
        Ok(3)
    );
    assert_eq!(
        SocketRefMut::Unix(&mut unix).recvfrom(&mut buffer, &mut queue),
        Ok((1, None))
    );
    assert_eq!(buffer, [7, 0]);
    match SocketRefMut::Unix(&mut unix).accept(&mut queue) {
        Ok(Socket::Unix(accepted)) => assert_eq!(accepted.borrow().status, 1),
        _ => panic!("no connection was accepted"),
    }
}

#[test]
fn calls_go_to_the_socket_of_the_kind() {
    let mut queue = EventQueue::new();
    let mut unix = Unix::default();
    let mut netlink = socket(FileStatus::empty());

    SocketRefMut::Unix(&mut unix).set_status(FileStatus { bits: 5 });
    SocketRefMut::<Unix>::Netlink(&mut netlink).set_status(FileStatus { bits: 6 });
    assert_eq!(SocketRef::Unix(&unix).get_status().bits, 5);
    assert_eq!(SocketRef::<Unix>::Netlink(&netlink).get_status().bits, 6);

    SocketRefMut::Unix(&mut unix).set_has_open_file(true);
    assert!(SocketRef::Unix(&unix).has_open_file());
    assert!(!SocketRef::<Unix>::Netlink(&netlink).has_open_file());
    SocketRefMut::<Unix>::Netlink(&mut netlink).set_has_open_file(true);
    assert!(SocketRefMut::<Unix>::Netlink(&mut netlink).has_open_file());

    assert_eq!(SocketRef::Unix(&unix).state(), FileState::writable());
    assert_eq!(SocketRef::<Unix>::Netlink(&netlink).state(), FileState::active());
    assert_eq!(SocketRefMut::Unix(&mut unix).state(), FileState::writable());
    assert_eq!(SocketRefMut::<Unix>::Netlink(&mut netlink).state(), FileState::active());
    assert!(!SocketRef::Unix(&unix).supports_sa_restart());
    assert!(SocketRef::<Unix>::Netlink(&netlink).supports_sa_restart());

    assert_eq!(SocketRef::Unix(&unix).mode(), FileMode::write());
    assert_eq!(SocketRef::Unix(&unix).getpeername(), Ok(None));
    assert_eq!(
        SocketRefMut::Unix(&mut unix).getsockname(),
        Ok(Some(SockaddrStorage::Other { family: 1 }))
    );
    assert_eq!(SocketRef::Unix(&unix).address_family(), 1);
    assert_eq!(SocketRefMut::Unix(&mut unix).close(&mut queue), Ok(()));
    assert_eq!(
        SocketRefMut::Unix(&mut unix).listen(-1, &mut queue),
        failed(Errno::EINVAL)
    );

    assert_eq!(
        SocketRefMut::Unix(&mut unix).connect(kernel(), &mut queue),
        failed(Errno::Other(libc::ECONNREFUSED))
    );
    assert_eq!(SocketRefMut::Unix(&mut unix).ioctl(3), Ok(3));
    assert_eq!(
        SocketRefMut::<Unix>::Netlink(&mut netlink).ioctl(3),
        failed(Errno::EINVAL)
    );
    assert_eq!(SocketRefMut::Unix(&mut unix).bind(None), Ok(0));
    assert_eq!(
        SocketRefMut::<Unix>::Netlink(&mut netlink).bind(None),
        failed(Errno::EINVAL)
    );
    assert!(SocketRefMut::Unix(&mut unix).add_legacy_listener(1));
    assert!(SocketRefMut::Unix(&mut unix).remove_legacy_listener(1));
    assert!(SocketRefMut::<Unix>::Netlink(&mut netlink).add_legacy_listener(1));
    assert!(SocketRefMut::<Unix>::Netlink(&mut netlink).remove_legacy_listener(1));
    assert!(!SocketRefMut::<Unix>::Netlink(&mut netlink).remove_legacy_listener(1));
}
