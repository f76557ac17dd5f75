//! The part of the routing netlink protocol that lists the addresses of a host: rtnetlink(7).
//!
//! Messages are written and read by the `neli` crate. Which messages answer a request is decided
//! here.
use crate::bytes::{
    be_bytes, from_ne_bytes, le_bytes, lemma_byte_ranges, lemma_bytes, lemma_bytes_len,
    lemma_from_bytes, ne_bytes, u16_from_ne_bytes, u32_from_ne_bytes,
};
use neli::consts::nl::NlmFFlags;
use neli::consts::rtnl::{Ifa, IfaFFlags, RtAddrFamily, Rtm};
use neli::nl::{NlPayload, Nlmsghdr};
use neli::rtnl::{Ifaddrmsg, Rtattr};
use neli::types::{Buffer, RtBuffer};
use neli::{FromBytes, ToBytes};
use std::io::Cursor;
use vstd::endian::endianness;
use vstd::prelude::*;

verus! {

/// The type of a message that reports an error.
pub const NLMSG_ERROR: u16 = 2;

/// The type of the message that ends a multipart message.
pub const NLMSG_DONE: u16 = 3;

/// The type of a message that describes an address.
pub const RTM_NEWADDR: u16 = 20;

/// The type of a message that asks for addresses.
pub const RTM_GETADDR: u16 = 22;

/// The flag of a message that is part of a multipart message.
pub const NLM_F_MULTI: u16 = 2;

/// The address family that stands for all of them.
pub const AF_UNSPEC: u8 = 0;

/// The address family of IPv4.
pub const AF_INET: u8 = 2;

/// The attribute with the address of an interface.
pub const IFA_ADDRESS: u16 = 1;

/// The attribute with the local address of an interface.
pub const IFA_LOCAL: u16 = 2;

/// The attribute with the name of an interface.
pub const IFA_LABEL: u16 = 3;

/// The attribute with the broadcast address of an interface.
pub const IFA_BROADCAST: u16 = 4;

/// The flag of a permanent address.
pub const IFA_F_PERMANENT: u8 = 0x80;

/// The scope of an address that is valid everywhere.
pub const RT_SCOPE_UNIVERSE: u8 = 0;

/// The scope of an address that is valid on this host only.
pub const RT_SCOPE_HOST: u8 = 254;

/// The fixed part of a message about an address.
#[derive(Clone, Copy, PartialEq, Eq, Structural, Debug)]
pub struct AddressHeader {
    pub family: u8,
    pub prefix_len: u8,
    pub flags: u8,
    pub scope: u8,
    pub index: i32,
}

/// What the answer to a request depends on.
#[derive(Clone, Copy, PartialEq, Eq, Structural, Debug)]
pub struct Request {
    /// The type of the message.
    pub nl_type: u16,
    /// The sequence number of the message.
    pub nl_seq: u32,
    /// The fixed part of the payload, unless the message is an error or ends a multipart message.
    pub payload: Option<AddressHeader>,
}

/// The number in the two bytes of `bytes` from `at` on.
pub open spec fn u16_at(bytes: Seq<u8>, at: int) -> u16 {
    from_ne_bytes(bytes.subrange(at, at + 2)) as u16
}

/// The number in the four bytes of `bytes` from `at` on.
pub open spec fn u32_at(bytes: Seq<u8>, at: int) -> u32 {
    from_ne_bytes(bytes.subrange(at, at + 4)) as u32
}

/// `len` rounded up to a multiple of 4.
pub open spec fn aligned(len: nat) -> nat {
    ((len + 3) / 4 * 4) as nat
}

/// `bytes` with zeros behind them up to a multiple of 4.
pub open spec fn padded(bytes: Seq<u8>) -> Seq<u8> {
    bytes + Seq::new((aligned(bytes.len()) - bytes.len()) as nat, |i: int| 0u8)
}

/// A netlink message: its length, type, flags, sequence number and sender (the kernel, 0), then
/// its payload.
#[verifier::opaque]
pub open spec fn message_bytes(
    nl_type: u16,
    flags: u16,
    seq: u32,
    payload: Seq<u8>,
) -> Seq<u8> {
    padded(
        ne_bytes(aligned(16 + payload.len()), 4) + ne_bytes(nl_type as nat, 2) + ne_bytes(
            flags as nat,
            2,
        ) + ne_bytes(seq as nat, 4) + ne_bytes(0, 4) + payload,
    )
}

/// A routing attribute: its length, without the padding, its type, then its payload.
#[verifier::opaque]
pub open spec fn attribute_bytes(rta_type: u16, payload: Seq<u8>) -> Seq<u8> {
    padded(ne_bytes(4 + payload.len(), 2) + ne_bytes(rta_type as nat, 2) + payload)
}

/// The fixed part of a message about an address.
pub open spec fn address_header_bytes(header: AddressHeader) -> Seq<u8> {
    seq![header.family, header.prefix_len, header.flags, header.scope] + ne_bytes(
        (header.index as u32) as nat,
        4,
    )
}

/// Whether `bytes` can be read as a message about an address, on a machine with the given byte
/// order. This names whether `Nlmsghdr::<Rtm, Ifaddrmsg>::from_bytes` succeeds, which depends on
/// how the lengths of the message and of its attributes fit into each other.
pub uninterp spec fn nlmsg_parses(little_endian: bool, bytes: Seq<u8>) -> bool;

/// Whether the length that a message claims to have leaves room for what its type says it holds:
/// the header, and in an error message the error code and the header of the message that caused
/// it, which is all there is if the code is 0. The parts that `bytes` are too short for do not
/// matter.
pub open spec fn length_plausible(bytes: Seq<u8>) -> bool {
    bytes.len() >= 16 ==> {
        let len = u32_at(bytes, 0);
        &&& len >= 16
        &&& u16_at(bytes, 4) == NLMSG_ERROR && bytes.len() >= 20 ==> {
            &&& len >= 20
            &&& bytes.len() >= 36 ==> len >= 36 && (u32_at(bytes, 16) == 0 ==> len == 36)
        }
    }
}

/// Whether `bytes` start with a message without attributes, and with its length in order.
pub open spec fn without_attributes(bytes: Seq<u8>) -> bool {
    &&& bytes.len() >= 24
    &&& u32_at(bytes, 0) == 24
    &&& u16_at(bytes, 4) != NLMSG_ERROR
    &&& u16_at(bytes, 4) != NLMSG_DONE
}

/// The fixed part of the message about an address that `bytes` start with.
pub open spec fn address_header_of(bytes: Seq<u8>) -> AddressHeader {
    AddressHeader {
        family: bytes[16],
        prefix_len: bytes[17],
        flags: bytes[18],
        scope: bytes[19],
        index: u32_at(bytes, 20) as i32,
    }
}

/// Reads a message about an address.
///
/// This is `Nlmsghdr::<Rtm, Ifaddrmsg>::from_bytes` of `neli`. It is trusted to find the type, the
/// sequence number and the fixed part of the payload at their places in the message, in the byte
/// order of the machine; to find a payload in everything but an error message and the end of a
/// multipart message; to refuse what is shorter than a header; and to read a message that has no
/// attributes. Which messages with attributes, and which messages of the two types without a
/// payload, it reads is only given a name. It subtracts from the claimed length of the message
/// without a check, so that has to be plausible. Its trace messages, which look beyond the end of
/// a short message, are compiled out.
#[verifier::external_body]
fn parse_request(bytes: &[u8]) -> (r: Option<Request>)
    requires
        length_plausible(bytes@),
    ensures
        r is Some <==> nlmsg_parses(endianness() is Little, bytes@),
        bytes@.len() < 16 ==> r is None,
        without_attributes(bytes@) ==> r is Some,
        r matches Some(request) ==> request == request_fields(bytes@),
{
    let message = Nlmsghdr::<Rtm, Ifaddrmsg>::from_bytes(&mut Cursor::new(bytes)).ok()?;
    let payload = message.get_payload().ok().map(|ifa| {
        let mut flags = Cursor::new(Vec::new());
        ifa.ifa_flags.to_bytes(&mut flags).unwrap();
        AddressHeader {
            family: ifa.ifa_family.into(),
            prefix_len: ifa.ifa_prefixlen,
            flags: flags.into_inner()[0],
            scope: ifa.ifa_scope,
            index: ifa.ifa_index,
        }
    });
    Some(Request { nl_type: message.nl_type.into(), nl_seq: message.nl_seq, payload })
}

/// Writes a netlink message from the kernel.
///
/// This is `Nlmsghdr::new` and `to_bytes` of `neli`. They are trusted to write the header in the
/// byte order of the machine, with the padded length of the message, then the payload and zeros up
/// to a multiple of 4.
#[verifier::external_body]
fn write_message(nl_type: u16, flags: u16, seq: u32, payload: &[u8]) -> (r: Vec<u8>)
    requires
        payload@.len() <= 0xffff_ffe0,
    ensures
        r@ == message_bytes(nl_type, flags, seq, payload@),
{
    let payload = NlPayload::Payload(Buffer::from(payload));
    let flags = NlmFFlags::from_bitmask(flags);
    let message = Nlmsghdr::new(None, Rtm::from(nl_type), flags, Some(seq), None, payload);
    let mut buffer = Cursor::new(Vec::new());
    message.to_bytes(&mut buffer).unwrap();
    buffer.into_inner()
}

/// Writes a routing attribute.
///
/// This is `Rtattr::new` and `to_bytes` of `neli`. They are trusted to write the length without
/// the padding and the type in the byte order of the machine, then the payload and zeros up to a
/// multiple of 4. The length has to fit into 16 bits.
#[verifier::external_body]
fn write_attribute(rta_type: u16, payload: &[u8]) -> (r: Vec<u8>)
    requires
        payload@.len() <= 0xfffb,
    ensures
        r@ == attribute_bytes(rta_type, payload@),
{
    let attribute = Rtattr::new(None, Ifa::from(rta_type), Buffer::from(payload)).unwrap();
    let mut buffer = Cursor::new(Vec::new());
    attribute.to_bytes(&mut buffer).unwrap();
    buffer.into_inner()
}

/// Writes the fixed part of a message about an address.
///
/// This is `to_bytes` of `neli`'s `Ifaddrmsg` without attributes. It is trusted to write the four
/// fields of one byte each, then the index in the byte order of the machine.
#[verifier::external_body]
fn write_address_header(header: &AddressHeader) -> (r: Vec<u8>)
    ensures
        r@ == address_header_bytes(*header),
{
    let message = Ifaddrmsg {
        ifa_family: RtAddrFamily::from(header.family),
        ifa_prefixlen: header.prefix_len,
        ifa_flags: IfaFFlags::from_bitmask(header.flags),
        ifa_scope: header.scope,
        ifa_index: header.index,
        rtattrs: RtBuffer::new(),
    };
    let mut buffer = Cursor::new(Vec::new());
    message.to_bytes(&mut buffer).unwrap();
    buffer.into_inner()
}

/// A network interface of the host.
pub struct Interface {
    /// The address, as a number whose most significant byte comes first in dotted notation.
    pub address: u32,
    /// The name, in ASCII.
    pub label: Vec<u8>,
    /// The number of leading bits that all addresses of the network have in common.
    pub prefix_len: u8,
    /// Where the address is valid.
    pub scope: u8,
    /// The number of the interface.
    pub index: i32,
}

/// What an interface is, apart from how it is stored.
#[verifier::ext_equal]
pub struct InterfaceView {
    pub address: u32,
    pub label: Seq<u8>,
    pub prefix_len: u8,
    pub scope: u8,
    pub index: i32,
}

impl View for Interface {
    type V = InterfaceView;

    open spec fn view(&self) -> InterfaceView {
        InterfaceView {
            address: self.address,
            label: self.label@,
            prefix_len: self.prefix_len,
            scope: self.scope,
            index: self.index,
        }
    }
}

impl InterfaceView {
    /// The broadcast address of the network: all bits behind the prefix are set.
    pub open spec fn broadcast(self) -> u32 {
        if self.prefix_len == 32 {
            self.address
        } else {
            (0xffff_ffff_u32 >> (self.prefix_len as u32)) | self.address
        }
    }

    /// The message that describes the interface.
    pub open spec fn message(self, seq: u32) -> Seq<u8> {
        message_bytes(
            RTM_NEWADDR,
            NLM_F_MULTI,
            seq,
            address_header_bytes(
                AddressHeader {
                    family: AF_INET,
                    prefix_len: self.prefix_len,
                    flags: IFA_F_PERMANENT,
                    scope: self.scope,
                    index: self.index,
                },
            ) + attribute_bytes(IFA_ADDRESS, be_bytes(self.address as nat, 4)) + attribute_bytes(
                IFA_LOCAL,
                be_bytes(self.address as nat, 4),
            ) + attribute_bytes(IFA_BROADCAST, be_bytes(self.broadcast() as nat, 4))
                + attribute_bytes(IFA_LABEL, self.label.push(0)),
        )
    }
}

/// The loopback interface: `lo`, 127.0.0.1/8.
pub open spec fn loopback() -> InterfaceView {
    InterfaceView {
        address: 0x7f00_0001,
        label: seq![0x6c, 0x6f],
        prefix_len: 8,
        scope: RT_SCOPE_HOST,
        index: 1,
    }
}

/// The interface to the simulated network: `eth0`, with the default address of the host.
pub open spec fn ethernet(default_ip: u32) -> InterfaceView {
    InterfaceView {
        address: default_ip,
        label: seq![0x65, 0x74, 0x68, 0x30],
        prefix_len: 24,
        scope: RT_SCOPE_UNIVERSE,
        index: 2,
    }
}

/// The message that reports an error.
pub open spec fn error_message(seq: u32) -> Seq<u8> {
    message_bytes(NLMSG_ERROR, 0, seq, Seq::empty())
}

/// The message that ends a multipart message.
pub open spec fn done_message(seq: u32) -> Seq<u8> {
    message_bytes(NLMSG_DONE, NLM_F_MULTI, seq, ne_bytes(0, 4))
}

impl Request {
    /// Whether the request asks for all addresses, or all IPv4 addresses, of the host: nothing
    /// else is supported, so all other fields have to be zero.
    pub open spec fn spec_is_supported(self) -> bool {
        &&& self.nl_type == RTM_GETADDR
        &&& self.payload matches Some(header) && {
            &&& header.family == AF_UNSPEC || header.family == AF_INET
            &&& header.prefix_len == 0
            &&& header.flags == 0
            &&& header.index == 0
            &&& header.scope == RT_SCOPE_UNIVERSE
        }
    }

    /// Whether the request asks for all addresses, or all IPv4 addresses, of the host.
    #[verifier::when_used_as_spec(spec_is_supported)]
    pub fn is_supported(self) -> (r: bool)
        ensures
            r == self.is_supported(),
    {
        // only RTM_GETADDR is supported
        if self.nl_type != RTM_GETADDR {
            return false;
        }
        match self.payload {
            None => false,
            Some(header) => {
                // only AF_UNSPEC and AF_INET are supported
                if header.family != AF_UNSPEC && header.family != AF_INET {
                    return false;
                }
                // the rest of the fields are unsupported; we limit only the interest to the zero
                // values

                header.prefix_len == 0 && header.flags == 0 && header.index == 0 && header.scope
                    == RT_SCOPE_UNIVERSE
            },
        }
    }
}

/// The answer to a packet: an error without a sequence number if the packet is no request, an
/// error if the request is not supported, and otherwise the two interfaces of the host.
pub open spec fn reply_bytes(request: Option<Request>, default_ip: u32) -> Seq<u8> {
    match request {
        None => error_message(0),
        Some(request) => if request.is_supported() {
            loopback().message(request.nl_seq) + ethernet(default_ip).message(request.nl_seq)
                + done_message(request.nl_seq)
        } else {
            error_message(request.nl_seq)
        },
    }
}

/// The request that a packet holds if it can be read as one.
pub open spec fn request_fields(packet: Seq<u8>) -> Request {
    let nl_type = u16_at(packet, 4);
    Request {
        nl_type,
        nl_seq: u32_at(packet, 8),
        payload: if nl_type == NLMSG_ERROR || nl_type == NLMSG_DONE {
            None
        } else {
            Some(address_header_of(packet))
        },
    }
}

/// The request that a packet holds, if it can be read as one.
pub open spec fn request_of(packet: Seq<u8>) -> Option<Request> {
    if nlmsg_parses(endianness() is Little, packet) {
        Some(request_fields(packet))
    } else {
        None
    }
}

/// The four bytes of an address, in the order of dotted notation.
fn octets(address: u32) -> (r: Vec<u8>)
    ensures
        r@ == be_bytes(address as nat, 4),
        r@.len() == 4,
{
    let a: u8 = (address / 0x100_0000) as u8;
    let b: u8 = (address / 0x1_0000 % 0x100) as u8;
    let c: u8 = (address / 0x100 % 0x100) as u8;
    let d: u8 = (address % 0x100) as u8;
    proof {
        reveal_with_fuel(le_bytes, 5);
        assert(le_bytes(address as nat, 4) == seq![d, c, b, a]);
    }
    vec![a, b, c, d]
}

/// Appends the bytes of `tail` to `bytes`.
fn append(bytes: &mut Vec<u8>, tail: Vec<u8>)
    ensures
        final(bytes)@ == old(bytes)@ + tail@,
{
    let mut tail = tail;
    bytes.append(&mut tail);
}

/// How long the parts of a message are.
pub proof fn lemma_lengths(header: AddressHeader, rta_type: u16, payload: Seq<u8>)
    ensures
        address_header_bytes(header).len() == 8,
        attribute_bytes(rta_type, payload).len() == aligned(4 + payload.len()),
{
    reveal(attribute_bytes);
    lemma_bytes_len((header.index as u32) as nat, 4);
    lemma_bytes_len(4 + payload.len(), 2);
    lemma_bytes_len(rta_type as nat, 2);
}

impl Interface {
    /// The loopback interface.
    pub fn loopback() -> (r: Interface)
        ensures
            r@ == loopback(),
    {
        Interface {
            address: 0x7f00_0001,
            label: vec![0x6c, 0x6f],
            prefix_len: 8,
            scope: RT_SCOPE_HOST,
            index: 1,
        }
    }

    /// The interface to the simulated network.
    pub fn ethernet(default_ip: u32) -> (r: Interface)
        ensures
            r@ == ethernet(default_ip),
    {
        Interface {
            address: default_ip,
            label: vec![0x65, 0x74, 0x68, 0x30],
            prefix_len: 24,
            scope: RT_SCOPE_UNIVERSE,
            index: 2,
        }
    }

    /// The broadcast address of the network.
    pub fn broadcast(&self) -> (r: u32)
        requires
            self.prefix_len <= 32,
        ensures
            r == self@.broadcast(),
    {
        if self.prefix_len == 32 {
            self.address
        } else {
            (0xffff_ffff_u32 >> (self.prefix_len as u32)) | self.address
        }
    }

    /// The message that describes the interface.
    pub fn message(&self, seq: u32) -> (r: Vec<u8>)
        requires
            self.prefix_len <= 32,
            self@.label.len() < 0xfffb,
        ensures
            r@ == self@.message(seq),
    {
        let address = octets(self.address);
        let broadcast = octets(self.broadcast());
        let mut label = self.label.clone();
        // null-terminate
        label.push(0);
        let header = AddressHeader {
            family: AF_INET,
            prefix_len: self.prefix_len,
            flags: IFA_F_PERMANENT,
            scope: self.scope,
            index: self.index,
        };
        let mut payload = write_address_header(&header);
        // Linux provides the same address for IFA_ADDRESS and IFA_LOCAL
        append(&mut payload, write_attribute(IFA_ADDRESS, address.as_slice()));
        append(&mut payload, write_attribute(IFA_LOCAL, address.as_slice()));
        append(&mut payload, write_attribute(IFA_BROADCAST, broadcast.as_slice()));
        append(&mut payload, write_attribute(IFA_LABEL, label.as_slice()));
        proof {
            lemma_lengths(header, IFA_ADDRESS, address@);
            lemma_lengths(header, IFA_LOCAL, address@);
            lemma_lengths(header, IFA_BROADCAST, broadcast@);
            lemma_lengths(header, IFA_LABEL, label@);
        }
        write_message(RTM_NEWADDR, NLM_F_MULTI, seq, payload.as_slice())
    }
}

/// The answer to a packet that was read as `request`.
pub fn reply(request: Option<Request>, default_ip: u32) -> (r: Vec<u8>)
    ensures
        r@ == reply_bytes(request, default_ip),
{
    let no_payload: [u8; 0] = [];
    assert(no_payload@ == Seq::<u8>::empty());
    let request = match request {
        // since we don't know the sequence number yet, we don't put it here
        None => {
            return write_message(NLMSG_ERROR, 0, 0, &no_payload);
        },
        Some(request) => request,
    };
    // use the same sequence number as the request
    let seq: u32 = request.nl_seq;
    if !request.is_supported() {
        return write_message(NLMSG_ERROR, 0, seq, &no_payload);
    }
    // both interfaces of the host, configured as in the syscall of getifaddrs
    let interfaces = [Interface::loopback(), Interface::ethernet(default_ip)];
    let mut buffer = interfaces[0].message(seq);
    append(&mut buffer, interfaces[1].message(seq));
    // Linux also emits 4 bytes of zeroes after the header
    let zeroes: [u8; 4] = [0, 0, 0, 0];
    proof {
        reveal_with_fuel(le_bytes, 5);
        assert(le_bytes(0, 4) == zeroes@);
        assert(le_bytes(0, 4).reverse() == zeroes@);
    }
    append(&mut buffer, write_message(NLMSG_DONE, NLM_F_MULTI, seq, &zeroes));
    buffer
}

/// Whether the length that a message claims to have is plausible, so that the message can be
/// answered.
pub fn has_plausible_length(bytes: &[u8]) -> (r: bool)
    ensures
        r == length_plausible(bytes@),
{
    if bytes.len() < 16 {
        return true;
    }
    assert(bytes@.subrange(0, 4) == seq![bytes@[0], bytes@[1], bytes@[2], bytes@[3]]);
    assert(bytes@.subrange(4, 6) == seq![bytes@[4], bytes@[5]]);
    let len: u32 = u32_from_ne_bytes([bytes[0], bytes[1], bytes[2], bytes[3]]);
    let nl_type: u16 = u16_from_ne_bytes([bytes[4], bytes[5]]);
    if len < 16 {
        return false;
    }
    if nl_type != NLMSG_ERROR || bytes.len() < 20 {
        return true;
    }
    if len < 20 {
        return false;
    }
    if bytes.len() < 36 {
        return true;
    }
    assert(bytes@.subrange(16, 20) == seq![bytes@[16], bytes@[17], bytes@[18], bytes@[19]]);
    let code: u32 = u32_from_ne_bytes([bytes[16], bytes[17], bytes[18], bytes[19]]);
    len == 36 || (len > 36 && code != 0)
}

/// Whether `bytes` are the answer to `packet`. A packet that is too short for a header is answered
/// with an error, and a message without attributes is answered as the request that its fields make
/// up.
pub open spec fn is_answer(bytes: Seq<u8>, packet: Seq<u8>, default_ip: u32) -> bool {
    &&& bytes == reply_bytes(request_of(packet), default_ip)
    &&& packet.len() < 16 ==> bytes == error_message(0)
    &&& without_attributes(packet) ==> bytes == reply_bytes(
        Some(request_fields(packet)),
        default_ip,
    )
}

/// The answer to `packet`.
pub fn answer(packet: &[u8], default_ip: u32) -> (r: Vec<u8>)
    requires
        length_plausible(packet@),
    ensures
        is_answer(r@, packet@, default_ip),
{
    reply(parse_request(packet), default_ip)
}

/// A message says how long it is and what it is, and what its payload is can be read back.
pub proof fn law_message_readable(nl_type: u16, flags: u16, seq: u32, payload: Seq<u8>)
    requires
        payload.len() <= 0xffff_ffe0,
    ensures
        ({
            let message = message_bytes(nl_type, flags, seq, payload);
            &&& message.len() == aligned(16 + payload.len())
            &&& u32_at(message, 0) == message.len()
            &&& u16_at(message, 4) == nl_type
            &&& u16_at(message, 6) == flags
            &&& u32_at(message, 8) == seq
            &&& u32_at(message, 12) == 0
            &&& message.subrange(16, 16 + payload.len() as int) == payload
        }),
{
    reveal(message_bytes);
    let message = message_bytes(nl_type, flags, seq, payload);
    let len = aligned(16 + payload.len());
    lemma_byte_ranges();
    lemma_bytes(len, 4);
    lemma_bytes(nl_type as nat, 2);
    lemma_bytes(flags as nat, 2);
    lemma_bytes(seq as nat, 4);
    lemma_bytes(0, 4);
    assert(message.subrange(0, 4) == ne_bytes(len, 4));
    assert(message.subrange(4, 6) == ne_bytes(nl_type as nat, 2));
    assert(message.subrange(6, 8) == ne_bytes(flags as nat, 2));
    assert(message.subrange(8, 12) == ne_bytes(seq as nat, 4));
    assert(message.subrange(12, 16) == ne_bytes(0, 4));
}

/// An attribute says how long it is and what it is, and what its payload is can be read back.
pub proof fn law_attribute_readable(rta_type: u16, payload: Seq<u8>)
    requires
        payload.len() <= 0xfffb,
    ensures
        ({
            let attribute = attribute_bytes(rta_type, payload);
            &&& attribute.len() == aligned(4 + payload.len())
            &&& u16_at(attribute, 0) == 4 + payload.len()
            &&& u16_at(attribute, 2) == rta_type
            &&& attribute.subrange(4, 4 + payload.len() as int) == payload
        }),
{
    reveal(attribute_bytes);
    let attribute = attribute_bytes(rta_type, payload);
    lemma_byte_ranges();
    lemma_bytes(4 + payload.len(), 2);
    lemma_bytes(rta_type as nat, 2);
    assert(attribute.subrange(0, 2) == ne_bytes(4 + payload.len(), 2));
    assert(attribute.subrange(2, 4) == ne_bytes(rta_type as nat, 2));
}

/// A request without attributes that was written as it should be is read as what was written.
pub proof fn law_request_readable(nl_type: u16, flags: u16, seq: u32, header: AddressHeader)
    requires
        nl_type != NLMSG_ERROR,
        nl_type != NLMSG_DONE,
    ensures
        ({
            let packet = message_bytes(nl_type, flags, seq, address_header_bytes(header));
            &&& length_plausible(packet)
            &&& without_attributes(packet)
            &&& request_fields(packet) == (Request {
                nl_type,
                nl_seq: seq,
                payload: Some(header),
            })
        }),
{
    let payload = address_header_bytes(header);
    let packet = message_bytes(nl_type, flags, seq, payload);
    let index = header.index;
    lemma_byte_ranges();
    lemma_bytes((index as u32) as nat, 4);
    law_message_readable(nl_type, flags, seq, payload);
    let read = packet.subrange(16, 24);
    assert(read == payload);
    assert(packet[16] == read[0] && packet[17] == read[1] && packet[18] == read[2] && packet[19]
        == read[3]);
    assert(packet.subrange(20, 24) == read.subrange(4, 8));
    assert(payload.subrange(4, 8) == ne_bytes((index as u32) as nat, 4));
    assert((index as u32) as i32 == index) by (bit_vector);
}

/// Whether the bytes from `at` on are the header of a message of `len` bytes with this type, these
/// flags and this sequence number.
#[verifier::opaque]
pub open spec fn header_at(
    bytes: Seq<u8>,
    at: int,
    len: int,
    nl_type: u16,
    flags: u16,
    seq: u32,
) -> bool {
    &&& 0 <= at <= at + 16 <= at + len <= bytes.len()
    &&& u32_at(bytes, at) == len
    &&& u16_at(bytes, at + 4) == nl_type
    &&& u16_at(bytes, at + 6) == flags
    &&& u32_at(bytes, at + 8) == seq
}

/// The answer to a request that is not supported is a single error message with the sequence
/// number of the request.
pub proof fn law_unsupported_reply(request: Request, default_ip: u32)
    requires
        !request.is_supported(),
    ensures
        reply_bytes(Some(request), default_ip).len() == 16,
        header_at(
            reply_bytes(Some(request), default_ip),
            0,
            16,
            NLMSG_ERROR,
            0,
            request.nl_seq,
        ),
{
    reveal(header_at);
    law_message_readable(NLMSG_ERROR, 0, request.nl_seq, Seq::empty());
}

/// The answer to a supported request is one message per interface and the message that ends them,
/// each with the sequence number of the request and marked as part of a multipart message.
pub proof fn law_supported_reply(request: Request, default_ip: u32)
    requires
        request.is_supported(),
    ensures
        ({
            let reply = reply_bytes(Some(request), default_ip);
            &&& reply.len() == 136
            &&& header_at(reply, 0, 56, RTM_NEWADDR, NLM_F_MULTI, request.nl_seq)
            &&& header_at(reply, 56, 60, RTM_NEWADDR, NLM_F_MULTI, request.nl_seq)
            &&& header_at(reply, 116, 20, NLMSG_DONE, NLM_F_MULTI, request.nl_seq)
        }),
{
    let seq = request.nl_seq;
    let first = loopback().message(seq);
    let second = ethernet(default_ip).message(seq);
    let third = done_message(seq);
    lemma_interface_message(loopback(), seq);
    lemma_interface_message(ethernet(default_ip), seq);
    lemma_done_message(seq);
    lemma_parts_readable(first, second, third, seq);
}

/// The headers of the three messages read the same where the messages stand behind each other.
proof fn lemma_parts_readable(first: Seq<u8>, second: Seq<u8>, third: Seq<u8>, seq: u32)
    requires
        first.len() == 56,
        second.len() == 60,
        third.len() == 20,
        header_at(first, 0, 56, RTM_NEWADDR, NLM_F_MULTI, seq),
        header_at(second, 0, 60, RTM_NEWADDR, NLM_F_MULTI, seq),
        header_at(third, 0, 20, NLMSG_DONE, NLM_F_MULTI, seq),
    ensures
        (first + second + third).len() == 136,
        header_at(first + second + third, 0, 56, RTM_NEWADDR, NLM_F_MULTI, seq),
        header_at(first + second + third, 56, 60, RTM_NEWADDR, NLM_F_MULTI, seq),
        header_at(first + second + third, 116, 20, NLMSG_DONE, NLM_F_MULTI, seq),
{
    assert(Seq::<u8>::empty() + first + (second + third) == first + second + third);
    assert(first + second + third + Seq::<u8>::empty() == first + second + third);
    lemma_part_readable(Seq::empty(), first, second + third, 56, RTM_NEWADDR, NLM_F_MULTI, seq);
    lemma_part_readable(first, second, third, 60, RTM_NEWADDR, NLM_F_MULTI, seq);
    lemma_part_readable(first + second, third, Seq::empty(), 20, NLMSG_DONE, NLM_F_MULTI, seq);
}

/// An answer is an error message or a list of the two interfaces.
pub proof fn law_reply_len(request: Option<Request>, default_ip: u32)
    ensures
        reply_bytes(request, default_ip).len() == (if request matches Some(request)
            && request.is_supported() {
            136nat
        } else {
            16nat
        }),
{
    match request {
        None => law_message_readable(NLMSG_ERROR, 0, 0, Seq::empty()),
        Some(request) => if request.is_supported() {
            law_supported_reply(request, default_ip);
        } else {
            law_unsupported_reply(request, default_ip);
        },
    }
}

/// Whoever asks for the addresses of all families or of IPv4, and for nothing more, gets the two
/// interfaces of the host.
pub proof fn law_addresses_listed(
    bytes: Seq<u8>,
    flags: u16,
    seq: u32,
    family: u8,
    default_ip: u32,
)
    requires
        family == AF_UNSPEC || family == AF_INET,
        is_answer(
            bytes,
            message_bytes(
                RTM_GETADDR,
                flags,
                seq,
                address_header_bytes(
                    AddressHeader {
                        family,
                        prefix_len: 0,
                        flags: 0,
                        scope: RT_SCOPE_UNIVERSE,
                        index: 0,
                    },
                ),
            ),
            default_ip,
        ),
    ensures
        bytes == loopback().message(seq) + ethernet(default_ip).message(seq) + done_message(seq),
{
    law_request_readable(
        RTM_GETADDR,
        flags,
        seq,
        AddressHeader { family, prefix_len: 0, flags: 0, scope: RT_SCOPE_UNIVERSE, index: 0 },
    );
}

/// What the message that ends a multipart message says about itself.
proof fn lemma_done_message(seq: u32)
    ensures
        done_message(seq).len() == 20,
        header_at(done_message(seq), 0, 20, NLMSG_DONE, NLM_F_MULTI, seq),
{
    reveal(header_at);
    lemma_bytes_len(0, 4);
    law_message_readable(NLMSG_DONE, NLM_F_MULTI, seq, ne_bytes(0, 4));
}

/// What the message about an interface says about itself.
proof fn lemma_interface_message(interface: InterfaceView, seq: u32)
    requires
        interface.label.len() < 0xfffb,
    ensures
        interface.message(seq).len() == 48 + aligned(5 + interface.label.len()),
        header_at(
            interface.message(seq),
            0,
            48 + aligned(5 + interface.label.len()) as int,
            RTM_NEWADDR,
            NLM_F_MULTI,
            seq,
        ),
{
    reveal(header_at);
    let header = AddressHeader {
        family: AF_INET,
        prefix_len: interface.prefix_len,
        flags: IFA_F_PERMANENT,
        scope: interface.scope,
        index: interface.index,
    };
    let address = be_bytes(interface.address as nat, 4);
    let broadcast = be_bytes(interface.broadcast() as nat, 4);
    lemma_bytes_len(interface.address as nat, 4);
    lemma_bytes_len(interface.broadcast() as nat, 4);
    lemma_lengths(header, IFA_ADDRESS, address);
    lemma_lengths(header, IFA_LOCAL, address);
    lemma_lengths(header, IFA_BROADCAST, broadcast);
    lemma_lengths(header, IFA_LABEL, interface.label.push(0));
    law_message_readable(
        RTM_NEWADDR,
        NLM_F_MULTI,
        seq,
        address_header_bytes(header) + attribute_bytes(IFA_ADDRESS, address) + attribute_bytes(
            IFA_LOCAL,
            address,
        ) + attribute_bytes(IFA_BROADCAST, broadcast) + attribute_bytes(
            IFA_LABEL,
            interface.label.push(0),
        ),
    );
}

/// The header of a message reads the same where the message stands between other bytes.
proof fn lemma_part_readable(
    before: Seq<u8>,
    message: Seq<u8>,
    after: Seq<u8>,
    len: int,
    nl_type: u16,
    flags: u16,
    seq: u32,
)
    requires
        header_at(message, 0, len, nl_type, flags, seq),
    ensures
        header_at(before + message + after, before.len() as int, len, nl_type, flags, seq),
{
    reveal(header_at);
    let all = before + message + after;
    let at = before.len() as int;
    assert(all.subrange(at, at + 4) == message.subrange(0, 4));
    assert(all.subrange(at + 4, at + 6) == message.subrange(4, 6));
    assert(all.subrange(at + 6, at + 8) == message.subrange(6, 8));
    assert(all.subrange(at + 8, at + 12) == message.subrange(8, 12));
}

/// The number whose four bytes stand from `at` on, the most significant first.
pub open spec fn dotted_at(bytes: Seq<u8>, at: int) -> int {
    bytes[at] * 0x100_0000 + bytes[at + 1] * 0x1_0000 + bytes[at + 2] * 0x100 + bytes[at + 3]
}

/// The bytes of an address are its digits in dotted notation.
proof fn lemma_octets(address: u32)
    ensures
        ({
            let bytes = be_bytes(address as nat, 4);
            &&& bytes.len() == 4
            &&& dotted_at(bytes, 0) == address
            &&& bytes[3] == address % 0x100
        }),
{
    reveal_with_fuel(le_bytes, 5);
    let a: u8 = (address / 0x100_0000) as u8;
    let b: u8 = (address / 0x1_0000 % 0x100) as u8;
    let c: u8 = (address / 0x100 % 0x100) as u8;
    let d: u8 = (address % 0x100) as u8;
    assert(le_bytes(address as nat, 4) == seq![d, c, b, a]);
    assert(be_bytes(address as nat, 4) == seq![a, b, c, d]);
}

/// The broadcast address of a network has the bits of the prefix from the address, and all the bits
/// behind the prefix set: this holds of each bit, where the bit 0 is the last one.
pub proof fn law_broadcast_bits(interface: InterfaceView, bit: u32)
    requires
        interface.prefix_len <= 32,
        bit < 32,
    ensures
        (interface.broadcast() >> bit) & 1 == 1 <==> bit < 32 - interface.prefix_len || (
        interface.address >> bit) & 1 == 1,
{
    let address = interface.address;
    let prefix_len = interface.prefix_len as u32;
    if prefix_len < 32 {
        assert((((0xffff_ffff_u32 >> prefix_len) | address) >> bit) & 1 == 1 <==> bit < 32
            - prefix_len || (address >> bit) & 1 == 1) by (bit_vector)
            requires
                prefix_len < 32,
                bit < 32,
        ;
    }
}

/// Whether the bytes from `at` on are an attribute of this type whose payload are four bytes that
/// stand for this address.
pub open spec fn address_attribute_at(
    bytes: Seq<u8>,
    at: int,
    rta_type: nat,
    address: int,
) -> bool {
    &&& from_ne_bytes(bytes.subrange(at, at + 2)) == 8
    &&& from_ne_bytes(bytes.subrange(at + 2, at + 4)) == rta_type
    &&& dotted_at(bytes, at + 4) == address
}

/// The parts of the payload of a message about an interface.
proof fn lemma_attribute_parts(
    before: Seq<u8>,
    rta_type: u16,
    payload: Seq<u8>,
    after: Seq<u8>,
)
    requires
        payload.len() <= 0xfffb,
    ensures
        ({
            let all = before + attribute_bytes(rta_type, payload) + after;
            let at = before.len() as int;
            &&& all.len() == at + aligned(4 + payload.len()) + after.len()
            &&& from_ne_bytes(all.subrange(at, at + 2)) == 4 + payload.len()
            &&& from_ne_bytes(all.subrange(at + 2, at + 4)) == rta_type
            &&& all.subrange(at + 4, at + 4 + payload.len()) == payload
            &&& forall|i: int|
                4 + payload.len() <= i < aligned(4 + payload.len()) ==> #[trigger] all[at + i] == 0
        }),
{
    reveal(attribute_bytes);
    let attribute = attribute_bytes(rta_type, payload);
    let all = before + attribute + after;
    let at = before.len() as int;
    lemma_byte_ranges();
    lemma_bytes(4 + payload.len(), 2);
    lemma_bytes(rta_type as nat, 2);
    assert(all.subrange(at, at + 2) == ne_bytes(4 + payload.len(), 2));
    assert(all.subrange(at + 2, at + 4) == ne_bytes(rta_type as nat, 2));
    assert(all.subrange(at + 4, at + 4 + payload.len()) == payload);
}

/// The message about an interface says what the interface is, byte by byte: the family of IPv4, the
/// length of the prefix, the flag of a permanent address, the scope, the number of the interface;
/// its address twice and its broadcast address, the most significant byte first; and its name,
/// which ends with a zero.
pub proof fn law_interface_described(interface: InterfaceView, seq: u32)
    requires
        interface.label.len() < 0xfffb,
    ensures
        ({
            let message = interface.message(seq);
            let len = interface.label.len() as int;
            &&& message.len() == 48 + (len + 8) / 4 * 4
            &&& from_ne_bytes(message.subrange(0, 4)) == message.len()
            &&& from_ne_bytes(message.subrange(4, 6)) == 20
            &&& from_ne_bytes(message.subrange(6, 8)) == 2
            &&& from_ne_bytes(message.subrange(8, 12)) == seq
            &&& from_ne_bytes(message.subrange(12, 16)) == 0
            &&& message[16] == 2
            &&& message[17] == interface.prefix_len
            &&& message[18] == 0x80
            &&& message[19] == interface.scope
            &&& interface.index >= 0 ==> from_ne_bytes(message.subrange(20, 24)) == interface.index
            &&& address_attribute_at(message, 24, 1, interface.address as int)
            &&& address_attribute_at(message, 32, 2, interface.address as int)
            &&& address_attribute_at(message, 40, 4, interface.broadcast() as int)
            &&& from_ne_bytes(message.subrange(48, 50)) == 5 + len
            &&& from_ne_bytes(message.subrange(50, 52)) == 3
            &&& message.subrange(52, 52 + len) == interface.label
            &&& forall|i: int| 52 + len <= i < message.len() ==> #[trigger] message[i] == 0
        }),
{
    let header = AddressHeader {
        family: AF_INET,
        prefix_len: interface.prefix_len,
        flags: IFA_F_PERMANENT,
        scope: interface.scope,
        index: interface.index,
    };
    let address = be_bytes(interface.address as nat, 4);
    let broadcast = be_bytes(interface.broadcast() as nat, 4);
    let label = interface.label.push(0);
    let a = address_header_bytes(header);
    let b = attribute_bytes(IFA_ADDRESS, address);
    let c = attribute_bytes(IFA_LOCAL, address);
    let d = attribute_bytes(IFA_BROADCAST, broadcast);
    let e = attribute_bytes(IFA_LABEL, label);
    let payload = a + b + c + d + e;
    let message = interface.message(seq);
    lemma_octets(interface.address);
    lemma_octets(interface.broadcast());
    lemma_lengths(header, IFA_ADDRESS, address);
    lemma_lengths(header, IFA_LOCAL, address);
    lemma_lengths(header, IFA_BROADCAST, broadcast);
    lemma_lengths(header, IFA_LABEL, label);
    law_message_readable(RTM_NEWADDR, NLM_F_MULTI, seq, payload);
    lemma_message_numbers(RTM_NEWADDR, NLM_F_MULTI, seq, payload);
    assert(payload.len() == 32 + aligned(5 + interface.label.len()));
    assert(message.len() == 16 + payload.len());
    assert(message.subrange(16, message.len() as int) == payload);
    assert forall|i: int| 0 <= i < payload.len() implies payload[i] == #[trigger] message[16
        + i] by {
        assert(message.subrange(16, message.len() as int)[i] == message[16 + i]);
    }
    // the fixed part
    lemma_byte_ranges();
    lemma_bytes((interface.index as u32) as nat, 4);
    assert(message[16] == payload[0] && message[17] == payload[1] && message[18] == payload[2]
        && message[19] == payload[3]);
    assert(message.subrange(20, 24) == ne_bytes((interface.index as u32) as nat, 4)) by {
        assert forall|i: int| 0 <= i < 4 implies message.subrange(20, 24)[i] == ne_bytes(
            (interface.index as u32) as nat,
            4,
        )[i] by {
            assert(message[16 + (4 + i)] == payload[4 + i]);
        }
    }
    // the attributes
    lemma_attribute_parts(a, IFA_ADDRESS, address, c + d + e);
    assert(a + b + (c + d + e) == payload);
    lemma_attribute_parts(a + b, IFA_LOCAL, address, d + e);
    assert(a + b + c + (d + e) == payload);
    lemma_attribute_parts(a + b + c, IFA_BROADCAST, broadcast, e);
    lemma_attribute_parts(a + b + c + d, IFA_LABEL, label, Seq::empty());
    assert(a + b + c + d + e + Seq::<u8>::empty() == payload);
    lemma_shifted(message, payload, 8, address);
    lemma_shifted(message, payload, 16, address);
    lemma_shifted(message, payload, 24, broadcast);
    lemma_shifted(message, payload, 32, label);
    let len = interface.label.len() as int;
    assert(message.subrange(52, 52 + len) == interface.label) by {
        let read = message.subrange(52, 53 + len);
        assert(read == label);
        assert forall|i: int| 0 <= i < len implies message.subrange(52, 52 + len)[i]
            == interface.label[i] by {
            assert(read[i] == message[52 + i]);
        }
    }
    assert forall|i: int| 52 + len <= i < message.len() implies #[trigger] message[i] == 0 by {
        if i == 52 + len {
            assert(message.subrange(52, 53 + len)[len] == label[len]);
        } else {
            assert(message[16 + (i - 16)] == payload[i - 16]);
            assert(payload[32 + (i - 48)] == 0);
        }
    }
}

/// The header of a message holds the numbers that it should.
proof fn lemma_message_numbers(nl_type: u16, flags: u16, seq: u32, payload: Seq<u8>)
    requires
        payload.len() <= 0xffff_ffe0,
        payload.len() % 4 == 0,
    ensures
        ({
            let message = message_bytes(nl_type, flags, seq, payload);
            &&& message.len() == 16 + payload.len()
            &&& from_ne_bytes(message.subrange(0, 4)) == message.len()
            &&& from_ne_bytes(message.subrange(4, 6)) == nl_type
            &&& from_ne_bytes(message.subrange(6, 8)) == flags
            &&& from_ne_bytes(message.subrange(8, 12)) == seq
            &&& from_ne_bytes(message.subrange(12, 16)) == 0
        }),
{
    reveal(message_bytes);
    let message = message_bytes(nl_type, flags, seq, payload);
    let len = aligned(16 + payload.len());
    lemma_byte_ranges();
    lemma_bytes(len, 4);
    lemma_bytes(nl_type as nat, 2);
    lemma_bytes(flags as nat, 2);
    lemma_bytes(seq as nat, 4);
    lemma_bytes(0, 4);
    assert(message.subrange(0, 4) == ne_bytes(len, 4));
    assert(message.subrange(4, 6) == ne_bytes(nl_type as nat, 2));
    assert(message.subrange(6, 8) == ne_bytes(flags as nat, 2));
    assert(message.subrange(8, 12) == ne_bytes(seq as nat, 4));
    assert(message.subrange(12, 16) == ne_bytes(0, 4));
}

/// What stands in the payload of a message stands sixteen bytes later in the message.
proof fn lemma_shifted(message: Seq<u8>, payload: Seq<u8>, at: int, content: Seq<u8>)
    requires
        0 <= at,
        at + 4 + content.len() <= payload.len(),
        message.len() == 16 + payload.len(),
        message.subrange(16, message.len() as int) == payload,
        payload.subrange(at + 4, at + 4 + content.len()) == content,
    ensures
        message.subrange(16 + at, 18 + at) == payload.subrange(at, at + 2),
        message.subrange(18 + at, 20 + at) == payload.subrange(at + 2, at + 4),
        message.subrange(20 + at, 20 + at + content.len()) == content,
        forall|i: int| 0 <= i < content.len() ==> #[trigger] content[i] == message[20 + at + i],
{
    assert forall|i: int| 0 <= i < payload.len() implies #[trigger] payload[i] == message[16
        + i] by {
        assert(message.subrange(16, message.len() as int)[i] == message[16 + i]);
    }
    assert(message.subrange(16 + at, 18 + at) == payload.subrange(at, at + 2));
    assert(message.subrange(18 + at, 20 + at) == payload.subrange(at + 2, at + 4));
    assert forall|i: int| 0 <= i < content.len() implies #[trigger] content[i] == message[20 + at
        + i] by {
        assert(payload.subrange(at + 4, at + 4 + content.len())[i] == payload[at + 4 + i]);
    }
    assert(message.subrange(20 + at, 20 + at + content.len()) == content);
}

/// Whether `bytes` are a single message that reports an error, with this sequence number.
pub open spec fn reports_error(bytes: Seq<u8>, seq: int) -> bool {
    &&& bytes.len() == 16
    &&& from_ne_bytes(bytes.subrange(0, 4)) == 16
    &&& from_ne_bytes(bytes.subrange(4, 6)) == 2
    &&& from_ne_bytes(bytes.subrange(6, 8)) == 0
    &&& from_ne_bytes(bytes.subrange(8, 12)) == seq
    &&& from_ne_bytes(bytes.subrange(12, 16)) == 0
}

/// Whether the bytes from `at` on are the header of a message of `len` bytes from the kernel that
/// is part of a multipart message, with this type and this sequence number.
pub open spec fn part_at(bytes: Seq<u8>, at: int, len: int, nl_type: int, seq: int) -> bool {
    &&& from_ne_bytes(bytes.subrange(at, at + 4)) == len
    &&& from_ne_bytes(bytes.subrange(at + 4, at + 6)) == nl_type
    &&& from_ne_bytes(bytes.subrange(at + 6, at + 8)) == 2
    &&& from_ne_bytes(bytes.subrange(at + 8, at + 12)) == seq
    &&& from_ne_bytes(bytes.subrange(at + 12, at + 16)) == 0
}

/// Whether the bytes from `at` on are a message of `len` bytes that describes an IPv4 interface,
/// byte by byte.
#[verifier::opaque]
pub open spec fn describes_at(
    bytes: Seq<u8>,
    at: int,
    len: int,
    seq: int,
    prefix_len: int,
    scope: int,
    index: int,
    address: int,
    broadcast: int,
    label: Seq<u8>,
) -> bool {
    &&& 0 <= at && at + len <= bytes.len() && 52 + label.len() < len
    &&& part_at(bytes, at, len, 20, seq)
    &&& bytes[at + 16] == 2
    &&& bytes[at + 17] == prefix_len
    &&& bytes[at + 18] == 0x80
    &&& bytes[at + 19] == scope
    &&& from_ne_bytes(bytes.subrange(at + 20, at + 24)) == index
    &&& address_attribute_at(bytes, at + 24, 1, address)
    &&& address_attribute_at(bytes, at + 32, 2, address)
    &&& address_attribute_at(bytes, at + 40, 4, broadcast)
    &&& from_ne_bytes(bytes.subrange(at + 48, at + 50)) == 5 + label.len()
    &&& from_ne_bytes(bytes.subrange(at + 50, at + 52)) == 3
    &&& bytes.subrange(at + 52, at + 52 + label.len()) == label
    &&& forall|i: int| 52 + label.len() <= i < len ==> #[trigger] bytes[at + i] == 0
}

/// Whether `bytes` are the list of the two interfaces of a host with this address. First comes
/// `lo`, 127.0.0.1 in a network of 8 bits, which is valid on the host only; then `eth0` with the
/// address of the host in a network of 24 bits, which is valid everywhere; and then the end of the
/// list.
pub open spec fn lists_interfaces(bytes: Seq<u8>, seq: int, default_ip: int) -> bool {
    &&& bytes.len() == 136
    &&& describes_at(bytes, 0, 56, seq, 8, 254, 1, 0x7f00_0001, 0x7fff_ffff, seq![0x6c, 0x6f])
    &&& describes_at(
        bytes,
        56,
        60,
        seq,
        24,
        0,
        2,
        default_ip,
        default_ip / 256 * 256 + 255,
        seq![0x65, 0x74, 0x68, 0x30],
    )
    &&& part_at(bytes, 116, 20, 3, seq)
    &&& bytes.subrange(132, 136) == seq![0u8, 0, 0, 0]
}

/// A message that describes an interface does so too where it stands between other bytes.
proof fn lemma_described(
    before: Seq<u8>,
    interface: InterfaceView,
    after: Seq<u8>,
    seq: u32,
    len: int,
)
    requires
        interface.label.len() < 0xfffb,
        interface.index >= 0,
        len == 48 + (interface.label.len() + 8) / 4 * 4,
    ensures
        interface.message(seq).len() == len,
        describes_at(
            before + interface.message(seq) + after,
            before.len() as int,
            len,
            seq as int,
            interface.prefix_len as int,
            interface.scope as int,
            interface.index as int,
            interface.address as int,
            interface.broadcast() as int,
            interface.label,
        ),
{
    reveal(describes_at);
    law_interface_described(interface, seq);
    let message = interface.message(seq);
    let all = before + message + after;
    let at = before.len() as int;
    assert forall|i: int| 0 <= i < len implies #[trigger] message[i] == all[at + i] by {}
    assert forall|i: int, j: int|
        #![trigger message.subrange(i, j)]
        0 <= i <= j <= len implies all.subrange(at + i, at + j) == message.subrange(i, j) by {
        assert(all.subrange(at + i, at + j) =~= message.subrange(i, j));
    }
    let l = interface.label.len() as int;
    assert(all.subrange(at + 52, at + 52 + l) == message.subrange(52, 52 + l));
    assert forall|i: int| 52 + l <= i < len implies #[trigger] all[at + i] == 0 by {
        assert(message[i] == 0);
    }
    lemma_attribute_moved(all, message, at, 24);
    lemma_attribute_moved(all, message, at, 32);
    lemma_attribute_moved(all, message, at, 40);
}

/// An attribute reads the same where the message stands behind other bytes.
proof fn lemma_attribute_moved(all: Seq<u8>, message: Seq<u8>, at: int, from: int)
    requires
        0 <= at,
        0 <= from,
        from + 8 <= message.len(),
        at + message.len() <= all.len(),
        forall|i: int| 0 <= i < message.len() ==> #[trigger] message[i] == all[at + i],
    ensures
        all.subrange(at + from, at + from + 2) == message.subrange(from, from + 2),
        all.subrange(at + from + 2, at + from + 4) == message.subrange(from + 2, from + 4),
        dotted_at(all, at + from + 4) == dotted_at(message, from + 4),
{
    assert(all.subrange(at + from, at + from + 2) == message.subrange(from, from + 2));
    assert(all.subrange(at + from + 2, at + from + 4) == message.subrange(from + 2, from + 4));
    assert(all[at + (from + 4)] == message[from + 4]);
    assert(all[at + (from + 5)] == message[from + 5]);
    assert(all[at + (from + 6)] == message[from + 6]);
    assert(all[at + (from + 7)] == message[from + 7]);
}

/// The last byte of the broadcast address of a network of 24 bits is 255, and the other three are
/// those of the address.
proof fn lemma_ethernet_broadcast(default_ip: u32)
    ensures
        ethernet(default_ip).broadcast() == default_ip / 256 * 256 + 255,
{
    assert((0xffff_ffff_u32 >> 24u32) | default_ip == default_ip / 256 * 256 + 255)
        by (bit_vector);
}

/// The end of the list, where it stands behind the other messages.
proof fn lemma_list_end(before: Seq<u8>, seq: u32)
    ensures
        ({
            let all = before + done_message(seq);
            let at = before.len() as int;
            &&& all.len() == at + 20
            &&& part_at(all, at, 20, 3, seq as int)
            &&& all.subrange(at + 16, at + 20) == seq![0u8, 0, 0, 0]
        }),
{
    reveal_with_fuel(le_bytes, 5);
    assert(le_bytes(0, 4) == seq![0u8, 0, 0, 0]);
    assert(ne_bytes(0, 4) == seq![0u8, 0, 0, 0]);
    lemma_message_numbers(NLMSG_DONE, NLM_F_MULTI, seq, ne_bytes(0, 4));
    law_message_readable(NLMSG_DONE, NLM_F_MULTI, seq, ne_bytes(0, 4));
    let message = done_message(seq);
    let all = before + message;
    let at = before.len() as int;
    assert forall|i: int, j: int|
        #![trigger message.subrange(i, j)]
        0 <= i <= j <= 20 implies all.subrange(at + i, at + j) == message.subrange(i, j) by {
        assert(all.subrange(at + i, at + j) =~= message.subrange(i, j));
    }
}

/// A number is written with only one sequence of four digits of base 256.
proof fn lemma_four_digits(a: u8, b: u8, c: u8, d: u8, w: u8, x: u8, y: u8, z: u8)
    requires
        a * 0x100_0000 + b * 0x1_0000 + c * 0x100 + d == w * 0x100_0000 + x * 0x1_0000 + y * 0x100
            + z,
    ensures
        a == w && b == x && c == y && d == z,
{
}

/// Where the same address stands, the same four bytes do.
proof fn lemma_same_address(bytes: Seq<u8>, at: int, other: Seq<u8>, from: int)
    requires
        0 <= at,
        at + 4 <= bytes.len(),
        0 <= from,
        from + 4 <= other.len(),
        dotted_at(bytes, at) == dotted_at(other, from),
    ensures
        bytes.subrange(at, at + 4) == other.subrange(from, from + 4),
{
    lemma_four_digits(
        bytes[at],
        bytes[at + 1],
        bytes[at + 2],
        bytes[at + 3],
        other[from],
        other[from + 1],
        other[from + 2],
        other[from + 3],
    );
    assert(bytes.subrange(at, at + 4) == other.subrange(from, from + 4));
}

/// Where the broadcast address of a network of 24 bits stands, the first three bytes are those of
/// the address, and the last one is 255.
proof fn lemma_broadcast_bytes(bytes: Seq<u8>, at: int, from: int)
    requires
        0 <= at,
        at + 4 <= bytes.len(),
        0 <= from,
        from + 4 <= bytes.len(),
        dotted_at(bytes, at) == dotted_at(bytes, from) / 256 * 256 + 255,
    ensures
        bytes.subrange(at, at + 3) == bytes.subrange(from, from + 3),
        bytes[at + 3] == 255,
{
    let (a, b, c) = (bytes[from], bytes[from + 1], bytes[from + 2]);
    assert(dotted_at(bytes, from) / 256 == a * 0x1_0000 + b * 0x100 + c);
    lemma_four_digits(bytes[at], bytes[at + 1], bytes[at + 2], bytes[at + 3], a, b, c, 255);
    assert(bytes.subrange(at, at + 3) == bytes.subrange(from, from + 3));
}

/// Where the addresses are in the list.
proof fn lemma_listed_at(reply: Seq<u8>, seq: int, default_ip: int)
    requires
        lists_interfaces(reply, seq, default_ip),
    ensures
        reply.len() == 136,
        dotted_at(reply, 28) == 0x7f00_0001,
        dotted_at(reply, 36) == 0x7f00_0001,
        dotted_at(reply, 44) == 0x7fff_ffff,
        dotted_at(reply, 84) == default_ip,
        dotted_at(reply, 92) == default_ip,
        dotted_at(reply, 100) == default_ip / 256 * 256 + 255,
{
    reveal(describes_at);
}

/// The addresses in the list, byte by byte.
proof fn lemma_listed_addresses(reply: Seq<u8>, seq: u32, default_ip: u32)
    requires
        lists_interfaces(reply, seq as int, default_ip as int),
    ensures
        reply[84] * 0x100_0000 + reply[85] * 0x1_0000 + reply[86] * 0x100 + reply[87] == default_ip,
        reply.subrange(92, 96) == reply.subrange(84, 88),
        reply.subrange(100, 103) == reply.subrange(84, 87),
        reply[103] == 255,
        reply.subrange(28, 32) == seq![127u8, 0, 0, 1],
        reply.subrange(36, 40) == seq![127u8, 0, 0, 1],
        reply.subrange(44, 48) == seq![127u8, 255, 255, 255],
{
    let host = seq![127u8, 0, 0, 1];
    let all = seq![127u8, 255, 255, 255];
    lemma_listed_at(reply, seq as int, default_ip as int);
    lemma_same_address(reply, 92, reply, 84);
    lemma_broadcast_bytes(reply, 100, 84);
    lemma_same_address(reply, 28, host, 0);
    lemma_same_address(reply, 36, host, 0);
    lemma_same_address(reply, 44, all, 0);
    assert(host.subrange(0, 4) == host);
    assert(all.subrange(0, 4) == all);
}

/// A request for the addresses of the host is answered with the list of its interfaces, whatever
/// the address of the host and the sequence number of the request are: `lo` with 127.0.0.1, `eth0`
/// with the address of the host itself.
pub proof fn law_interfaces_listed(seq: u32, family: u8, default_ip: u32)
    requires
        family == 0 || family == 2,
    ensures
        ({
            let header = AddressHeader { family, prefix_len: 0, flags: 0, scope: 0, index: 0 };
            let request = Request { nl_type: 22, nl_seq: seq, payload: Some(header) };
            let reply = reply_bytes(Some(request), default_ip);
            &&& lists_interfaces(reply, seq as int, default_ip as int)
            // IFA_ADDRESS and IFA_LOCAL of eth0
            &&& reply[84] * 0x100_0000 + reply[85] * 0x1_0000 + reply[86] * 0x100 + reply[87]
                == default_ip
            &&& reply.subrange(92, 96) == reply.subrange(84, 88)
            // IFA_BROADCAST of eth0
            &&& reply.subrange(100, 103) == reply.subrange(84, 87)
            &&& reply[103] == 255
            // IFA_ADDRESS, IFA_LOCAL and IFA_BROADCAST of lo
            &&& reply.subrange(28, 32) == seq![127u8, 0, 0, 1]
            &&& reply.subrange(36, 40) == seq![127u8, 0, 0, 1]
            &&& reply.subrange(44, 48) == seq![127u8, 255, 255, 255]
        }),
{
    let header = AddressHeader { family, prefix_len: 0, flags: 0, scope: 0, index: 0 };
    let request = Request { nl_type: 22, nl_seq: seq, payload: Some(header) };
    let reply = reply_bytes(Some(request), default_ip);
    let first = loopback().message(seq);
    let second = ethernet(default_ip).message(seq);
    let third = done_message(seq);
    lemma_described(Seq::empty(), loopback(), second + third, seq, 56);
    lemma_described(first, ethernet(default_ip), third, seq, 60);
    lemma_list_end(first + second, seq);
    lemma_ethernet_broadcast(default_ip);
    assert((0xffff_ffff_u32 >> 8u32) | 0x7f00_0001 == 0x7fff_ffff) by (bit_vector);
    assert(reply == first + second + third);
    assert(reply == Seq::<u8>::empty() + first + (second + third));
    lemma_listed_addresses(reply, seq, default_ip);
}

/// Whatever else is asked for is answered with an error that has the sequence number of the
/// request: another type of message, no fixed part, another family than all or IPv4, or a field
/// that is not zero. What cannot be read is answered with an error without a sequence number.
pub proof fn law_other_requests_refused(request: Request, default_ip: u32)
    ensures
        reports_error(reply_bytes(None, default_ip), 0),
        request.nl_type != 22 || request.payload is None || {
            let header = request.payload->Some_0;
            ||| header.family != 0 && header.family != 2
            ||| header.prefix_len != 0
            ||| header.flags != 0
            ||| header.scope != 0
            ||| header.index != 0
        } ==> reports_error(reply_bytes(Some(request), default_ip), request.nl_seq as int),
{
    lemma_message_numbers(NLMSG_ERROR, 0, 0, Seq::empty());
    lemma_message_numbers(NLMSG_ERROR, 0, request.nl_seq, Seq::empty());
}

/// What a message is answered, told by its bytes: if it has the type of a request for addresses,
/// the family is all or IPv4, and the rest of the fixed part is zero, it is answered with the list
/// of the interfaces, otherwise with an error. Either has the sequence number of the message. That
/// goes for every message without attributes, and for every other one that can be read. What cannot
/// be read, and what is shorter than a header, is answered with an error without a sequence number.
pub proof fn law_answered_by_bytes(bytes: Seq<u8>, packet: Seq<u8>, default_ip: u32)
    requires
        is_answer(bytes, packet, default_ip),
    ensures
        packet.len() < 16 ==> reports_error(bytes, 0),
        !nlmsg_parses(endianness() is Little, packet) ==> reports_error(bytes, 0),
        packet.len() >= 16 && nlmsg_parses(endianness() is Little, packet) && from_ne_bytes(
            packet.subrange(4, 6),
        ) != 22 ==> reports_error(bytes, from_ne_bytes(packet.subrange(8, 12)) as int),
        ({
            let nl_type = from_ne_bytes(packet.subrange(4, 6));
            let seq = from_ne_bytes(packet.subrange(8, 12)) as int;
            let plain = from_ne_bytes(packet.subrange(0, 4)) == 24 && nl_type != 2 && nl_type != 3;
            packet.len() >= 24 && (plain || nlmsg_parses(endianness() is Little, packet)) ==> if
                nl_type == 22 && (packet[16] == 0 || packet[16] == 2) && (forall|i: int|
                17 <= i < 24 ==> packet[i] == 0) {
                lists_interfaces(bytes, seq, default_ip as int)
            } else {
                reports_error(bytes, seq)
            }
        }),
{
    lemma_message_numbers(NLMSG_ERROR, 0, 0, Seq::empty());
    let nl_type = from_ne_bytes(packet.subrange(4, 6));
    let seq = from_ne_bytes(packet.subrange(8, 12));
    let plain = from_ne_bytes(packet.subrange(0, 4)) == 24 && nl_type != 2 && nl_type != 3;
    if packet.len() >= 16 {
        lemma_byte_ranges();
        lemma_from_bytes(packet.subrange(4, 6));
        lemma_from_bytes(packet.subrange(8, 12));
        law_other_requests_refused(request_fields(packet), default_ip);
    }
    if packet.len() >= 24 && (plain || nlmsg_parses(endianness() is Little, packet)) {
        let request = request_fields(packet);
        let header = address_header_of(packet);
        lemma_byte_ranges();
        lemma_from_bytes(packet.subrange(0, 4));
        lemma_from_bytes(packet.subrange(4, 6));
        lemma_from_bytes(packet.subrange(8, 12));
        lemma_index_zero(packet);
        assert(request.nl_type == nl_type && request.nl_seq == seq);
        assert(request.payload == if nl_type == 2 || nl_type == 3 {
            None
        } else {
            Some(header)
        });
        assert(bytes == reply_bytes(Some(request), default_ip));
        law_other_requests_refused(request, default_ip);
        if nl_type == 22 && (packet[16] == 0 || packet[16] == 2) {
            if forall|i: int| 17 <= i < 24 ==> packet[i] == 0 {
                assert(packet[17] == 0 && packet[18] == 0 && packet[19] == 0 && packet[20] == 0
                    && packet[21] == 0 && packet[22] == 0 && packet[23] == 0);
                law_interfaces_listed(request.nl_seq, packet[16], default_ip);
            } else {
                let i = choose|i: int| 17 <= i < 24 && packet[i] != 0;
                assert(i == 17 || i == 18 || i == 19 || i == 20 || i == 21 || i == 22 || i == 23);
            }
        }
    }
}

/// The number of an interface is zero exactly if all its bytes are.
proof fn lemma_index_zero(packet: Seq<u8>)
    requires
        packet.len() >= 24,
    ensures
        address_header_of(packet).index == 0 <==> packet[20] == 0 && packet[21] == 0 && packet[22]
            == 0 && packet[23] == 0,
{
    let bytes = packet.subrange(20, 24);
    let zeros = seq![0u8, 0, 0, 0];
    lemma_byte_ranges();
    lemma_from_bytes(bytes);
    let value = u32_at(packet, 20);
    assert(value as i32 == 0 <==> value == 0) by (bit_vector);
    reveal_with_fuel(le_bytes, 5);
    assert(le_bytes(0, 4) == zeros);
    assert(ne_bytes(0, 4) == zeros);
    lemma_bytes(0, 4);
    if value == 0 {
        assert(bytes == zeros);
        assert(bytes[0] == 0 && bytes[1] == 0 && bytes[2] == 0 && bytes[3] == 0);
    }
    if packet[20] == 0 && packet[21] == 0 && packet[22] == 0 && packet[23] == 0 {
        assert(bytes == zeros);
    }
}

/// Which lengths are plausible, told by the bytes: whatever is shorter than a header; what claims
/// to be at least as long as one; and in an error message, as far as it goes, the error code has to
/// fit too, and the header behind it, which is all there may be if the code is zero.
pub proof fn law_plausible_lengths(packet: Seq<u8>)
    ensures
        packet.len() < 16 ==> length_plausible(packet),
        packet.len() >= 16 && from_ne_bytes(packet.subrange(4, 6)) != 2 ==> (length_plausible(
            packet,
        ) <==> from_ne_bytes(packet.subrange(0, 4)) >= 16),
        packet.len() >= 16 && from_ne_bytes(packet.subrange(0, 4)) < 16 ==> !length_plausible(
            packet,
        ),
        packet.len() >= 16 && from_ne_bytes(packet.subrange(4, 6)) == 2 ==> {
            let len = from_ne_bytes(packet.subrange(0, 4));
            &&& packet.len() < 20 ==> (length_plausible(packet) <==> len >= 16)
            &&& 20 <= packet.len() < 36 ==> (length_plausible(packet) <==> len >= 20)
            &&& packet.len() >= 36 ==> (length_plausible(packet) <==> len == 36 || len > 36
                && from_ne_bytes(packet.subrange(16, 20)) != 0)
        },
{
    if packet.len() >= 16 {
        lemma_byte_ranges();
        lemma_from_bytes(packet.subrange(0, 4));
        lemma_from_bytes(packet.subrange(4, 6));
        if packet.len() >= 20 {
            lemma_from_bytes(packet.subrange(16, 20));
        }
    }
}

} // verus!
