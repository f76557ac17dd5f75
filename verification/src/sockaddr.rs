//! Socket addresses.
use vstd::prelude::*;

verus! {

/// The address of a netlink socket.
#[derive(Clone, Copy, PartialEq, Eq, Structural, Debug)]
pub struct NetlinkAddr {
    /// The port id. The kernel has 0.
    pub pid: u32,
    /// The multicast groups, as a bit mask.
    pub groups: u32,
}

/// The address of a socket of any family.
#[derive(Clone, Copy, PartialEq, Eq, Structural, Debug)]
pub enum SockaddrStorage {
    /// The address of a netlink socket.
    Netlink(NetlinkAddr),
    /// An address of another family.
    Other { family: u16 },
}

impl SockaddrStorage {
    /// The address, if it is one of a netlink socket.
    #[verifier::allow_in_spec]
    pub fn as_netlink(self) -> Option<NetlinkAddr>
        returns
            (match self {
                SockaddrStorage::Netlink(addr) => Some(addr),
                SockaddrStorage::Other { .. } => None,
            }),
    {
        match self {
            SockaddrStorage::Netlink(addr) => Some(addr),
            SockaddrStorage::Other { .. } => None,
        }
    }
}

} // verus!
