//! The host side of a network simulator: files that managed processes use, and the events that
//! they send.
//!
//! - [`flags`], [`errno`], [`events`] and [`pointer`] are what all files are made of: their state,
//!   the errors of their calls, and the listeners that are told when the state changes.
//! - [`eventfd`], [`netlink`] (with [`rtnetlink`] and [`sockaddr`]), [`socket`] and [`descriptor`]
//!   are files, and what refers to them.
//! - [`epoll_entry`] decides what epoll reports about a file, and [`epoll_check`] judges what a
//!   real epoll instance reported.
//! - [`futex_table`] holds the futexes of a host.
//! - [`eth`] is a beacon chain on a publish-subscribe network, which is run in the simulation.
//! - [`bytes`] and [`text`] turn numbers into bytes and characters.

pub mod bytes;
pub mod descriptor;
pub mod epoll_check;
pub mod epoll_entry;
pub mod errno;
pub mod eth;
pub mod eventfd;
pub mod events;
pub mod flags;
pub mod futex_table;
pub mod netlink;
pub mod pointer;
pub mod rtnetlink;
pub mod sockaddr;
pub mod socket;
pub mod text;
