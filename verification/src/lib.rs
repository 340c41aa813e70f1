//! A small codec for Ethernet frames carrying ARP, UDP over IPv4 and TCP over
//! IPv4, meant for bare-metal network stacks.
//!
//! Received frames are decoded by [`LoseStack::analysis`] into typed packets
//! that borrow their payload from the receive buffer. Each packet type can
//! derive its answers (`reply_packet`, `reply`, `ack`) and serialise itself
//! into a fresh frame with `build_data`. Every wire image is given as a
//! sequence of bytes by a specification function, and decoding is proved to
//! invert encoding.
//!
//! - [`addr`], [`flags`], [`consts`]: addresses, TCP control bits, protocol
//!   numbers.
//! - [`wire`], [`checksum`], [`net`]: byte order, the Internet checksum, and
//!   the five header layouts.
//! - [`packets`], [`results`], [`stack`]: the packet types, the outcome of
//!   decoding, and the analyzer.
//! - [`round_trip`]: what holds of encoding and decoding together.
//! - [`service`], [`hexdump`]: what a node answers to each frame, and a dump
//!   of a buffer as text.
//!
//! No function here reads from or writes to a device, and none panics.
pub mod addr;
pub mod checksum;
pub mod consts;
pub mod flags;
pub mod hexdump;
pub mod net;
pub mod packets;
pub mod results;
pub mod round_trip;
pub mod service;
pub mod stack;
pub mod wire;

pub use addr::{IPv4, MacAddress};
pub use flags::TcpFlags;
pub use stack::LoseStack;
