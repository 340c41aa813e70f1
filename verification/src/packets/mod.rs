//! The packet types that decoding produces and that frames are built from.
pub mod arp;
pub mod tcp;
pub mod udp;
