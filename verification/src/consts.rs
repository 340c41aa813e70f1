//! Numbers fixed by the protocols this codec speaks.
use vstd::prelude::*;

verus! {

/// EtherType of IPv4.
pub const ETH_RTYPE_IP: u16 = 0x0800;

/// EtherType of ARP.
pub const ETH_RTYPE_ARP: u16 = 0x0806;

/// ARP hardware type of Ethernet.
pub const ARP_HRD_ETHER: u16 = 1;

/// ARP operation: who has this address?
pub const ARP_OP_REQUEST: u16 = 1;

/// ARP operation: this address is mine.
pub const ARP_OP_REPLY: u16 = 2;

/// Length of an Ethernet address as ARP announces it.
pub const ARP_ETHADDR_LEN: u8 = 6;

/// Length of an IPv4 address as ARP announces it.
pub const ARP_IPADDR_LEN: u8 = 4;

/// IPv4 protocol number of TCP.
pub const IP_PROTOCOL_TCP: u8 = 6;

/// IPv4 protocol number of UDP.
pub const IP_PROTOCOL_UDP: u8 = 17;

/// Version 4, header of five 32-bit words: the first octet of every IPv4
/// header this codec writes.
pub const IP_HEADER_VHL: u8 = 0x45;

/// Time to live of every IPv4 header this codec writes.
pub const IP_DEFAULT_TTL: u8 = 64;

/// Data offset of five 32-bit words, in the high nibble: the thirteenth octet
/// of every TCP header this codec writes.
pub const TCP_HEADER_OFFSET: u8 = 0x50;

/// Length of an Ethernet header.
pub const ETH_LEN: usize = 14;

/// Length of an ARP message for Ethernet and IPv4.
pub const ARP_LEN: usize = 28;

/// Length of an IPv4 header without options.
pub const IP_LEN: usize = 20;

/// Length of a UDP header.
pub const UDP_LEN: usize = 8;

/// Length of a TCP header without options.
pub const TCP_LEN: usize = 20;

/// The largest value of the IPv4 total-length field.
pub const IP_MAX_TOTAL_LEN: usize = 0xFFFF;

/// The hardware address every station listens to.
pub const BROADCAST_MAC: [u8; 6] = [0xff, 0xff, 0xff, 0xff, 0xff, 0xff];

} // verus!
