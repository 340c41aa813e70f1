//! What decoding a frame can give, and how the codec can fail.
use vstd::prelude::*;
use crate::packets::arp::ArpPacket;
use crate::packets::tcp::{TCPPacket, TcpSegment};
use crate::packets::udp::{UDPPacket, UdpDatagram};

verus! {

/// The ways in which this codec refuses a request.
#[derive(Clone, Copy, Debug, PartialEq, Eq, Structural)]
pub enum NetStackErrors {
    /// An ARP reply was asked for a packet that is not a request.
    NotRequiredReplyArp,
    /// The buffer is too short for the header that its type field promises,
    /// or a header field has a value that no well-formed frame has.
    DecodeError,
}

/// A decoded frame. Payloads are borrowed from the receive buffer.
#[derive(Clone, Copy, Debug, PartialEq, Eq)]
pub enum Packet<'a> {
    ARP(ArpPacket),
    UDP(UDPPacket<'a>),
    TCP(TCPPacket<'a>),
    /// A well-formed IPv4 packet of a protocol that is neither UDP nor TCP,
    /// with its protocol number. Such a packet is ignored, not an error.
    IPv4Other(u8),
    /// A frame whose EtherType, or whose kind of ARP, this codec does not
    /// speak. Such a frame is ignored, not an error.
    Unsupported,
}

/// The mathematical content of a [`Packet`].
pub ghost enum PacketView {
    ARP(ArpPacket),
    UDP(UdpDatagram),
    TCP(TcpSegment),
    IPv4Other(u8),
    Unsupported,
}

impl<'a> View for Packet<'a> {
    type V = PacketView;

    open spec fn view(&self) -> PacketView {
        match *self {
            Packet::ARP(p) => PacketView::ARP(p),
            Packet::UDP(p) => PacketView::UDP(p@),
            Packet::TCP(p) => PacketView::TCP(p@),
            Packet::IPv4Other(pro) => PacketView::IPv4Other(pro),
            Packet::Unsupported => PacketView::Unsupported,
        }
    }
}

impl PacketView {
    /// Whether the packet has a frame: it is one of the three kinds that
    /// this codec writes, and its payload fits one IPv4 packet.
    pub open spec fn sendable(&self) -> bool {
        match *self {
            PacketView::ARP(_) => true,
            PacketView::UDP(p) => p.wf(),
            PacketView::TCP(p) => p.wf(),
            _ => false,
        }
    }

    /// The octets of the packet's frame.
    pub open spec fn frame(&self) -> Seq<u8>
        recommends
            self.sendable(),
    {
        match *self {
            PacketView::ARP(p) => p.frame(),
            PacketView::UDP(p) => p.frame(),
            PacketView::TCP(p) => p.frame(),
            _ => Seq::empty(),
        }
    }

    /// The packet without padding behind its payload.
    pub open spec fn on_wire(&self) -> PacketView {
        match *self {
            PacketView::UDP(p) => PacketView::UDP(p.on_wire()),
            PacketView::TCP(p) => PacketView::TCP(p.on_wire()),
            other => other,
        }
    }
}

impl<'a> Packet<'a> {
    /// Serialises the packet into a fresh frame, where it has one: `None`
    /// for a packet of a kind that is only ever received, and for one whose
    /// payload does not lie inside its `data` or is too long for one IPv4
    /// packet.
    pub fn build_data(&self) -> (r: Option<Vec<u8>>)
        ensures
            r.is_some() == self@.sendable(),
            r.is_some() ==> r.unwrap()@ == self@.frame(),
    {
        match self {
            Packet::ARP(p) => Some(p.build_data()),
            Packet::UDP(p) => {
                if p.is_wf() {
                    Some(p.build_data())
                } else {
                    None
                }
            },
            Packet::TCP(p) => {
                if p.is_wf() {
                    Some(p.build_data())
                } else {
                    None
                }
            },
            _ => None,
        }
    }
}

} // verus!
