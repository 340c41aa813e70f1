//! ARP for IPv4 over Ethernet.
use vstd::prelude::*;
use crate::addr::{IPv4, MacAddress};
use crate::consts::{
    ARP_ETHADDR_LEN, ARP_HRD_ETHER, ARP_IPADDR_LEN, ARP_LEN, ARP_OP_REPLY, ARP_OP_REQUEST,
    ETH_LEN, ETH_RTYPE_ARP, ETH_RTYPE_IP,
};
use crate::net::{Arp, Eth};
use crate::results::NetStackErrors;

verus! {

/// The operation of an ARP message.
#[derive(Debug, Clone, Copy, PartialEq, Eq, Structural)]
pub enum ArpType {
    Request,
    Reply,
    Unsupported,
}

impl ArpType {
    /// The operation that the wire value `rtype` stands for.
    pub open spec fn spec_form_u16(rtype: u16) -> ArpType {
        if rtype == ARP_OP_REQUEST {
            ArpType::Request
        } else if rtype == ARP_OP_REPLY {
            ArpType::Reply
        } else {
            ArpType::Unsupported
        }
    }

    /// The wire value of the operation.
    pub open spec fn spec_to_u16(&self) -> u16 {
        match self {
            ArpType::Request => 1,
            ArpType::Reply => 2,
            ArpType::Unsupported => 0,
        }
    }

    /// The operation that the wire value `rtype` stands for: 1 is a request,
    /// 2 a reply, and no other value is supported.
    #[verifier::when_used_as_spec(spec_form_u16)]
    pub fn form_u16(rtype: u16) -> (r: ArpType)
        ensures
            r == ArpType::spec_form_u16(rtype),
            rtype == 1 <==> r == ArpType::Request,
            rtype == 2 <==> r == ArpType::Reply,
    {
        if rtype == ARP_OP_REQUEST {
            ArpType::Request
        } else if rtype == ARP_OP_REPLY {
            ArpType::Reply
        } else {
            ArpType::Unsupported
        }
    }

    /// The wire value of the operation. An unsupported operation has wire
    /// value 0.
    #[verifier::when_used_as_spec(spec_to_u16)]
    pub fn to_u16(&self) -> (r: u16)
        ensures
            r == self.spec_to_u16(),
    {
        match self {
            ArpType::Request => 1,
            ArpType::Reply => 2,
            ArpType::Unsupported => 0,
        }
    }

    /// Every operation survives the way to the wire and back.
    pub proof fn lemma_u16_round_trip(self)
        ensures
            ArpType::spec_form_u16(self.spec_to_u16()) == self,
    {
    }
}

/// An ARP message between two stations, each named by its IPv4 and its
/// hardware address.
#[derive(Debug, Clone, Copy, PartialEq, Eq, Structural)]
pub struct ArpPacket {
    pub sender_ip: IPv4,
    pub sender_mac: MacAddress,
    pub target_ip: IPv4,
    pub target_mac: MacAddress,
    pub rtype: ArpType,
}

impl ArpPacket {
    /// The packet that an ARP message announces.
    pub open spec fn from_header(arp: Arp) -> ArpPacket {
        ArpPacket {
            sender_ip: arp.spa,
            sender_mac: arp.sha,
            target_ip: arp.tpa,
            target_mac: arp.tha,
            rtype: ArpType::spec_form_u16(arp.op),
        }
    }

    /// The Ethernet header of the packet's frame: from the sender to
    /// everybody.
    pub open spec fn eth_header(&self) -> Eth {
        Eth { dhost: MacAddress::spec_broadcast(), shost: self.sender_mac, rtype: ETH_RTYPE_ARP }
    }

    /// The ARP message of the packet's frame, for Ethernet and IPv4.
    pub open spec fn arp_header(&self) -> Arp {
        Arp {
            httype: ARP_HRD_ETHER,
            pttype: ETH_RTYPE_IP,
            hlen: ARP_ETHADDR_LEN,
            plen: ARP_IPADDR_LEN,
            op: self.rtype.spec_to_u16(),
            sha: self.sender_mac,
            spa: self.sender_ip,
            tha: self.target_mac,
            tpa: self.target_ip,
        }
    }

    /// The 42 octets of the packet's frame.
    pub open spec fn frame(&self) -> Seq<u8> {
        self.eth_header().bytes() + self.arp_header().bytes()
    }

    /// The answer of the station `(local_ip, local_mac)` to this packet.
    pub open spec fn spec_reply(&self, local_ip: IPv4, local_mac: MacAddress) -> ArpPacket {
        ArpPacket {
            sender_ip: local_ip,
            sender_mac: local_mac,
            target_ip: self.sender_ip,
            target_mac: self.sender_mac,
            rtype: ArpType::Reply,
        }
    }

    /// A packet with the given fields.
    pub fn new(
        sender_ip: IPv4,
        sender_mac: MacAddress,
        target_ip: IPv4,
        target_mac: MacAddress,
        rtype: ArpType,
    ) -> (r: ArpPacket)
        ensures
            r == (ArpPacket { sender_ip, sender_mac, target_ip, target_mac, rtype }),
    {
        ArpPacket { sender_ip, sender_mac, target_ip, target_mac, rtype }
    }

    /// Serialises the packet into a fresh frame.
    pub fn build_data(&self) -> (data: Vec<u8>)
        ensures
            data@ == self.frame(),
            data@.len() == ETH_LEN + ARP_LEN,
    {
        let mut data: Vec<u8> = Vec::with_capacity(ETH_LEN + ARP_LEN);
        let eth_header = Eth {
            dhost: MacAddress::broadcast(),
            shost: self.sender_mac,
            rtype: ETH_RTYPE_ARP,
        };
        eth_header.append_to(&mut data);
        let arp_header = Arp {
            httype: ARP_HRD_ETHER,
            pttype: ETH_RTYPE_IP,
            hlen: ARP_ETHADDR_LEN,
            plen: ARP_IPADDR_LEN,
            op: self.rtype.to_u16(),
            sha: self.sender_mac,
            spa: self.sender_ip,
            tha: self.target_mac,
            tpa: self.target_ip,
        };
        arp_header.append_to(&mut data);
        proof {
            eth_header.lemma_parse_bytes(Seq::empty());
            arp_header.lemma_parse_bytes(Seq::empty());
            assert(data@ =~= self.frame());
        }
        data
    }

    /// Derives the answer to a request: the local station becomes the
    /// sender, the asking station the target. Only a request can be
    /// answered.
    pub fn reply_packet(&self, local_ip: IPv4, local_mac: MacAddress) -> (r: Result<
        ArpPacket,
        NetStackErrors,
    >)
        ensures
            r == if self.rtype == ArpType::Request {
                Ok::<ArpPacket, NetStackErrors>(self.spec_reply(local_ip, local_mac))
            } else {
                Err::<ArpPacket, NetStackErrors>(NetStackErrors::NotRequiredReplyArp)
            },
    {
        match self.rtype {
            ArpType::Request => {
                let reply_packet = ArpPacket::new(
                    local_ip,
                    local_mac,
                    self.sender_ip,
                    self.sender_mac,
                    ArpType::Reply,
                );
                Ok(reply_packet)
            },
            _ => Err(NetStackErrors::NotRequiredReplyArp),
        }
    }
}

} // verus!
