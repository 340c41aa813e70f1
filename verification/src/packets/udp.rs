//! UDP datagrams over IPv4 over Ethernet.
use vstd::prelude::*;
use vstd::slice::slice_subrange;
use crate::addr::{IPv4, MacAddress};
use crate::checksum::{
    internet_checksum, lemma_checksum_verifies, lemma_fold16_bound, lemma_fold16_step,
    lemma_word_sum_with_u16, pseudo_header, transport_check_sum, transport_checksum, with_u16_at,
    word_sum,
};
use crate::consts::{ETH_LEN, ETH_RTYPE_IP, IP_LEN, IP_MAX_TOTAL_LEN, IP_PROTOCOL_UDP, UDP_LEN};
use crate::net::{Eth, Ip, UDP};
use crate::wire::{be16, push_bytes};

verus! {

/// A UDP datagram with the addresses of the frame that carries it. The
/// hardware addresses are not part of UDP or IPv4: decoding takes them from
/// the Ethernet header.
///
/// `data` may be longer than the payload: a received frame can end in
/// padding. The payload is the first `data_len` octets of `data`.
#[derive(Debug, Clone, Copy, PartialEq, Eq)]
pub struct UDPPacket<'a> {
    pub source_ip: IPv4,
    pub source_mac: MacAddress,
    pub source_port: u16,
    pub dest_ip: IPv4,
    pub dest_mac: MacAddress,
    pub dest_port: u16,
    pub data_len: usize,
    pub data: &'a [u8],
}

/// The mathematical content of a [`UDPPacket`].
pub ghost struct UdpDatagram {
    pub source_ip: IPv4,
    pub source_mac: MacAddress,
    pub source_port: u16,
    pub dest_ip: IPv4,
    pub dest_mac: MacAddress,
    pub dest_port: u16,
    pub data_len: usize,
    pub data: Seq<u8>,
}

impl<'a> View for UDPPacket<'a> {
    type V = UdpDatagram;

    open spec fn view(&self) -> UdpDatagram {
        UdpDatagram {
            source_ip: self.source_ip,
            source_mac: self.source_mac,
            source_port: self.source_port,
            dest_ip: self.dest_ip,
            dest_mac: self.dest_mac,
            dest_port: self.dest_port,
            data_len: self.data_len,
            data: self.data@,
        }
    }
}

impl UdpDatagram {
    /// Whether the datagram can be put on the wire: the payload lies inside
    /// `data`, and the IPv4 total length fits its 16-bit field.
    pub open spec fn wf(&self) -> bool {
        &&& self.data_len <= self.data.len()
        &&& IP_LEN + UDP_LEN + self.data_len <= IP_MAX_TOTAL_LEN
    }

    /// The payload: `data` without what follows its first `data_len` octets.
    pub open spec fn payload(&self) -> Seq<u8> {
        self.data.take(self.data_len as int)
    }

    /// The datagram without padding behind its payload.
    pub open spec fn on_wire(&self) -> UdpDatagram {
        UdpDatagram { data: self.payload(), ..*self }
    }

    /// The Ethernet header of the datagram's frame.
    pub open spec fn eth_header(&self) -> Eth {
        Eth { dhost: self.dest_mac, shost: self.source_mac, rtype: ETH_RTYPE_IP }
    }

    /// The IPv4 header of the datagram's frame.
    pub open spec fn ip_header(&self) -> Ip {
        Ip::spec_outgoing(
            self.source_ip,
            self.dest_ip,
            IP_PROTOCOL_UDP,
            (IP_LEN + UDP_LEN + self.data_len) as u16,
        )
    }

    /// The UDP header before its checksum is known.
    pub open spec fn udp_header_unsummed(&self) -> UDP {
        UDP {
            sport: self.source_port,
            dport: self.dest_port,
            ulen: (UDP_LEN + self.data_len) as u16,
            sum: 0,
        }
    }

    /// The checksum field: the checksum over pseudo header, header and
    /// payload, with `0xFFFF` in place of a computed zero, which on the wire
    /// would mean that there is no checksum.
    pub open spec fn udp_checksum(&self) -> u16 {
        let sum = transport_checksum(
            self.source_ip,
            self.dest_ip,
            IP_PROTOCOL_UDP,
            self.udp_header_unsummed().bytes(),
            self.payload(),
        );
        if sum == 0 {
            0xFFFF
        } else {
            sum
        }
    }

    /// The UDP header of the datagram's frame.
    pub open spec fn udp_header(&self) -> UDP {
        UDP { sum: self.udp_checksum(), ..self.udp_header_unsummed() }
    }

    /// The octets of the datagram's frame: Ethernet header, IPv4 header,
    /// UDP header, payload.
    pub open spec fn frame(&self) -> Seq<u8> {
        self.eth_header().bytes() + (self.ip_header().bytes() + (self.udp_header().bytes()
            + self.payload()))
    }

    /// The answer that carries `payload` back to where this datagram came
    /// from.
    pub open spec fn reply(&self, payload: Seq<u8>) -> UdpDatagram {
        UdpDatagram {
            source_ip: self.dest_ip,
            source_mac: self.dest_mac,
            source_port: self.dest_port,
            dest_ip: self.source_ip,
            dest_mac: self.source_mac,
            dest_port: self.source_port,
            data_len: payload.len() as usize,
            data: payload,
        }
    }
}

/// A receiver that checks the UDP checksum accepts every datagram that this
/// codec writes: over pseudo header, header and payload it finds zero, and
/// the checksum field is never the zero that stands for "no checksum".
pub proof fn lemma_udp_checksum_verifies(p: UdpDatagram)
    requires
        p.wf(),
    ensures
        p.udp_header().sum != 0,
        internet_checksum(
            pseudo_header(
                p.source_ip,
                p.dest_ip,
                IP_PROTOCOL_UDP,
                (UDP_LEN + p.data_len) as u16,
            ) + p.udp_header().bytes() + p.payload(),
        ) == 0,
{
    let pseudo = pseudo_header(
        p.source_ip,
        p.dest_ip,
        IP_PROTOCOL_UDP,
        (UDP_LEN + p.data_len) as u16,
    );
    let unsummed = p.udp_header_unsummed();
    let summed = p.udp_header();
    let image = pseudo + unsummed.bytes() + p.payload();
    unsummed.lemma_parse_bytes(Seq::empty());
    summed.lemma_parse_bytes(Seq::empty());
    assert(pseudo.len() == 12);
    assert(be16(0) =~= seq![0u8, 0u8]);
    assert(image[18] == be16(0)[0] && image[19] == be16(0)[1]);
    assert(pseudo + summed.bytes() + p.payload() =~= with_u16_at(image, 18, summed.sum));
    if internet_checksum(image) == 0 {
        lemma_word_sum_with_u16(image, 18, 0xFFFF);
        lemma_fold16_bound(word_sum(image));
        lemma_fold16_step(word_sum(image), 0xFFFF);
    } else {
        lemma_checksum_verifies(image, 18);
    }
}

impl<'a> UDPPacket<'a> {
    /// A datagram with the given fields.
    pub fn new(
        source_ip: IPv4,
        source_mac: MacAddress,
        source_port: u16,
        dest_ip: IPv4,
        dest_mac: MacAddress,
        dest_port: u16,
        data_len: usize,
        data: &'a [u8],
    ) -> (r: UDPPacket<'a>)
        ensures
            r@ == (UdpDatagram {
                source_ip,
                source_mac,
                source_port,
                dest_ip,
                dest_mac,
                dest_port,
                data_len,
                data: data@,
            }),
    {
        UDPPacket {
            source_ip,
            source_mac,
            source_port,
            dest_ip,
            dest_mac,
            dest_port,
            data_len,
            data,
        }
    }

    /// Whether `build_data` may be called: the payload lies inside `data`
    /// and is short enough for one IPv4 packet.
    pub fn is_wf(&self) -> (r: bool)
        ensures
            r == self@.wf(),
    {
        self.data_len <= self.data.len() && self.data_len <= IP_MAX_TOTAL_LEN - IP_LEN - UDP_LEN
    }

    /// The payload, without copying.
    pub fn payload(&self) -> (r: &'a [u8])
        requires
            self.data_len <= self.data@.len(),
        ensures
            r@ == self@.payload(),
    {
        let r = slice_subrange(self.data, 0, self.data_len);
        assert(r@ =~= self@.payload());
        r
    }

    /// Derives the answer that carries `data` back to the sender: source and
    /// destination change places.
    pub fn reply(&self, data: &'a [u8]) -> (r: UDPPacket<'a>)
        ensures
            r@ == self@.reply(data@),
    {
        UDPPacket {
            source_ip: self.dest_ip,
            source_mac: self.dest_mac,
            source_port: self.dest_port,
            dest_ip: self.source_ip,
            dest_mac: self.source_mac,
            dest_port: self.source_port,
            data_len: data.len(),
            data,
        }
    }

    /// Serialises the datagram into a fresh frame.
    pub fn build_data(&self) -> (data: Vec<u8>)
        requires
            self@.wf(),
        ensures
            data@ == self@.frame(),
            data@.len() == ETH_LEN + IP_LEN + UDP_LEN + self.data_len,
    {
        let payload = self.payload();
        let eth_header = Eth { dhost: self.dest_mac, shost: self.source_mac, rtype: ETH_RTYPE_IP };
        let ip_header = Ip::outgoing(
            self.source_ip,
            self.dest_ip,
            IP_PROTOCOL_UDP,
            (IP_LEN + UDP_LEN + self.data_len) as u16,
        );
        let mut udp_header = UDP {
            sport: self.source_port,
            dport: self.dest_port,
            ulen: (UDP_LEN + self.data_len) as u16,
            sum: 0,
        };
        let mut image: Vec<u8> = Vec::with_capacity(UDP_LEN);
        udp_header.append_to(&mut image);
        proof {
            udp_header.lemma_parse_bytes(Seq::empty());
            assert(image@ =~= udp_header.bytes());
        }
        let sum = transport_check_sum(
            self.source_ip,
            self.dest_ip,
            IP_PROTOCOL_UDP,
            image.as_slice(),
            payload,
        );
        udp_header.sum = if sum == 0 {
            0xFFFF
        } else {
            sum
        };
        let mut data: Vec<u8> = Vec::with_capacity(ETH_LEN + IP_LEN + UDP_LEN + self.data_len);
        eth_header.append_to(&mut data);
        ip_header.append_to(&mut data);
        udp_header.append_to(&mut data);
        push_bytes(&mut data, payload);
        proof {
            eth_header.lemma_parse_bytes(Seq::empty());
            ip_header.lemma_parse_bytes(Seq::empty());
            udp_header.lemma_parse_bytes(Seq::empty());
            assert(data@ =~= self@.frame());
        }
        data
    }
}

} // verus!
