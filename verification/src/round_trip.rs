//! Decoding undoes encoding, and short frames are refused.
use vstd::prelude::*;
use crate::addr::{IPv4, MacAddress};
use crate::consts::{
    ARP_LEN, ETH_LEN, ETH_RTYPE_ARP, ETH_RTYPE_IP, IP_LEN, IP_PROTOCOL_TCP, IP_PROTOCOL_UDP,
    TCP_LEN, UDP_LEN,
};
use crate::net::{Arp, Eth, Ip};
use crate::packets::arp::{ArpPacket, ArpType};
use crate::packets::tcp::TcpSegment;
use crate::packets::udp::UdpDatagram;
use crate::results::{NetStackErrors, PacketView};
use crate::stack::decode;
use crate::wire::{lemma_be16_round_trip, u16_at};

verus! {

/// Whether `buf` is an ARP request for IPv4 over Ethernet: long enough for
/// both headers, with the EtherType of ARP and the fixed fields and the
/// operation of such a request.
pub open spec fn is_arp_request(buf: Seq<u8>) -> bool {
    &&& buf.len() >= ETH_LEN + ARP_LEN
    &&& u16_at(buf, 12) == 0x0806
    &&& u16_at(buf, 14) == 1
    &&& u16_at(buf, 16) == 0x0800
    &&& buf[18] == 6
    &&& buf[19] == 4
    &&& u16_at(buf, 20) == 1
}

/// Every ARP request decodes to an ARP packet whose operation is `Request`
/// and whose four addresses are the octets of the buffer at their places.
/// Encoding that packet gives the 28 octets of the ARP message back.
pub proof fn lemma_arp_request_decodes(buf: Seq<u8>)
    requires
        is_arp_request(buf),
    ensures
        decode(buf) is Ok,
        decode(buf)->Ok_0 is ARP,
        ({
            let p = decode(buf)->Ok_0->ARP_0;
            &&& p.rtype == ArpType::Request
            &&& p.sender_mac@ == buf.subrange(22, 28)
            &&& p.sender_ip@ == buf.subrange(28, 32)
            &&& p.target_mac@ == buf.subrange(32, 38)
            &&& p.target_ip@ == buf.subrange(38, 42)
            &&& p.arp_header().bytes() == buf.subrange(14, 42)
        }),
{
    let s = buf.skip(ETH_LEN as int);
    let arp = Arp::parse(s);
    let p = ArpPacket::from_header(arp);
    assert(p.sender_mac@ =~= buf.subrange(22, 28));
    assert(p.sender_ip@ =~= buf.subrange(28, 32));
    assert(p.target_mac@ =~= buf.subrange(32, 38));
    assert(p.target_ip@ =~= buf.subrange(38, 42));
    lemma_be16_round_trip(0, s, 0);
    lemma_be16_round_trip(0, s, 2);
    lemma_be16_round_trip(0, s, 6);
    assert(p.arp_header().bytes() =~= buf.subrange(14, 42));
}

/// Every ARP frame that this codec writes is broadcast, has the EtherType of
/// ARP, and announces Ethernet and IPv4 with their address lengths, whatever
/// the packet. The frame of a request is an ARP request.
pub proof fn lemma_arp_frame_is_canonical(p: ArpPacket)
    ensures
        p.frame().len() == ETH_LEN + ARP_LEN,
        p.frame().subrange(0, 6) == MacAddress::spec_broadcast()@,
        p.frame().subrange(6, 12) == p.sender_mac@,
        u16_at(p.frame(), 12) == 0x0806,
        u16_at(p.frame(), 14) == 1,
        u16_at(p.frame(), 16) == 0x0800,
        p.frame()[18] == 6,
        p.frame()[19] == 4,
        u16_at(p.frame(), 20) == p.rtype.spec_to_u16(),
        p.rtype == ArpType::Request ==> is_arp_request(p.frame()),
{
    let eth = p.eth_header();
    let arp = p.arp_header();
    let f = p.frame();
    eth.lemma_parse_bytes(arp.bytes());
    arp.lemma_parse_bytes(Seq::empty());
    assert(arp.bytes() + Seq::<u8>::empty() =~= arp.bytes());
    assert(Eth::parse(f) == eth);
    assert(Arp::parse(f.skip(ETH_LEN as int)) == arp);
    assert(f.subrange(0, 6) =~= MacAddress::spec_broadcast()@);
    assert(f.subrange(6, 12) =~= p.sender_mac@);
}

/// Decoding the frame of any ARP packet gives the packet back.
pub proof fn lemma_arp_round_trip(p: ArpPacket)
    ensures
        p.frame().len() == ETH_LEN + ARP_LEN,
        decode(p.frame()) == Ok::<PacketView, NetStackErrors>(PacketView::ARP(p)),
{
    let eth = p.eth_header();
    let arp = p.arp_header();
    eth.lemma_parse_bytes(arp.bytes());
    arp.lemma_parse_bytes(Seq::empty());
    assert(arp.bytes() + Seq::<u8>::empty() =~= arp.bytes());
    p.rtype.lemma_u16_round_trip();
}

/// The answer to an ARP request, put on the wire and decoded again, is a
/// reply whose sender is the answering station and whose target is the
/// station that asked.
pub proof fn lemma_arp_reply_round_trip(p: ArpPacket, local_ip: IPv4, local_mac: MacAddress)
    requires
        p.rtype == ArpType::Request,
    ensures
        decode(p.spec_reply(local_ip, local_mac).frame()) == Ok::<PacketView, NetStackErrors>(
            PacketView::ARP(
                ArpPacket {
                    sender_ip: local_ip,
                    sender_mac: local_mac,
                    target_ip: p.sender_ip,
                    target_mac: p.sender_mac,
                    rtype: ArpType::Reply,
                },
            ),
        ),
{
    lemma_arp_round_trip(p.spec_reply(local_ip, local_mac));
}

/// Decoding the frame of any UDP datagram that fits the wire gives the
/// datagram back, without what `data` held behind the payload.
pub proof fn lemma_udp_round_trip(p: UdpDatagram)
    requires
        p.wf(),
    ensures
        p.frame().len() == ETH_LEN + IP_LEN + UDP_LEN + p.data_len,
        decode(p.frame()) == Ok::<PacketView, NetStackErrors>(PacketView::UDP(p.on_wire())),
        p.data.len() == p.data_len ==> p.on_wire() == p,
{
    let eth = p.eth_header();
    let ip = p.ip_header();
    let udp = p.udp_header();
    let payload = p.payload();
    let after_ip = udp.bytes() + payload;
    let after_eth = ip.bytes() + after_ip;
    eth.lemma_parse_bytes(after_eth);
    ip.lemma_parse_bytes(after_ip);
    udp.lemma_parse_bytes(payload);
    assert(ip.spec_header_len() == IP_LEN && ip.spec_version() == 4);
    if p.data.len() == p.data_len {
        assert(p.payload() =~= p.data);
    }
}

/// Decoding the frame of any TCP segment that fits the wire gives the
/// segment back, without what `data` held behind the payload.
pub proof fn lemma_tcp_round_trip(p: TcpSegment)
    requires
        p.wf(),
    ensures
        p.frame().len() == ETH_LEN + IP_LEN + TCP_LEN + p.data_len,
        decode(p.frame()) == Ok::<PacketView, NetStackErrors>(PacketView::TCP(p.on_wire())),
        p.data.len() == p.data_len ==> p.on_wire() == p,
{
    let eth = p.eth_header();
    let ip = p.ip_header();
    let tcp = p.tcp_header();
    let payload = p.payload();
    let after_ip = tcp.bytes() + payload;
    let after_eth = ip.bytes() + after_ip;
    eth.lemma_parse_bytes(after_eth);
    ip.lemma_parse_bytes(after_ip);
    tcp.lemma_parse_bytes(payload);
    assert(ip.spec_header_len() == IP_LEN && ip.spec_version() == 4);
    assert(tcp.spec_header_len() == TCP_LEN);
    if p.data.len() == p.data_len {
        assert(p.payload() =~= p.data);
    }
}

/// Decoding the frame of any packet that has one gives the packet back,
/// without what its `data` held behind the payload.
pub proof fn lemma_round_trip(p: PacketView)
    requires
        p.sendable(),
    ensures
        decode(p.frame()) == Ok::<PacketView, NetStackErrors>(p.on_wire()),
{
    match p {
        PacketView::ARP(a) => lemma_arp_round_trip(a),
        PacketView::UDP(u) => lemma_udp_round_trip(u),
        PacketView::TCP(t) => lemma_tcp_round_trip(t),
        _ => {},
    }
}

/// Whatever a frame decodes to can be encoded again: the payload of a
/// decoded UDP or TCP packet lies inside its `data` and fits one IPv4 packet.
pub proof fn lemma_decoded_is_sendable(buf: Seq<u8>)
    requires
        decode(buf) is Ok,
    ensures
        decode(buf)->Ok_0 is UDP ==> decode(buf)->Ok_0->UDP_0.wf(),
        decode(buf)->Ok_0 is TCP ==> decode(buf)->Ok_0->TCP_0.wf(),
        decode(buf)->Ok_0 is ARP ==> decode(buf)->Ok_0.sendable(),
{
}

/// The least number of octets that a frame must have for the headers that
/// its EtherType and, for IPv4, its protocol number promise.
pub open spec fn min_frame_len(buf: Seq<u8>) -> nat
    recommends
        buf.len() >= ETH_LEN,
{
    let eth = Eth::parse(buf);
    if eth.rtype == ETH_RTYPE_ARP {
        (ETH_LEN + ARP_LEN) as nat
    } else if eth.rtype == ETH_RTYPE_IP {
        if buf.len() < ETH_LEN + IP_LEN {
            (ETH_LEN + IP_LEN) as nat
        } else {
            let ip = Ip::parse(buf.skip(ETH_LEN as int));
            if ip.pro == IP_PROTOCOL_UDP {
                (ETH_LEN + IP_LEN + UDP_LEN) as nat
            } else if ip.pro == IP_PROTOCOL_TCP {
                (ETH_LEN + IP_LEN + TCP_LEN) as nat
            } else {
                (ETH_LEN + IP_LEN) as nat
            }
        }
    } else {
        ETH_LEN as nat
    }
}

/// A frame shorter than its Ethernet header, or shorter than the headers
/// that its type fields promise, is a decode error, whatever else it holds.
pub proof fn lemma_short_frame_is_error(buf: Seq<u8>)
    requires
        buf.len() < ETH_LEN || buf.len() < min_frame_len(buf),
    ensures
        decode(buf) == Err::<PacketView, NetStackErrors>(NetStackErrors::DecodeError),
{
}

} // verus!
