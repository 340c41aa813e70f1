//! The analyzer: from one received frame to a typed packet.
use vstd::prelude::*;
use crate::addr::{IPv4, MacAddress};
use crate::consts::{
    ARP_ETHADDR_LEN, ARP_HRD_ETHER, ARP_IPADDR_LEN, ARP_LEN, ETH_LEN, ETH_RTYPE_ARP,
    ETH_RTYPE_IP, IP_LEN, IP_PROTOCOL_TCP, IP_PROTOCOL_UDP, TCP_LEN, UDP_LEN,
};
use crate::flags::TcpFlags;
use crate::net::{Arp, Eth, Ip, TCP, UDP};
use crate::packets::arp::{ArpPacket, ArpType};
use crate::packets::tcp::{TCPPacket, TcpSegment};
use crate::packets::udp::{UDPPacket, UdpDatagram};
use crate::results::{NetStackErrors, Packet, PacketView};
use crate::wire::HeaderView;

verus! {

/// What a frame holds. A frame shorter than its Ethernet header is
/// malformed; one of an unknown EtherType is ignored.
pub open spec fn decode(frame: Seq<u8>) -> Result<PacketView, NetStackErrors> {
    if frame.len() < ETH_LEN {
        Err(NetStackErrors::DecodeError)
    } else {
        let eth = Eth::parse(frame);
        if eth.rtype == ETH_RTYPE_ARP {
            decode_arp(frame.skip(ETH_LEN as int))
        } else if eth.rtype == ETH_RTYPE_IP {
            decode_ip(eth, frame.skip(ETH_LEN as int))
        } else {
            Ok(PacketView::Unsupported)
        }
    }
}

/// What the octets `s` behind the Ethernet header of an ARP frame hold.
/// ARP for other hardware or other protocols than Ethernet and IPv4 is
/// ignored; ARP for these two with other address lengths than theirs is
/// malformed.
pub open spec fn decode_arp(s: Seq<u8>) -> Result<PacketView, NetStackErrors> {
    if s.len() < ARP_LEN {
        Err(NetStackErrors::DecodeError)
    } else {
        let arp = Arp::parse(s);
        if arp.httype != ARP_HRD_ETHER || arp.pttype != ETH_RTYPE_IP {
            Ok(PacketView::Unsupported)
        } else if arp.hlen != ARP_ETHADDR_LEN || arp.plen != ARP_IPADDR_LEN {
            Err(NetStackErrors::DecodeError)
        } else {
            Ok(PacketView::ARP(ArpPacket::from_header(arp)))
        }
    }
}

/// Whether an IPv4 header is one that a frame with `avail` octets behind its
/// Ethernet header can start with: version 4, a header of at least five
/// words, and a total length that holds the header and lies inside the frame.
pub open spec fn ip_header_fits(ip: Ip, avail: nat) -> bool {
    &&& ip.spec_version() == 4
    &&& ip.spec_header_len() >= IP_LEN
    &&& ip.len >= ip.spec_header_len()
    &&& ip.len <= avail
}

/// What the octets `s` behind the Ethernet header `eth` of an IPv4 frame
/// hold. Options in the IPv4 header are skipped.
pub open spec fn decode_ip(eth: Eth, s: Seq<u8>) -> Result<PacketView, NetStackErrors> {
    if s.len() < IP_LEN {
        Err(NetStackErrors::DecodeError)
    } else {
        let ip = Ip::parse(s);
        if !ip_header_fits(ip, s.len()) {
            Err(NetStackErrors::DecodeError)
        } else if ip.pro == IP_PROTOCOL_UDP {
            decode_udp(eth, ip, s.skip(ip.spec_header_len() as int))
        } else if ip.pro == IP_PROTOCOL_TCP {
            decode_tcp(eth, ip, s.skip(ip.spec_header_len() as int))
        } else {
            Ok(PacketView::IPv4Other(ip.pro))
        }
    }
}

/// What the octets `s` behind the IPv4 header `ip` of a UDP packet hold.
/// The UDP header must lie inside the IPv4 packet, and the datagram that it
/// announces too. The payload length is the one that the UDP header gives;
/// `data` is all that follows the header in the frame.
pub open spec fn decode_udp(eth: Eth, ip: Ip, s: Seq<u8>) -> Result<PacketView, NetStackErrors> {
    let avail = ip.len - ip.spec_header_len();
    if avail < UDP_LEN {
        Err(NetStackErrors::DecodeError)
    } else {
        let udp = UDP::parse(s);
        if udp.ulen < UDP_LEN || udp.ulen > avail {
            Err(NetStackErrors::DecodeError)
        } else {
            Ok(
                PacketView::UDP(
                    UdpDatagram {
                        source_ip: ip.src,
                        source_mac: eth.shost,
                        source_port: udp.sport,
                        dest_ip: ip.dst,
                        dest_mac: eth.dhost,
                        dest_port: udp.dport,
                        data_len: (udp.ulen - UDP_LEN) as usize,
                        data: s.skip(UDP_LEN as int),
                    },
                ),
            )
        }
    }
}

/// What the octets `s` behind the IPv4 header `ip` of a TCP packet hold.
/// The TCP header, options included, must lie inside the IPv4 packet. The
/// payload is what the IPv4 packet holds behind the TCP header; `data` is all
/// that follows the TCP header in the frame. Options are skipped.
pub open spec fn decode_tcp(eth: Eth, ip: Ip, s: Seq<u8>) -> Result<PacketView, NetStackErrors> {
    let avail = ip.len - ip.spec_header_len();
    if avail < TCP_LEN {
        Err(NetStackErrors::DecodeError)
    } else {
        let tcp = TCP::parse(s);
        if tcp.spec_header_len() < TCP_LEN || tcp.spec_header_len() > avail {
            Err(NetStackErrors::DecodeError)
        } else {
            Ok(
                PacketView::TCP(
                    TcpSegment {
                        source_ip: ip.src,
                        source_mac: eth.shost,
                        source_port: tcp.sport,
                        dest_ip: ip.dst,
                        dest_mac: eth.dhost,
                        dest_port: tcp.dport,
                        data_len: (avail - tcp.spec_header_len()) as usize,
                        seq: tcp.seq,
                        ack: tcp.ack,
                        flags: TcpFlags { bits: tcp.flags },
                        win: tcp.win,
                        urg: tcp.urg,
                        data: s.skip(tcp.spec_header_len() as int),
                    },
                ),
            )
        }
    }
}

/// The view of what `analysis` returned.
pub open spec fn outcome(r: Result<Packet<'_>, NetStackErrors>) -> Result<
    PacketView,
    NetStackErrors,
> {
    match r {
        Ok(p) => Ok(p@),
        Err(e) => Err(e),
    }
}

/// The identity of this node on its network: its IPv4 and its hardware
/// address. It is handed explicitly to whatever needs it.
#[derive(Clone, Copy, Debug, PartialEq, Eq, Structural)]
pub struct LoseStack {
    pub ip: IPv4,
    pub mac: MacAddress,
}

impl LoseStack {
    /// The node with the given addresses.
    pub fn new(ip: IPv4, mac: MacAddress) -> (r: LoseStack)
        ensures
            r == (LoseStack { ip, mac }),
    {
        LoseStack { ip, mac }
    }

    /// Decodes one received frame. The packet borrows its payload from
    /// `data`. The answer does not depend on who this node is: frames for
    /// other stations are decoded like any other.
    pub fn analysis<'a>(&self, data: &'a [u8]) -> (r: Result<Packet<'a>, NetStackErrors>)
        ensures
            outcome(r) == decode(data@),
            r matches Ok(Packet::UDP(p)) ==> p@.wf(),
            r matches Ok(Packet::TCP(p)) ==> p@.wf(),
    {
        let view = HeaderView::new(data);
        match Eth::read(&view, 0) {
            None => Err(NetStackErrors::DecodeError),
            Some(eth_header) => {
                assert(data@.skip(0) =~= data@);
                if eth_header.rtype == ETH_RTYPE_ARP {
                    analysis_arp(&view)
                } else if eth_header.rtype == ETH_RTYPE_IP {
                    analysis_ip(&view, &eth_header)
                } else {
                    Ok(Packet::Unsupported)
                }
            },
        }
    }
}

/// Decodes the ARP message behind the Ethernet header.
fn analysis_arp<'a>(view: &HeaderView<'a>) -> (r: Result<Packet<'a>, NetStackErrors>)
    requires
        view.buf@.len() >= ETH_LEN,
    ensures
        outcome(r) == decode_arp(view.buf@.skip(ETH_LEN as int)),
{
    match Arp::read(view, ETH_LEN) {
        None => Err(NetStackErrors::DecodeError),
        Some(arp_header) => {
            if arp_header.httype != ARP_HRD_ETHER || arp_header.pttype != ETH_RTYPE_IP {
                Ok(Packet::Unsupported)
            } else if arp_header.hlen != ARP_ETHADDR_LEN || arp_header.plen != ARP_IPADDR_LEN {
                Err(NetStackErrors::DecodeError)
            } else {
                Ok(
                    Packet::ARP(
                        ArpPacket::new(
                            arp_header.spa,
                            arp_header.sha,
                            arp_header.tpa,
                            arp_header.tha,
                            ArpType::form_u16(arp_header.op),
                        ),
                    ),
                )
            }
        },
    }
}

/// Decodes the IPv4 packet behind the Ethernet header `eth_header`.
fn analysis_ip<'a>(view: &HeaderView<'a>, eth_header: &Eth) -> (r: Result<
    Packet<'a>,
    NetStackErrors,
>)
    requires
        view.buf@.len() >= ETH_LEN,
    ensures
        outcome(r) == decode_ip(*eth_header, view.buf@.skip(ETH_LEN as int)),
{
    match Ip::read(view, ETH_LEN) {
        None => Err(NetStackErrors::DecodeError),
        Some(ip_header) => {
            let header_len = ip_header.header_len();
            let total_len = ip_header.len as usize;
            if ip_header.version() != 4 || header_len < IP_LEN || total_len < header_len
                || total_len > view.len() - ETH_LEN {
                return Err(NetStackErrors::DecodeError);
            }
            let off = ETH_LEN + header_len;
            let avail = total_len - header_len;
            proof {
                let s = view.buf@.skip(ETH_LEN as int);
                assert(s.skip(header_len as int) =~= view.buf@.skip(off as int));
            }
            if ip_header.pro == IP_PROTOCOL_UDP {
                analysis_udp(view, eth_header, &ip_header, off, avail)
            } else if ip_header.pro == IP_PROTOCOL_TCP {
                analysis_tcp(view, eth_header, &ip_header, off, avail)
            } else {
                Ok(Packet::IPv4Other(ip_header.pro))
            }
        },
    }
}

/// Decodes the UDP datagram at `off`, where the IPv4 packet has `avail`
/// octets behind its header.
fn analysis_udp<'a>(
    view: &HeaderView<'a>,
    eth_header: &Eth,
    ip_header: &Ip,
    off: usize,
    avail: usize,
) -> (r: Result<Packet<'a>, NetStackErrors>)
    requires
        off + avail <= view.buf@.len() <= usize::MAX,
        avail == ip_header.len - ip_header.spec_header_len(),
    ensures
        outcome(r) == decode_udp(*eth_header, *ip_header, view.buf@.skip(off as int)),
{
    if avail < UDP_LEN {
        return Err(NetStackErrors::DecodeError);
    }
    let udp_header = UDP::read(view, off).unwrap();
    let ulen = udp_header.ulen as usize;
    if ulen < UDP_LEN || ulen > avail {
        return Err(NetStackErrors::DecodeError);
    }
    let data = view.rest(off + UDP_LEN).unwrap();
    proof {
        let s = view.buf@.skip(off as int);
        assert(s.skip(UDP_LEN as int) =~= view.buf@.skip(off + UDP_LEN));
    }
    Ok(
        Packet::UDP(
            UDPPacket::new(
                ip_header.src,
                eth_header.shost,
                udp_header.sport,
                ip_header.dst,
                eth_header.dhost,
                udp_header.dport,
                ulen - UDP_LEN,
                data,
            ),
        ),
    )
}

/// Decodes the TCP segment at `off`, where the IPv4 packet has `avail`
/// octets behind its header.
fn analysis_tcp<'a>(
    view: &HeaderView<'a>,
    eth_header: &Eth,
    ip_header: &Ip,
    off: usize,
    avail: usize,
) -> (r: Result<Packet<'a>, NetStackErrors>)
    requires
        off + avail <= view.buf@.len() <= usize::MAX,
        avail == ip_header.len - ip_header.spec_header_len(),
    ensures
        outcome(r) == decode_tcp(*eth_header, *ip_header, view.buf@.skip(off as int)),
{
    if avail < TCP_LEN {
        return Err(NetStackErrors::DecodeError);
    }
    let tcp_header = TCP::read(view, off).unwrap();
    let header_len = tcp_header.header_len();
    if header_len < TCP_LEN || header_len > avail {
        return Err(NetStackErrors::DecodeError);
    }
    let data = view.rest(off + header_len).unwrap();
    proof {
        let s = view.buf@.skip(off as int);
        assert(s.skip(header_len as int) =~= view.buf@.skip(off + header_len));
    }
    Ok(
        Packet::TCP(
            TCPPacket {
                source_ip: ip_header.src,
                source_mac: eth_header.shost,
                source_port: tcp_header.sport,
                dest_ip: ip_header.dst,
                dest_mac: eth_header.dhost,
                dest_port: tcp_header.dport,
                data_len: avail - header_len,
                seq: tcp_header.seq,
                ack: tcp_header.ack,
                flags: TcpFlags::from_bits(tcp_header.flags),
                win: tcp_header.win,
                urg: tcp_header.urg,
                data,
            },
        ),
    )
}

} // verus!
