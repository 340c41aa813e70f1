//! TCP segments over IPv4 over Ethernet, and the answers a node derives
//! from a segment it received.
//!
//! This is not a TCP state machine. It knows how to acknowledge a segment,
//! how to answer with data, how to accept a connection and how to close one,
//! and leaves sequencing over several segments to the caller, who threads
//! the numbers through successive calls.
use vstd::prelude::*;
use vstd::slice::slice_subrange;
use crate::addr::{IPv4, MacAddress};
use crate::checksum::{
    internet_checksum, lemma_checksum_verifies, pseudo_header, transport_check_sum,
    transport_checksum, with_u16_at,
};
use crate::consts::{
    ETH_LEN, ETH_RTYPE_IP, IP_LEN, IP_MAX_TOTAL_LEN, IP_PROTOCOL_TCP, TCP_HEADER_OFFSET, TCP_LEN,
};
use crate::flags::TcpFlags;
use crate::net::{Eth, Ip, TCP};
use crate::wire::{be16, push_bytes};

verus! {

/// The sequence number `n` octets after `seq`. Sequence numbers wrap around
/// at 2^32.
pub open spec fn seq_after(seq: u32, n: nat) -> u32 {
    ((seq + n) % 0x1_0000_0000) as u32
}

/// Computes the sequence number `n` octets after `seq`.
pub fn seq_add(seq: u32, n: usize) -> (r: u32)
    ensures
        r == seq_after(seq, n as nat),
{
    proof {
        vstd::arithmetic::div_mod::lemma_add_mod_noop_right(
            seq as int,
            n as int,
            0x1_0000_0000,
        );
    }
    let step: u64 = (n as u64) % 0x1_0000_0000;
    ((seq as u64 + step) % 0x1_0000_0000) as u32
}

/// What a received segment asks of this node, by its control bits.
#[derive(Debug, Clone, Copy, PartialEq, Eq, Structural)]
pub enum TcpEvent {
    /// FIN: the peer has finished. The answers are those of `close`.
    Close,
    /// SYN without ACK and without FIN: the peer asks for a connection. The
    /// answer is `syn_ack`.
    Connect,
    /// ACK without payload, and neither of the above: an acknowledgement,
    /// which needs no answer.
    Acknowledged,
    /// Anything else: a segment for the application, which answers with
    /// `reply` or `ack`.
    Data,
}

/// A TCP segment with the addresses of the frame that carries it. The
/// hardware addresses are not part of TCP or IPv4: decoding takes them from
/// the Ethernet header.
///
/// `data` may be longer than the payload: a received frame can end in
/// padding. The payload is the first `data_len` octets of `data`.
#[derive(Debug, Clone, Copy, PartialEq, Eq)]
pub struct TCPPacket<'a> {
    pub source_ip: IPv4,
    pub source_mac: MacAddress,
    pub source_port: u16,
    pub dest_ip: IPv4,
    pub dest_mac: MacAddress,
    pub dest_port: u16,
    pub data_len: usize,
    /// Sequence number of the first payload octet.
    pub seq: u32,
    /// Sequence number that the sender expects next from its peer.
    pub ack: u32,
    pub flags: TcpFlags,
    /// Receive window.
    pub win: u16,
    /// Urgent pointer.
    pub urg: u16,
    pub data: &'a [u8],
}

/// The mathematical content of a [`TCPPacket`].
pub ghost struct TcpSegment {
    pub source_ip: IPv4,
    pub source_mac: MacAddress,
    pub source_port: u16,
    pub dest_ip: IPv4,
    pub dest_mac: MacAddress,
    pub dest_port: u16,
    pub data_len: usize,
    pub seq: u32,
    pub ack: u32,
    pub flags: TcpFlags,
    pub win: u16,
    pub urg: u16,
    pub data: Seq<u8>,
}

impl<'a> View for TCPPacket<'a> {
    type V = TcpSegment;

    open spec fn view(&self) -> TcpSegment {
        TcpSegment {
            source_ip: self.source_ip,
            source_mac: self.source_mac,
            source_port: self.source_port,
            dest_ip: self.dest_ip,
            dest_mac: self.dest_mac,
            dest_port: self.dest_port,
            data_len: self.data_len,
            seq: self.seq,
            ack: self.ack,
            flags: self.flags,
            win: self.win,
            urg: self.urg,
            data: self.data@,
        }
    }
}

impl TcpSegment {
    /// Whether the segment can be put on the wire: the payload lies inside
    /// `data`, and the IPv4 total length fits its 16-bit field.
    pub open spec fn wf(&self) -> bool {
        &&& self.data_len <= self.data.len()
        &&& IP_LEN + TCP_LEN + self.data_len <= IP_MAX_TOTAL_LEN
    }

    /// The payload: `data` without what follows its first `data_len` octets.
    pub open spec fn payload(&self) -> Seq<u8> {
        self.data.take(self.data_len as int)
    }

    /// The segment without padding behind its payload.
    pub open spec fn on_wire(&self) -> TcpSegment {
        TcpSegment { data: self.payload(), ..*self }
    }

    /// The Ethernet header of the segment's frame.
    pub open spec fn eth_header(&self) -> Eth {
        Eth { dhost: self.dest_mac, shost: self.source_mac, rtype: ETH_RTYPE_IP }
    }

    /// The IPv4 header of the segment's frame.
    pub open spec fn ip_header(&self) -> Ip {
        Ip::spec_outgoing(
            self.source_ip,
            self.dest_ip,
            IP_PROTOCOL_TCP,
            (IP_LEN + TCP_LEN + self.data_len) as u16,
        )
    }

    /// The TCP header before its checksum is known. It has no options.
    pub open spec fn tcp_header_unsummed(&self) -> TCP {
        TCP {
            sport: self.source_port,
            dport: self.dest_port,
            seq: self.seq,
            ack: self.ack,
            offset: TCP_HEADER_OFFSET,
            flags: self.flags.bits,
            win: self.win,
            sum: 0,
            urg: self.urg,
        }
    }

    /// The TCP header of the segment's frame, with the checksum over pseudo
    /// header, header and payload.
    pub open spec fn tcp_header(&self) -> TCP {
        TCP {
            sum: transport_checksum(
                self.source_ip,
                self.dest_ip,
                IP_PROTOCOL_TCP,
                self.tcp_header_unsummed().bytes(),
                self.payload(),
            ),
            ..self.tcp_header_unsummed()
        }
    }

    /// The octets of the segment's frame: Ethernet header, IPv4 header, TCP
    /// header, payload.
    pub open spec fn frame(&self) -> Seq<u8> {
        self.eth_header().bytes() + (self.ip_header().bytes() + (self.tcp_header().bytes()
            + self.payload()))
    }

    /// What the segment asks of the node that receives it.
    pub open spec fn event(&self) -> TcpEvent {
        if self.flags.spec_contains(TcpFlags::spec_fin()) {
            TcpEvent::Close
        } else if self.flags.spec_contains(TcpFlags::spec_syn()) && !self.flags.spec_contains(
            TcpFlags::spec_ack(),
        ) {
            TcpEvent::Connect
        } else if self.flags.spec_contains(TcpFlags::spec_ack()) && self.data_len == 0 {
            TcpEvent::Acknowledged
        } else {
            TcpEvent::Data
        }
    }

    /// The sequence number that acknowledges this segment: past its payload
    /// where it has one, else one past its sequence number, as for a segment
    /// that only carries control bits.
    pub open spec fn next_ack(&self) -> u32 {
        if self.data_len > 0 {
            seq_after(self.seq, self.data_len as nat)
        } else {
            seq_after(self.seq, 1)
        }
    }

    /// A segment that travels the other way: source and destination change
    /// places, and the sequence number is the one the peer expects. Window
    /// and urgent pointer are kept.
    pub open spec fn answer(&self, ack: u32, flags: TcpFlags, payload: Seq<u8>) -> TcpSegment {
        TcpSegment {
            source_ip: self.dest_ip,
            source_mac: self.dest_mac,
            source_port: self.dest_port,
            dest_ip: self.source_ip,
            dest_mac: self.source_mac,
            dest_port: self.source_port,
            data_len: payload.len() as usize,
            seq: self.ack,
            ack,
            flags,
            win: self.win,
            urg: self.urg,
            data: payload,
        }
    }

    /// The acknowledgement of this segment: no payload, ACK alone.
    pub open spec fn spec_ack(&self) -> TcpSegment {
        self.answer(self.next_ack(), TcpFlags::spec_ack(), Seq::empty())
    }

    /// The answer that acknowledges this segment and carries `payload`.
    pub open spec fn spec_reply(&self, payload: Seq<u8>) -> TcpSegment {
        self.answer(self.next_ack(), TcpFlags::spec_ack(), payload)
    }

    /// The answer that accepts the connection this segment asks for: SYN and
    /// ACK, acknowledging one past the received sequence number.
    pub open spec fn spec_syn_ack(&self) -> TcpSegment {
        self.answer(
            seq_after(self.seq, 1),
            TcpFlags::spec_syn().spec_union(TcpFlags::spec_ack()),
            Seq::empty(),
        )
    }

    /// The first answer to a segment that closes the connection: ACK alone,
    /// acknowledging one past the received sequence number.
    pub open spec fn spec_close_ack(&self) -> TcpSegment {
        self.answer(seq_after(self.seq, 1), TcpFlags::spec_ack(), Seq::empty())
    }

    /// The second answer to a segment that closes the connection: the first
    /// one again with FIN added, by which this node closes its own side
    /// without waiting for anything more from the peer.
    pub open spec fn spec_close_fin(&self) -> TcpSegment {
        self.answer(
            seq_after(self.seq, 1),
            TcpFlags::spec_ack().spec_union(TcpFlags::spec_fin()),
            Seq::empty(),
        )
    }
}

/// A receiver that checks the TCP checksum accepts every segment that this
/// codec writes: over pseudo header, header and payload it finds zero.
pub proof fn lemma_tcp_checksum_verifies(p: TcpSegment)
    requires
        p.wf(),
    ensures
        internet_checksum(
            pseudo_header(
                p.source_ip,
                p.dest_ip,
                IP_PROTOCOL_TCP,
                (TCP_LEN + p.data_len) as u16,
            ) + p.tcp_header().bytes() + p.payload(),
        ) == 0,
{
    let pseudo = pseudo_header(
        p.source_ip,
        p.dest_ip,
        IP_PROTOCOL_TCP,
        (TCP_LEN + p.data_len) as u16,
    );
    let unsummed = p.tcp_header_unsummed();
    let summed = p.tcp_header();
    let image = pseudo + unsummed.bytes() + p.payload();
    unsummed.lemma_parse_bytes(Seq::empty());
    summed.lemma_parse_bytes(Seq::empty());
    assert(pseudo.len() == 12);
    assert(be16(0) =~= seq![0u8, 0u8]);
    assert(image[28] == be16(0)[0] && image[29] == be16(0)[1]);
    lemma_checksum_verifies(image, 28);
    assert(pseudo + summed.bytes() + p.payload() =~= with_u16_at(image, 28, summed.sum));
}

/// The answer that accepts a connection acknowledges one past the sequence
/// number of the segment with SYN and without ACK that asked for it, with
/// both SYN and ACK set. It goes back to where that segment came from and
/// has no payload. It is what a node sends on such a segment, unless the
/// segment has FIN too and so closes what it opens.
pub proof fn lemma_connect_answer(p: TcpSegment)
    requires
        p.flags.spec_contains(TcpFlags::spec_syn()),
        !p.flags.spec_contains(TcpFlags::spec_ack()),
    ensures
        p.event() == TcpEvent::Connect || p.event() == TcpEvent::Close,
        p.event() == TcpEvent::Close <==> p.flags.spec_contains(TcpFlags::spec_fin()),
        p.spec_syn_ack().ack == seq_after(p.seq, 1),
        p.seq < u32::MAX ==> p.spec_syn_ack().ack == p.seq + 1,
        p.seq == u32::MAX ==> p.spec_syn_ack().ack == 0,
        p.spec_syn_ack().flags.spec_contains(TcpFlags::spec_syn()),
        p.spec_syn_ack().flags.spec_contains(TcpFlags::spec_ack()),
        p.spec_syn_ack().seq == p.ack,
        p.spec_syn_ack().data_len == 0,
        p.spec_syn_ack().wf(),
        p.spec_syn_ack().dest_ip == p.source_ip,
        p.spec_syn_ack().dest_mac == p.source_mac,
        p.spec_syn_ack().dest_port == p.source_port,
        p.spec_syn_ack().source_ip == p.dest_ip,
        p.spec_syn_ack().source_mac == p.dest_mac,
        p.spec_syn_ack().source_port == p.dest_port,
{
    TcpFlags::spec_syn().lemma_union_contains(TcpFlags::spec_ack(), TcpFlags::spec_syn());
}

/// A segment with FIN closes the connection and has two answers, in this
/// order. The first is a pure acknowledgement of one past its sequence
/// number: ACK alone, no FIN, no payload. The second differs from the first
/// in its flags only, which are FIN and ACK.
pub proof fn lemma_close_answers(p: TcpSegment)
    requires
        p.flags.spec_contains(TcpFlags::spec_fin()),
    ensures
        p.event() == TcpEvent::Close,
        p.spec_close_ack().ack == seq_after(p.seq, 1),
        p.seq < u32::MAX ==> p.spec_close_ack().ack == p.seq + 1,
        p.seq == u32::MAX ==> p.spec_close_ack().ack == 0,
        p.spec_close_ack().flags == TcpFlags::spec_ack(),
        !p.spec_close_ack().flags.spec_contains(TcpFlags::spec_fin()),
        p.spec_close_ack().seq == p.ack,
        p.spec_close_ack().data_len == 0,
        p.spec_close_ack().wf(),
        p.spec_close_ack().dest_ip == p.source_ip,
        p.spec_close_ack().dest_mac == p.source_mac,
        p.spec_close_ack().dest_port == p.source_port,
        p.spec_close_ack().source_ip == p.dest_ip,
        p.spec_close_ack().source_mac == p.dest_mac,
        p.spec_close_ack().source_port == p.dest_port,
        p.spec_close_fin().flags.spec_contains(TcpFlags::spec_fin()),
        p.spec_close_fin().flags.spec_contains(TcpFlags::spec_ack()),
        p.spec_close_fin() == (TcpSegment {
            flags: TcpFlags::spec_ack().spec_union(TcpFlags::spec_fin()),
            ..p.spec_close_ack()
        }),
{
    TcpFlags::spec_ack().lemma_union_contains(TcpFlags::spec_fin(), TcpFlags::spec_ack());
    TcpFlags::lemma_named_flags_distinct();
}

/// An acknowledgement acknowledges the payload it answers, or one sequence
/// number where there is none, carries no payload and has ACK alone; an
/// answer with data acknowledges the same and carries the data. Both can be
/// put on the wire if the data is short enough for one IPv4 packet.
pub proof fn lemma_ack_and_reply(p: TcpSegment, payload: Seq<u8>)
    ensures
        p.data_len > 0 ==> p.spec_ack().ack == seq_after(p.seq, p.data_len as nat),
        p.data_len == 0 ==> p.spec_ack().ack == seq_after(p.seq, 1),
        p.spec_ack().flags == TcpFlags::spec_ack(),
        p.spec_ack().data_len == 0,
        p.spec_ack().wf(),
        p.spec_ack().seq == p.ack,
        p.spec_reply(payload).ack == p.spec_ack().ack,
        p.spec_reply(payload).flags.spec_contains(TcpFlags::spec_ack()),
        p.spec_reply(payload).data == payload,
        IP_LEN + TCP_LEN + payload.len() <= IP_MAX_TOTAL_LEN ==> p.spec_reply(payload).wf()
            && p.spec_reply(payload).payload() == payload,
{
    TcpFlags::spec_ack().lemma_contains_order(TcpFlags::spec_ack(), TcpFlags::spec_ack());
    if IP_LEN + TCP_LEN + payload.len() <= IP_MAX_TOTAL_LEN {
        assert(p.spec_reply(payload).payload() =~= payload);
    }
}

impl<'a> TCPPacket<'a> {
    /// Whether `build_data` may be called: the payload lies inside `data`
    /// and is short enough for one IPv4 packet.
    pub fn is_wf(&self) -> (r: bool)
        ensures
            r == self@.wf(),
    {
        self.data_len <= self.data.len() && self.data_len <= IP_MAX_TOTAL_LEN - IP_LEN - TCP_LEN
    }

    /// The payload, without copying.
    pub fn payload(&self) -> (r: &'a [u8])
        requires
            self.data_len <= self.data@.len(),
        ensures
            r@ == self@.payload(),
    {
        let r = slice_subrange(self.data, 0, self.data_len);
        assert(r@ =~= self@.payload());
        r
    }

    /// Tells what this segment asks of the node that received it.
    pub fn event(&self) -> (r: TcpEvent)
        ensures
            r == self@.event(),
    {
        if self.flags.contains(TcpFlags::fin()) {
            TcpEvent::Close
        } else if self.flags.contains(TcpFlags::syn()) && !self.flags.contains(TcpFlags::ack()) {
            TcpEvent::Connect
        } else if self.flags.contains(TcpFlags::ack()) && self.data_len == 0 {
            TcpEvent::Acknowledged
        } else {
            TcpEvent::Data
        }
    }

    /// The sequence number that acknowledges this segment.
    pub fn next_ack(&self) -> (r: u32)
        ensures
            r == self@.next_ack(),
    {
        if self.data_len > 0 {
            seq_add(self.seq, self.data_len)
        } else {
            seq_add(self.seq, 1)
        }
    }

    fn answer(&self, ack: u32, flags: TcpFlags, data: &'a [u8]) -> (r: TCPPacket<'a>)
        ensures
            r@ == self@.answer(ack, flags, data@),
    {
        TCPPacket {
            source_ip: self.dest_ip,
            source_mac: self.dest_mac,
            source_port: self.dest_port,
            dest_ip: self.source_ip,
            dest_mac: self.source_mac,
            dest_port: self.source_port,
            data_len: data.len(),
            seq: self.ack,
            ack,
            flags,
            win: self.win,
            urg: self.urg,
            data,
        }
    }

    fn no_data(&self) -> (r: &'a [u8])
        ensures
            r@ == Seq::<u8>::empty(),
    {
        let r = slice_subrange(self.data, 0, 0);
        assert(r@ =~= Seq::<u8>::empty());
        r
    }

    /// Derives the acknowledgement of this segment: source and destination
    /// change places, the payload is dropped, ACK alone is set, and the
    /// acknowledgement number is the received sequence number advanced by
    /// the received payload, or by one where there is none.
    pub fn ack(&self) -> (r: TCPPacket<'a>)
        ensures
            r@ == self@.spec_ack(),
    {
        self.answer(self.next_ack(), TcpFlags::ack(), self.no_data())
    }

    /// Derives the answer that acknowledges this segment as `ack` does and
    /// carries `data`.
    pub fn reply(&self, data: &'a [u8]) -> (r: TCPPacket<'a>)
        ensures
            r@ == self@.spec_reply(data@),
    {
        self.answer(self.next_ack(), TcpFlags::ack(), data)
    }

    /// Derives the answer that accepts a connection.
    pub fn syn_ack(&self) -> (r: TCPPacket<'a>)
        ensures
            r@ == self@.spec_syn_ack(),
    {
        self.answer(seq_add(self.seq, 1), TcpFlags::syn() | TcpFlags::ack(), self.no_data())
    }

    /// Derives the two answers that close a connection, in the order in
    /// which they are to be sent: the acknowledgement of the peer's FIN, then
    /// this node's own FIN.
    pub fn close(&self) -> (r: (TCPPacket<'a>, TCPPacket<'a>))
        ensures
            r.0@ == self@.spec_close_ack(),
            r.1@ == self@.spec_close_fin(),
    {
        let ack = seq_add(self.seq, 1);
        let first = self.answer(ack, TcpFlags::ack(), self.no_data());
        let second = self.answer(ack, TcpFlags::ack() | TcpFlags::fin(), self.no_data());
        (first, second)
    }

    /// Serialises the segment into a fresh frame.
    pub fn build_data(&self) -> (data: Vec<u8>)
        requires
            self@.wf(),
        ensures
            data@ == self@.frame(),
            data@.len() == ETH_LEN + IP_LEN + TCP_LEN + self.data_len,
    {
        let payload = self.payload();
        let eth_header = Eth { dhost: self.dest_mac, shost: self.source_mac, rtype: ETH_RTYPE_IP };
        let ip_header = Ip::outgoing(
            self.source_ip,
            self.dest_ip,
            IP_PROTOCOL_TCP,
            (IP_LEN + TCP_LEN + self.data_len) as u16,
        );
        let mut tcp_header = TCP {
            sport: self.source_port,
            dport: self.dest_port,
            seq: self.seq,
            ack: self.ack,
            offset: TCP_HEADER_OFFSET,
            flags: self.flags.bits(),
            win: self.win,
            sum: 0,
            urg: self.urg,
        };
        let mut image: Vec<u8> = Vec::with_capacity(TCP_LEN);
        tcp_header.append_to(&mut image);
        proof {
            tcp_header.lemma_parse_bytes(Seq::empty());
            assert(image@ =~= tcp_header.bytes());
        }
        tcp_header.sum =
        transport_check_sum(
            self.source_ip,
            self.dest_ip,
            IP_PROTOCOL_TCP,
            image.as_slice(),
            payload,
        );
        let mut data: Vec<u8> = Vec::with_capacity(ETH_LEN + IP_LEN + TCP_LEN + self.data_len);
        eth_header.append_to(&mut data);
        ip_header.append_to(&mut data);
        tcp_header.append_to(&mut data);
        push_bytes(&mut data, payload);
        proof {
            eth_header.lemma_parse_bytes(Seq::empty());
            ip_header.lemma_parse_bytes(Seq::empty());
            tcp_header.lemma_parse_bytes(Seq::empty());
            assert(data@ =~= self@.frame());
        }
        data
    }
}

} // verus!
