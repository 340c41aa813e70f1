//! The fixed header layouts: Ethernet, ARP, IPv4, UDP and TCP.
//!
//! Each header type gives its wire image (`bytes`), the header that a wire
//! image holds (`parse`), and a proof that the second undoes the first.
use vstd::prelude::*;
use crate::addr::{IPv4, MacAddress};
use crate::checksum::{check_sum, internet_checksum, lemma_checksum_verifies, with_u16_at};
use crate::consts::{
    ARP_LEN, ETH_LEN, IP_DEFAULT_TTL, IP_HEADER_VHL, IP_LEN, TCP_LEN, UDP_LEN,
};
use crate::wire::{
    be16, be32, lemma_be16_round_trip, lemma_be32_round_trip, push_u16, push_u32, u16_at, u32_at,
    HeaderView,
};

verus! {

/// Ethernet header: destination, source, EtherType.
#[derive(Clone, Copy, Debug, PartialEq, Eq, Structural)]
pub struct Eth {
    pub dhost: MacAddress,
    pub shost: MacAddress,
    pub rtype: u16,
}

impl Eth {
    /// The 14 octets of the header.
    pub open spec fn bytes(self) -> Seq<u8> {
        self.dhost@ + self.shost@ + be16(self.rtype)
    }

    /// The header held by the first 14 octets of `s`.
    pub open spec fn parse(s: Seq<u8>) -> Eth
        recommends
            s.len() >= ETH_LEN,
    {
        Eth {
            dhost: MacAddress::from_seq(s),
            shost: MacAddress::from_seq(s.skip(6)),
            rtype: u16_at(s, 12),
        }
    }

    /// Reads the header that starts at `off`, if it lies inside the buffer.
    pub fn read(view: &HeaderView, off: usize) -> (r: Option<Eth>)
        ensures
            r == if off + ETH_LEN <= view.buf@.len() {
                Some(Eth::parse(view.buf@.skip(off as int)))
            } else {
                None
            },
    {
        if !view.has(off, ETH_LEN) {
            return None;
        }
        let dhost = MacAddress::read(view.buf, off).unwrap();
        let shost = MacAddress::read(view.buf, off + 6).unwrap();
        let rtype = view.read_u16(off + 12).unwrap();
        proof {
            let s = view.buf@.skip(off as int);
            assert(s.skip(6) =~= view.buf@.skip(off + 6));
        }
        Some(Eth { dhost, shost, rtype })
    }

    /// Appends the header to `out`.
    pub fn append_to(&self, out: &mut Vec<u8>)
        ensures
            final(out)@ == old(out)@ + self.bytes(),
    {
        self.dhost.append_to(out);
        self.shost.append_to(out);
        push_u16(out, self.rtype);
        assert(out@ =~= old(out)@ + self.bytes());
    }

    /// Parsing a header's wire image, whatever follows it, gives the header.
    pub proof fn lemma_parse_bytes(self, rest: Seq<u8>)
        ensures
            self.bytes().len() == ETH_LEN,
            Eth::parse(self.bytes() + rest) == self,
            (self.bytes() + rest).skip(ETH_LEN as int) == rest,
    {
        let s = self.bytes() + rest;
        lemma_be16_round_trip(self.rtype, s, 0);
        assert(s.skip(ETH_LEN as int) =~= rest);
        assert(s[12] == be16(self.rtype)[0]);
        assert(s[13] == be16(self.rtype)[1]);
    }
}

/// ARP message for Ethernet and IPv4.
#[derive(Clone, Copy, Debug, PartialEq, Eq, Structural)]
pub struct Arp {
    pub httype: u16,
    pub pttype: u16,
    pub hlen: u8,
    pub plen: u8,
    pub op: u16,
    pub sha: MacAddress,
    pub spa: IPv4,
    pub tha: MacAddress,
    pub tpa: IPv4,
}

impl Arp {
    /// The 28 octets of the message.
    pub open spec fn bytes(self) -> Seq<u8> {
        be16(self.httype) + be16(self.pttype) + seq![self.hlen, self.plen] + be16(self.op)
            + self.sha@ + self.spa@ + self.tha@ + self.tpa@
    }

    /// The message held by the first 28 octets of `s`.
    pub open spec fn parse(s: Seq<u8>) -> Arp
        recommends
            s.len() >= ARP_LEN,
    {
        Arp {
            httype: u16_at(s, 0),
            pttype: u16_at(s, 2),
            hlen: s[4],
            plen: s[5],
            op: u16_at(s, 6),
            sha: MacAddress::from_seq(s.skip(8)),
            spa: IPv4::from_seq(s.skip(14)),
            tha: MacAddress::from_seq(s.skip(18)),
            tpa: IPv4::from_seq(s.skip(24)),
        }
    }

    /// Reads the message that starts at `off`, if it lies inside the buffer.
    pub fn read(view: &HeaderView, off: usize) -> (r: Option<Arp>)
        ensures
            r == if off + ARP_LEN <= view.buf@.len() {
                Some(Arp::parse(view.buf@.skip(off as int)))
            } else {
                None
            },
    {
        if !view.has(off, ARP_LEN) {
            return None;
        }
        let httype = view.read_u16(off).unwrap();
        let pttype = view.read_u16(off + 2).unwrap();
        let hlen = view.read_u8(off + 4).unwrap();
        let plen = view.read_u8(off + 5).unwrap();
        let op = view.read_u16(off + 6).unwrap();
        let sha = MacAddress::read(view.buf, off + 8).unwrap();
        let spa = IPv4::read(view.buf, off + 14).unwrap();
        let tha = MacAddress::read(view.buf, off + 18).unwrap();
        let tpa = IPv4::read(view.buf, off + 24).unwrap();
        proof {
            let s = view.buf@.skip(off as int);
            assert(s.skip(8) =~= view.buf@.skip(off + 8));
            assert(s.skip(14) =~= view.buf@.skip(off + 14));
            assert(s.skip(18) =~= view.buf@.skip(off + 18));
            assert(s.skip(24) =~= view.buf@.skip(off + 24));
        }
        Some(Arp { httype, pttype, hlen, plen, op, sha, spa, tha, tpa })
    }

    /// Appends the message to `out`.
    pub fn append_to(&self, out: &mut Vec<u8>)
        ensures
            final(out)@ == old(out)@ + self.bytes(),
    {
        push_u16(out, self.httype);
        push_u16(out, self.pttype);
        out.push(self.hlen);
        out.push(self.plen);
        push_u16(out, self.op);
        self.sha.append_to(out);
        self.spa.append_to(out);
        self.tha.append_to(out);
        self.tpa.append_to(out);
        assert(out@ =~= old(out)@ + self.bytes());
    }

    /// Parsing a message's wire image, whatever follows it, gives the message.
    pub proof fn lemma_parse_bytes(self, rest: Seq<u8>)
        ensures
            self.bytes().len() == ARP_LEN,
            Arp::parse(self.bytes() + rest) == self,
            (self.bytes() + rest).skip(ARP_LEN as int) == rest,
    {
        let s = self.bytes() + rest;
        assert(s.skip(ARP_LEN as int) =~= rest);
        lemma_be16_round_trip(self.httype, s, 0);
        lemma_be16_round_trip(self.pttype, s, 0);
        lemma_be16_round_trip(self.op, s, 0);
        assert(s[0] == be16(self.httype)[0] && s[1] == be16(self.httype)[1]);
        assert(s[2] == be16(self.pttype)[0] && s[3] == be16(self.pttype)[1]);
        assert(s[6] == be16(self.op)[0] && s[7] == be16(self.op)[1]);
    }
}

/// IPv4 header without options.
#[derive(Clone, Copy, Debug, PartialEq, Eq, Structural)]
pub struct Ip {
    /// Version in the high nibble, header length in 32-bit words in the low.
    pub vhl: u8,
    pub tos: u8,
    /// Total length: header and everything behind it.
    pub len: u16,
    pub id: u16,
    pub off: u16,
    pub ttl: u8,
    pub pro: u8,
    pub sum: u16,
    pub src: IPv4,
    pub dst: IPv4,
}

impl Ip {
    /// The 20 octets of the header.
    pub open spec fn bytes(self) -> Seq<u8> {
        seq![self.vhl, self.tos] + be16(self.len) + be16(self.id) + be16(self.off) + seq![
            self.ttl,
            self.pro,
        ] + be16(self.sum) + self.src@ + self.dst@
    }

    /// The header held by the first 20 octets of `s`.
    pub open spec fn parse(s: Seq<u8>) -> Ip
        recommends
            s.len() >= IP_LEN,
    {
        Ip {
            vhl: s[0],
            tos: s[1],
            len: u16_at(s, 2),
            id: u16_at(s, 4),
            off: u16_at(s, 6),
            ttl: s[8],
            pro: s[9],
            sum: u16_at(s, 10),
            src: IPv4::from_seq(s.skip(12)),
            dst: IPv4::from_seq(s.skip(16)),
        }
    }

    /// The protocol version the header announces.
    pub open spec fn spec_version(&self) -> u8 {
        self.vhl / 16
    }

    /// The header length the header announces, in octets.
    pub open spec fn spec_header_len(&self) -> usize {
        ((self.vhl % 16) * 4) as usize
    }

    /// The protocol version the header announces.
    #[verifier::when_used_as_spec(spec_version)]
    pub fn version(&self) -> (r: u8)
        ensures
            r == self.spec_version(),
    {
        self.vhl / 16
    }

    /// The header length the header announces, in octets.
    #[verifier::when_used_as_spec(spec_header_len)]
    pub fn header_len(&self) -> (r: usize)
        ensures
            r == self.spec_header_len(),
            r <= 60,
    {
        ((self.vhl % 16) as usize) * 4
    }

    /// The header that this codec puts before `len - 20` octets of protocol
    /// `pro` on their way from `src` to `dst`: no options, no fragmentation,
    /// and the checksum of the header itself.
    pub open spec fn spec_outgoing(src: IPv4, dst: IPv4, pro: u8, len: u16) -> Ip {
        let unsummed = Ip {
            vhl: IP_HEADER_VHL,
            tos: 0,
            len,
            id: 0,
            off: 0,
            ttl: IP_DEFAULT_TTL,
            pro,
            sum: 0,
            src,
            dst,
        };
        Ip { sum: internet_checksum(unsummed.bytes()), ..unsummed }
    }

    /// Builds the header that this codec puts before `len - 20` octets of
    /// protocol `pro` on their way from `src` to `dst`.
    #[verifier::when_used_as_spec(spec_outgoing)]
    pub fn outgoing(src: IPv4, dst: IPv4, pro: u8, len: u16) -> (r: Ip)
        ensures
            r == Ip::spec_outgoing(src, dst, pro, len),
    {
        let mut header = Ip {
            vhl: IP_HEADER_VHL,
            tos: 0,
            len,
            id: 0,
            off: 0,
            ttl: IP_DEFAULT_TTL,
            pro,
            sum: 0,
            src,
            dst,
        };
        let mut image: Vec<u8> = Vec::with_capacity(IP_LEN);
        header.append_to(&mut image);
        assert(image@ =~= header.bytes());
        header.sum = check_sum(image.as_slice());
        header
    }

    /// A receiver that checks the header checksum accepts every header that
    /// this codec writes.
    pub proof fn lemma_outgoing_checksum_verifies(src: IPv4, dst: IPv4, pro: u8, len: u16)
        ensures
            internet_checksum(Ip::spec_outgoing(src, dst, pro, len).bytes()) == 0,
    {
        let summed = Ip::spec_outgoing(src, dst, pro, len);
        let unsummed = Ip { sum: 0, ..summed };
        let image = unsummed.bytes();
        unsummed.lemma_parse_bytes(Seq::empty());
        summed.lemma_parse_bytes(Seq::empty());
        assert(be16(0) =~= seq![0u8, 0u8]);
        assert(image[10] == be16(0)[0] && image[11] == be16(0)[1]);
        lemma_checksum_verifies(image, 10);
        assert(summed.bytes() =~= with_u16_at(image, 10, summed.sum));
    }

    /// Reads the header that starts at `off`, if it lies inside the buffer.
    pub fn read(view: &HeaderView, off: usize) -> (r: Option<Ip>)
        ensures
            r == if off + IP_LEN <= view.buf@.len() {
                Some(Ip::parse(view.buf@.skip(off as int)))
            } else {
                None
            },
    {
        if !view.has(off, IP_LEN) {
            return None;
        }
        let vhl = view.read_u8(off).unwrap();
        let tos = view.read_u8(off + 1).unwrap();
        let len = view.read_u16(off + 2).unwrap();
        let id = view.read_u16(off + 4).unwrap();
        let frag = view.read_u16(off + 6).unwrap();
        let ttl = view.read_u8(off + 8).unwrap();
        let pro = view.read_u8(off + 9).unwrap();
        let sum = view.read_u16(off + 10).unwrap();
        let src = IPv4::read(view.buf, off + 12).unwrap();
        let dst = IPv4::read(view.buf, off + 16).unwrap();
        proof {
            let s = view.buf@.skip(off as int);
            assert(s.skip(12) =~= view.buf@.skip(off + 12));
            assert(s.skip(16) =~= view.buf@.skip(off + 16));
        }
        Some(Ip { vhl, tos, len, id, off: frag, ttl, pro, sum, src, dst })
    }

    /// Appends the header to `out`.
    pub fn append_to(&self, out: &mut Vec<u8>)
        ensures
            final(out)@ == old(out)@ + self.bytes(),
    {
        out.push(self.vhl);
        out.push(self.tos);
        push_u16(out, self.len);
        push_u16(out, self.id);
        push_u16(out, self.off);
        out.push(self.ttl);
        out.push(self.pro);
        push_u16(out, self.sum);
        self.src.append_to(out);
        self.dst.append_to(out);
        assert(out@ =~= old(out)@ + self.bytes());
    }

    /// Parsing a header's wire image, whatever follows it, gives the header.
    pub proof fn lemma_parse_bytes(self, rest: Seq<u8>)
        ensures
            self.bytes().len() == IP_LEN,
            Ip::parse(self.bytes() + rest) == self,
            (self.bytes() + rest).skip(IP_LEN as int) == rest,
    {
        let s = self.bytes() + rest;
        assert(s.skip(IP_LEN as int) =~= rest);
        lemma_be16_round_trip(self.len, s, 0);
        lemma_be16_round_trip(self.id, s, 0);
        lemma_be16_round_trip(self.off, s, 0);
        lemma_be16_round_trip(self.sum, s, 0);
        assert(s[2] == be16(self.len)[0] && s[3] == be16(self.len)[1]);
        assert(s[4] == be16(self.id)[0] && s[5] == be16(self.id)[1]);
        assert(s[6] == be16(self.off)[0] && s[7] == be16(self.off)[1]);
        assert(s[10] == be16(self.sum)[0] && s[11] == be16(self.sum)[1]);
    }
}

/// UDP header.
#[derive(Clone, Copy, Debug, PartialEq, Eq, Structural)]
pub struct UDP {
    pub sport: u16,
    pub dport: u16,
    /// Length of header and payload together.
    pub ulen: u16,
    pub sum: u16,
}

impl UDP {
    /// The 8 octets of the header.
    pub open spec fn bytes(self) -> Seq<u8> {
        be16(self.sport) + be16(self.dport) + be16(self.ulen) + be16(self.sum)
    }

    /// The header held by the first 8 octets of `s`.
    pub open spec fn parse(s: Seq<u8>) -> UDP
        recommends
            s.len() >= UDP_LEN,
    {
        UDP { sport: u16_at(s, 0), dport: u16_at(s, 2), ulen: u16_at(s, 4), sum: u16_at(s, 6) }
    }

    /// Reads the header that starts at `off`, if it lies inside the buffer.
    pub fn read(view: &HeaderView, off: usize) -> (r: Option<UDP>)
        ensures
            r == if off + UDP_LEN <= view.buf@.len() {
                Some(UDP::parse(view.buf@.skip(off as int)))
            } else {
                None
            },
    {
        if !view.has(off, UDP_LEN) {
            return None;
        }
        let sport = view.read_u16(off).unwrap();
        let dport = view.read_u16(off + 2).unwrap();
        let ulen = view.read_u16(off + 4).unwrap();
        let sum = view.read_u16(off + 6).unwrap();
        Some(UDP { sport, dport, ulen, sum })
    }

    /// Appends the header to `out`.
    pub fn append_to(&self, out: &mut Vec<u8>)
        ensures
            final(out)@ == old(out)@ + self.bytes(),
    {
        push_u16(out, self.sport);
        push_u16(out, self.dport);
        push_u16(out, self.ulen);
        push_u16(out, self.sum);
        assert(out@ =~= old(out)@ + self.bytes());
    }

    /// Parsing a header's wire image, whatever follows it, gives the header.
    pub proof fn lemma_parse_bytes(self, rest: Seq<u8>)
        ensures
            self.bytes().len() == UDP_LEN,
            UDP::parse(self.bytes() + rest) == self,
            (self.bytes() + rest).skip(UDP_LEN as int) == rest,
    {
        let s = self.bytes() + rest;
        assert(s.skip(UDP_LEN as int) =~= rest);
        lemma_be16_round_trip(self.sport, s, 0);
        lemma_be16_round_trip(self.dport, s, 0);
        lemma_be16_round_trip(self.ulen, s, 0);
        lemma_be16_round_trip(self.sum, s, 0);
        assert(s[0] == be16(self.sport)[0] && s[1] == be16(self.sport)[1]);
        assert(s[2] == be16(self.dport)[0] && s[3] == be16(self.dport)[1]);
        assert(s[4] == be16(self.ulen)[0] && s[5] == be16(self.ulen)[1]);
        assert(s[6] == be16(self.sum)[0] && s[7] == be16(self.sum)[1]);
    }
}

/// TCP header without options.
#[derive(Clone, Copy, Debug, PartialEq, Eq, Structural)]
pub struct TCP {
    pub sport: u16,
    pub dport: u16,
    pub seq: u32,
    pub ack: u32,
    /// Header length in 32-bit words in the high nibble; the low is reserved.
    pub offset: u8,
    pub flags: u8,
    pub win: u16,
    pub sum: u16,
    pub urg: u16,
}

impl TCP {
    /// The 20 octets of the header.
    pub open spec fn bytes(self) -> Seq<u8> {
        be16(self.sport) + be16(self.dport) + be32(self.seq) + be32(self.ack) + seq![
            self.offset,
            self.flags,
        ] + be16(self.win) + be16(self.sum) + be16(self.urg)
    }

    /// The header held by the first 20 octets of `s`.
    pub open spec fn parse(s: Seq<u8>) -> TCP
        recommends
            s.len() >= TCP_LEN,
    {
        TCP {
            sport: u16_at(s, 0),
            dport: u16_at(s, 2),
            seq: u32_at(s, 4),
            ack: u32_at(s, 8),
            offset: s[12],
            flags: s[13],
            win: u16_at(s, 14),
            sum: u16_at(s, 16),
            urg: u16_at(s, 18),
        }
    }

    /// The header length the header announces, in octets.
    pub open spec fn spec_header_len(&self) -> usize {
        ((self.offset / 16) * 4) as usize
    }

    /// The header length the header announces, in octets.
    #[verifier::when_used_as_spec(spec_header_len)]
    pub fn header_len(&self) -> (r: usize)
        ensures
            r == self.spec_header_len(),
            r <= 60,
    {
        ((self.offset / 16) as usize) * 4
    }

    /// Reads the header that starts at `off`, if it lies inside the buffer.
    pub fn read(view: &HeaderView, off: usize) -> (r: Option<TCP>)
        ensures
            r == if off + TCP_LEN <= view.buf@.len() {
                Some(TCP::parse(view.buf@.skip(off as int)))
            } else {
                None
            },
    {
        if !view.has(off, TCP_LEN) {
            return None;
        }
        let sport = view.read_u16(off).unwrap();
        let dport = view.read_u16(off + 2).unwrap();
        let seq = view.read_u32(off + 4).unwrap();
        let ack = view.read_u32(off + 8).unwrap();
        let offset = view.read_u8(off + 12).unwrap();
        let flags = view.read_u8(off + 13).unwrap();
        let win = view.read_u16(off + 14).unwrap();
        let sum = view.read_u16(off + 16).unwrap();
        let urg = view.read_u16(off + 18).unwrap();
        Some(TCP { sport, dport, seq, ack, offset, flags, win, sum, urg })
    }

    /// Appends the header to `out`.
    pub fn append_to(&self, out: &mut Vec<u8>)
        ensures
            final(out)@ == old(out)@ + self.bytes(),
    {
        push_u16(out, self.sport);
        push_u16(out, self.dport);
        push_u32(out, self.seq);
        push_u32(out, self.ack);
        out.push(self.offset);
        out.push(self.flags);
        push_u16(out, self.win);
        push_u16(out, self.sum);
        push_u16(out, self.urg);
        assert(out@ =~= old(out)@ + self.bytes());
    }

    /// Parsing a header's wire image, whatever follows it, gives the header.
    pub proof fn lemma_parse_bytes(self, rest: Seq<u8>)
        ensures
            self.bytes().len() == TCP_LEN,
            TCP::parse(self.bytes() + rest) == self,
            (self.bytes() + rest).skip(TCP_LEN as int) == rest,
    {
        let s = self.bytes() + rest;
        assert(s.skip(TCP_LEN as int) =~= rest);
        lemma_be16_round_trip(self.sport, s, 0);
        lemma_be16_round_trip(self.dport, s, 0);
        lemma_be32_round_trip(self.seq, s, 0);
        lemma_be32_round_trip(self.ack, s, 0);
        lemma_be16_round_trip(self.win, s, 0);
        lemma_be16_round_trip(self.sum, s, 0);
        lemma_be16_round_trip(self.urg, s, 0);
        assert(s[0] == be16(self.sport)[0] && s[1] == be16(self.sport)[1]);
        assert(s[2] == be16(self.dport)[0] && s[3] == be16(self.dport)[1]);
        assert(s[4] == be32(self.seq)[0] && s[5] == be32(self.seq)[1] && s[6] == be32(
            self.seq,
        )[2] && s[7] == be32(self.seq)[3]);
        assert(s[8] == be32(self.ack)[0] && s[9] == be32(self.ack)[1] && s[10] == be32(
            self.ack,
        )[2] && s[11] == be32(self.ack)[3]);
        assert(s[14] == be16(self.win)[0] && s[15] == be16(self.win)[1]);
        assert(s[16] == be16(self.sum)[0] && s[17] == be16(self.sum)[1]);
        assert(s[18] == be16(self.urg)[0] && s[19] == be16(self.urg)[1]);
    }
}

} // verus!
