//! Hardware and protocol addresses.
use vstd::prelude::*;
use crate::consts::BROADCAST_MAC;
use crate::wire::{be32, u32_at};

verus! {

/// A 48-bit Ethernet hardware address, one field per octet in wire order.
#[derive(Clone, Copy, Debug, PartialEq, Eq, Hash, Structural)]
pub struct MacAddress {
    pub b0: u8,
    pub b1: u8,
    pub b2: u8,
    pub b3: u8,
    pub b4: u8,
    pub b5: u8,
}

impl View for MacAddress {
    type V = Seq<u8>;

    /// The six octets in wire order.
    open spec fn view(&self) -> Seq<u8> {
        seq![self.b0, self.b1, self.b2, self.b3, self.b4, self.b5]
    }
}

impl MacAddress {
    /// The address whose wire image is the first six bytes of `s`.
    pub open spec fn from_seq(s: Seq<u8>) -> MacAddress
        recommends
            s.len() >= 6,
    {
        MacAddress { b0: s[0], b1: s[1], b2: s[2], b3: s[3], b4: s[4], b5: s[5] }
    }

    /// The address every station on a segment listens to.
    pub open spec fn spec_broadcast() -> MacAddress {
        MacAddress { b0: 0xff, b1: 0xff, b2: 0xff, b3: 0xff, b4: 0xff, b5: 0xff }
    }

    /// The address with the six octets `bytes`, in wire order.
    pub fn new(bytes: [u8; 6]) -> (r: MacAddress)
        ensures
            r == MacAddress::from_seq(bytes@),
            r@ == bytes@,
    {
        let r = MacAddress {
            b0: bytes[0],
            b1: bytes[1],
            b2: bytes[2],
            b3: bytes[3],
            b4: bytes[4],
            b5: bytes[5],
        };
        assert(r@ =~= bytes@);
        r
    }

    /// The address with the six octets `bytes`, in wire order.
    pub fn from_bytes(bytes: [u8; 6]) -> (r: MacAddress)
        ensures
            r == MacAddress::from_seq(bytes@),
            r@ == bytes@,
    {
        MacAddress::new(bytes)
    }

    /// The six octets of the address, in wire order.
    pub fn to_bytes(&self) -> (r: [u8; 6])
        ensures
            r@ == self@,
    {
        let r = [self.b0, self.b1, self.b2, self.b3, self.b4, self.b5];
        assert(r@ =~= self@);
        r
    }

    /// The address every station on a segment listens to: all octets `0xFF`.
    #[verifier::when_used_as_spec(spec_broadcast)]
    pub fn broadcast() -> (r: MacAddress)
        ensures
            r == MacAddress::spec_broadcast(),
            r@ == BROADCAST_MAC@,
    {
        MacAddress::new(BROADCAST_MAC)
    }

    /// Whether this is the broadcast address.
    pub fn is_broadcast(&self) -> (r: bool)
        ensures
            r == (*self == MacAddress::spec_broadcast()),
    {
        self.b0 == 0xff && self.b1 == 0xff && self.b2 == 0xff && self.b3 == 0xff && self.b4
            == 0xff && self.b5 == 0xff
    }

    /// Reads the address that starts at `off`, if six bytes are there.
    pub fn read(buf: &[u8], off: usize) -> (r: Option<MacAddress>)
        ensures
            r.is_some() <==> off + 6 <= buf@.len(),
            r.is_some() ==> r.unwrap() == MacAddress::from_seq(buf@.skip(off as int)),
    {
        if buf.len() < 6 || off > buf.len() - 6 {
            return None;
        }
        Some(
            MacAddress {
                b0: buf[off],
                b1: buf[off + 1],
                b2: buf[off + 2],
                b3: buf[off + 3],
                b4: buf[off + 4],
                b5: buf[off + 5],
            },
        )
    }

    /// Appends the six octets to `out`.
    pub fn append_to(&self, out: &mut Vec<u8>)
        ensures
            final(out)@ == old(out)@ + self@,
    {
        out.push(self.b0);
        out.push(self.b1);
        out.push(self.b2);
        out.push(self.b3);
        out.push(self.b4);
        out.push(self.b5);
        assert(out@ =~= old(out)@ + self@);
    }

    /// Decoding the wire image of an address gives the address back.
    pub proof fn lemma_from_seq_view(self)
        ensures
            self@.len() == 6,
            MacAddress::from_seq(self@) == self,
    {
    }

    /// Two addresses with the same wire image are the same address.
    pub proof fn lemma_view_injective(self, other: MacAddress)
        requires
            self@ == other@,
        ensures
            self == other,
    {
        assert(self@[0] == other@[0]);
        assert(self@[1] == other@[1]);
        assert(self@[2] == other@[2]);
        assert(self@[3] == other@[3]);
        assert(self@[4] == other@[4]);
        assert(self@[5] == other@[5]);
    }
}

/// An IPv4 address, one field per octet in wire order: `a.b.c.d`.
#[derive(Clone, Copy, Debug, PartialEq, Eq, Hash, Structural)]
pub struct IPv4 {
    pub a: u8,
    pub b: u8,
    pub c: u8,
    pub d: u8,
}

impl View for IPv4 {
    type V = Seq<u8>;

    /// The four octets in wire order.
    open spec fn view(&self) -> Seq<u8> {
        seq![self.a, self.b, self.c, self.d]
    }
}

impl IPv4 {
    /// The address whose wire image is the first four bytes of `s`.
    pub open spec fn from_seq(s: Seq<u8>) -> IPv4
        recommends
            s.len() >= 4,
    {
        IPv4 { a: s[0], b: s[1], c: s[2], d: s[3] }
    }

    /// The address as a number, first octet most significant.
    pub open spec fn spec_to_u32(&self) -> u32 {
        (self.a * 0x100_0000 + self.b * 0x1_0000 + self.c * 0x100 + self.d) as u32
    }

    /// The address whose number is `ip`.
    pub open spec fn spec_from_u32(ip: u32) -> IPv4 {
        IPv4 {
            a: (ip / 0x100_0000) as u8,
            b: ((ip / 0x1_0000) % 0x100) as u8,
            c: ((ip / 0x100) % 0x100) as u8,
            d: (ip % 0x100) as u8,
        }
    }

    /// The address `a.b.c.d`.
    pub fn new(a: u8, b: u8, c: u8, d: u8) -> (r: IPv4)
        ensures
            r == (IPv4 { a, b, c, d }),
    {
        IPv4 { a, b, c, d }
    }

    /// The address whose number is `ip`, first octet most significant.
    #[verifier::when_used_as_spec(spec_from_u32)]
    pub fn from_u32(ip: u32) -> (r: IPv4)
        ensures
            r == IPv4::spec_from_u32(ip),
    {
        IPv4 {
            a: (ip / 0x100_0000) as u8,
            b: ((ip / 0x1_0000) % 0x100) as u8,
            c: ((ip / 0x100) % 0x100) as u8,
            d: (ip % 0x100) as u8,
        }
    }

    /// The address as a number, first octet most significant.
    #[verifier::when_used_as_spec(spec_to_u32)]
    pub fn to_u32(&self) -> (r: u32)
        ensures
            r == self.spec_to_u32(),
            r == self.a * 0x100_0000 + self.b * 0x1_0000 + self.c * 0x100 + self.d,
    {
        (self.a as u32) * 0x100_0000 + (self.b as u32) * 0x1_0000 + (self.c as u32) * 0x100 + (
        self.d as u32)
    }

    /// The address with the four octets `bytes`, in wire order.
    pub fn from_bytes(bytes: [u8; 4]) -> (r: IPv4)
        ensures
            r == IPv4::from_seq(bytes@),
            r@ == bytes@,
    {
        let r = IPv4 { a: bytes[0], b: bytes[1], c: bytes[2], d: bytes[3] };
        assert(r@ =~= bytes@);
        r
    }

    /// The four octets of the address, in wire order.
    pub fn to_bytes(&self) -> (r: [u8; 4])
        ensures
            r@ == self@,
    {
        let r = [self.a, self.b, self.c, self.d];
        assert(r@ =~= self@);
        r
    }

    /// Reads the address that starts at `off`, if four bytes are there.
    pub fn read(buf: &[u8], off: usize) -> (r: Option<IPv4>)
        ensures
            r.is_some() <==> off + 4 <= buf@.len(),
            r.is_some() ==> r.unwrap() == IPv4::from_seq(buf@.skip(off as int)),
    {
        if buf.len() < 4 || off > buf.len() - 4 {
            return None;
        }
        Some(IPv4 { a: buf[off], b: buf[off + 1], c: buf[off + 2], d: buf[off + 3] })
    }

    /// Appends the four octets to `out`.
    pub fn append_to(&self, out: &mut Vec<u8>)
        ensures
            final(out)@ == old(out)@ + self@,
    {
        out.push(self.a);
        out.push(self.b);
        out.push(self.c);
        out.push(self.d);
        assert(out@ =~= old(out)@ + self@);
    }

    /// Decoding the wire image of an address gives the address back.
    pub proof fn lemma_from_seq_view(self)
        ensures
            self@.len() == 4,
            IPv4::from_seq(self@) == self,
    {
    }

    /// The number of an address is its wire image read in network byte
    /// order, and the wire image is the number written in that order.
    pub proof fn lemma_u32_is_big_endian(self)
        ensures
            self.spec_to_u32() == u32_at(self@, 0),
            be32(self.spec_to_u32()) == self@,
    {
        self.lemma_u32_round_trip(0);
        assert(be32(self.spec_to_u32()) =~= self@);
    }

    /// Converting to a number and back changes nothing, in either direction.
    pub proof fn lemma_u32_round_trip(self, ip: u32)
        ensures
            IPv4::spec_from_u32(self.spec_to_u32()) == self,
            IPv4::spec_from_u32(ip).spec_to_u32() == ip,
    {
        let (a, b, c, d) = (self.a, self.b, self.c, self.d);
        let n: u32 = self.spec_to_u32();
        assert(n == a * 0x100_0000 + b * 0x1_0000 + c * 0x100 + d);
        assert(n / 0x100_0000 == a && (n / 0x1_0000) % 0x100 == b && (n / 0x100) % 0x100 == c && n
            % 0x100 == d) by (bit_vector)
            requires
                n == a * 0x100_0000 + b * 0x1_0000 + c * 0x100 + d,
        ;
        assert((ip / 0x100_0000) * 0x100_0000 + ((ip / 0x1_0000) % 0x100) * 0x1_0000 + ((ip
            / 0x100) % 0x100) * 0x100 + ip % 0x100 == ip && ip / 0x100_0000 < 0x100)
            by (bit_vector);
    }
}

} // verus!
