//! The control bits of a TCP segment as a set.
use vstd::prelude::*;

verus! {

/// Bit of FIN: the sender has finished sending.
pub const TCP_FIN: u8 = 0x01;

/// Bit of SYN: synchronise sequence numbers.
pub const TCP_SYN: u8 = 0x02;

/// Bit of RST: reset the connection.
pub const TCP_RST: u8 = 0x04;

/// Bit of PSH: push buffered data to the application.
pub const TCP_PSH: u8 = 0x08;

/// Bit of ACK: the acknowledgement number is significant.
pub const TCP_ACK: u8 = 0x10;

/// Bit of URG: the urgent pointer is significant.
pub const TCP_URG: u8 = 0x20;

/// A set of TCP control bits. Several may be set on one segment, so sets are
/// composed with `|` and tested with `contains`, never compared bit by bit
/// by hand.
#[derive(Clone, Copy, Debug, PartialEq, Eq, Hash, Structural)]
pub struct TcpFlags {
    pub bits: u8,
}

impl TcpFlags {
    /// Whether every bit of `other` is set in `self`.
    pub open spec fn spec_contains(&self, other: TcpFlags) -> bool {
        self.bits & other.bits == other.bits
    }

    /// The set holding the bits of both.
    pub open spec fn spec_union(&self, other: TcpFlags) -> TcpFlags {
        TcpFlags { bits: self.bits | other.bits }
    }

    /// The set holding the bits of `self` that `other` lacks.
    pub open spec fn spec_difference(&self, other: TcpFlags) -> TcpFlags {
        TcpFlags { bits: self.bits & !other.bits }
    }

    /// The set with no bit.
    pub open spec fn spec_empty() -> TcpFlags {
        TcpFlags { bits: 0 }
    }

    /// FIN alone.
    pub open spec fn spec_fin() -> TcpFlags {
        TcpFlags { bits: TCP_FIN }
    }

    /// SYN alone.
    pub open spec fn spec_syn() -> TcpFlags {
        TcpFlags { bits: TCP_SYN }
    }

    /// RST alone.
    pub open spec fn spec_rst() -> TcpFlags {
        TcpFlags { bits: TCP_RST }
    }

    /// PSH alone.
    pub open spec fn spec_psh() -> TcpFlags {
        TcpFlags { bits: TCP_PSH }
    }

    /// ACK alone.
    pub open spec fn spec_ack() -> TcpFlags {
        TcpFlags { bits: TCP_ACK }
    }

    /// URG alone.
    pub open spec fn spec_urg() -> TcpFlags {
        TcpFlags { bits: TCP_URG }
    }

    /// The set with no bit.
    #[verifier::when_used_as_spec(spec_empty)]
    pub fn empty() -> (r: TcpFlags)
        ensures
            r == TcpFlags::spec_empty(),
    {
        TcpFlags { bits: 0 }
    }

    /// FIN alone.
    #[verifier::when_used_as_spec(spec_fin)]
    pub fn fin() -> (r: TcpFlags)
        ensures
            r == TcpFlags::spec_fin(),
    {
        TcpFlags { bits: TCP_FIN }
    }

    /// SYN alone.
    #[verifier::when_used_as_spec(spec_syn)]
    pub fn syn() -> (r: TcpFlags)
        ensures
            r == TcpFlags::spec_syn(),
    {
        TcpFlags { bits: TCP_SYN }
    }

    /// RST alone.
    #[verifier::when_used_as_spec(spec_rst)]
    pub fn rst() -> (r: TcpFlags)
        ensures
            r == TcpFlags::spec_rst(),
    {
        TcpFlags { bits: TCP_RST }
    }

    /// PSH alone.
    #[verifier::when_used_as_spec(spec_psh)]
    pub fn psh() -> (r: TcpFlags)
        ensures
            r == TcpFlags::spec_psh(),
    {
        TcpFlags { bits: TCP_PSH }
    }

    /// ACK alone.
    #[verifier::when_used_as_spec(spec_ack)]
    pub fn ack() -> (r: TcpFlags)
        ensures
            r == TcpFlags::spec_ack(),
    {
        TcpFlags { bits: TCP_ACK }
    }

    /// URG alone.
    #[verifier::when_used_as_spec(spec_urg)]
    pub fn urg() -> (r: TcpFlags)
        ensures
            r == TcpFlags::spec_urg(),
    {
        TcpFlags { bits: TCP_URG }
    }

    /// The set whose bits are those of the flags octet `bits`.
    pub fn from_bits(bits: u8) -> (r: TcpFlags)
        ensures
            r.bits == bits,
    {
        TcpFlags { bits }
    }

    /// The flags octet.
    pub fn bits(&self) -> (r: u8)
        ensures
            r == self.bits,
    {
        self.bits
    }

    /// Whether no bit is set.
    pub fn is_empty(&self) -> (r: bool)
        ensures
            r == (*self == TcpFlags::spec_empty()),
    {
        self.bits == 0
    }

    /// Whether every bit of `other` is set in `self`.
    #[verifier::when_used_as_spec(spec_contains)]
    pub fn contains(&self, other: TcpFlags) -> (r: bool)
        ensures
            r == self.spec_contains(other),
    {
        self.bits & other.bits == other.bits
    }

    /// The set holding the bits of both.
    #[verifier::when_used_as_spec(spec_union)]
    pub fn union(&self, other: TcpFlags) -> (r: TcpFlags)
        ensures
            r == self.spec_union(other),
    {
        TcpFlags { bits: self.bits | other.bits }
    }

    /// The set holding the bits of `self` that `other` lacks.
    #[verifier::when_used_as_spec(spec_difference)]
    pub fn difference(&self, other: TcpFlags) -> (r: TcpFlags)
        ensures
            r == self.spec_difference(other),
    {
        TcpFlags { bits: self.bits & !other.bits }
    }

    /// Sets the bits of `other`.
    pub fn insert(&mut self, other: TcpFlags)
        ensures
            *final(self) == old(self).spec_union(other),
    {
        self.bits = self.bits | other.bits;
    }

    /// Clears the bits of `other`.
    pub fn remove(&mut self, other: TcpFlags)
        ensures
            *final(self) == old(self).spec_difference(other),
    {
        self.bits = self.bits & !other.bits;
    }

    /// A union contains both of its operands, and whatever either contains.
    pub proof fn lemma_union_contains(self, other: TcpFlags, part: TcpFlags)
        ensures
            self.spec_union(other).spec_contains(self),
            self.spec_union(other).spec_contains(other),
            self.spec_contains(part) || other.spec_contains(part) ==> self.spec_union(
                other,
            ).spec_contains(part),
            self.spec_union(other) == other.spec_union(self),
    {
        let (a, b, c) = (self.bits, other.bits, part.bits);
        assert((a | b) & a == a && (a | b) & b == b && (a | b) == (b | a)) by (bit_vector);
        assert((a & c == c || b & c == c) ==> (a | b) & c == c) by (bit_vector);
    }

    /// `contains` is the subset order: reflexive, transitive, antisymmetric,
    /// with the empty set below everything.
    pub proof fn lemma_contains_order(self, other: TcpFlags, third: TcpFlags)
        ensures
            self.spec_contains(self),
            self.spec_contains(TcpFlags::spec_empty()),
            self.spec_contains(other) && other.spec_contains(third) ==> self.spec_contains(third),
            self.spec_contains(other) && other.spec_contains(self) ==> self == other,
    {
        let (a, b, c) = (self.bits, other.bits, third.bits);
        assert(a & a == a && a & 0 == 0) by (bit_vector);
        assert((a & b == b && b & c == c) ==> a & c == c) by (bit_vector);
        assert((a & b == b && b & a == a) ==> a == b) by (bit_vector);
    }

    /// A difference holds nothing of what was taken away, and a set that
    /// shares no bit with it is untouched.
    pub proof fn lemma_difference(self, other: TcpFlags)
        ensures
            self.spec_contains(self.spec_difference(other)),
            self.spec_difference(other).spec_union(other) == self.spec_union(other),
            self.bits & other.bits == 0 ==> self.spec_difference(other) == self,
    {
        let (a, b) = (self.bits, other.bits);
        assert(a & (a & !b) == (a & !b) && ((a & !b) | b) == (a | b)) by (bit_vector);
        assert(a & b == 0 ==> a & !b == a) by (bit_vector);
    }

    /// The six named flags are six different bits: none contains another.
    pub proof fn lemma_named_flags_distinct()
        ensures
            !TcpFlags::spec_syn().spec_contains(TcpFlags::spec_ack()),
            !TcpFlags::spec_ack().spec_contains(TcpFlags::spec_syn()),
            !TcpFlags::spec_ack().spec_contains(TcpFlags::spec_fin()),
            !TcpFlags::spec_fin().spec_contains(TcpFlags::spec_ack()),
            !TcpFlags::spec_syn().spec_contains(TcpFlags::spec_fin()),
            !TcpFlags::spec_fin().spec_contains(TcpFlags::spec_syn()),
            TcpFlags::spec_fin().bits & TcpFlags::spec_syn().bits == 0,
            TcpFlags::spec_fin().bits & TcpFlags::spec_ack().bits == 0,
            TcpFlags::spec_syn().bits & TcpFlags::spec_ack().bits == 0,
            (TCP_FIN | TCP_SYN | TCP_RST | TCP_PSH | TCP_ACK | TCP_URG) == 0x3f,
    {
        assert(0x02u8 & 0x10u8 == 0 && 0x10u8 & 0x02u8 == 0 && 0x10u8 & 0x01u8 == 0 && 0x01u8
            & 0x10u8 == 0 && 0x02u8 & 0x01u8 == 0 && 0x01u8 & 0x02u8 == 0 && (0x01u8 | 0x02u8
            | 0x04u8 | 0x08u8 | 0x10u8 | 0x20u8) == 0x3fu8) by (bit_vector);
    }
}

impl core::ops::BitOr for TcpFlags {
    type Output = TcpFlags;

    fn bitor(self, rhs: TcpFlags) -> (r: TcpFlags) {
        TcpFlags { bits: self.bits | rhs.bits }
    }
}

impl vstd::std_specs::ops::BitOrSpecImpl for TcpFlags {
    open spec fn obeys_bitor_spec() -> bool {
        true
    }

    open spec fn bitor_req(self, rhs: TcpFlags) -> bool {
        true
    }

    open spec fn bitor_spec(self, rhs: TcpFlags) -> TcpFlags {
        self.spec_union(rhs)
    }
}

impl core::ops::BitOrAssign for TcpFlags {
    fn bitor_assign(&mut self, rhs: TcpFlags)
        ensures
            *final(self) == old(self).spec_union(rhs),
    {
        self.bits = self.bits | rhs.bits;
    }
}

} // verus!
