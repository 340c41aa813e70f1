//! Bounds-checked access to multi-byte fields in network byte order.
//!
//! Every number that crosses into or out of a frame goes through this module,
//! so byte order is decided in one place: the most significant octet comes
//! first.
use vstd::prelude::*;

verus! {

/// The two octets of `v`, most significant first.
pub open spec fn be16(v: u16) -> Seq<u8> {
    seq![(v / 0x100) as u8, (v % 0x100) as u8]
}

/// The four octets of `v`, most significant first.
pub open spec fn be32(v: u32) -> Seq<u8> {
    seq![
        (v / 0x100_0000) as u8,
        ((v / 0x1_0000) % 0x100) as u8,
        ((v / 0x100) % 0x100) as u8,
        (v % 0x100) as u8,
    ]
}

/// The number held in network byte order by the two octets of `s` at `off`.
pub open spec fn u16_at(s: Seq<u8>, off: int) -> u16
    recommends
        0 <= off,
        off + 2 <= s.len(),
{
    (s[off] * 0x100 + s[off + 1]) as u16
}

/// The number held in network byte order by the four octets of `s` at `off`.
pub open spec fn u32_at(s: Seq<u8>, off: int) -> u32
    recommends
        0 <= off,
        off + 4 <= s.len(),
{
    (s[off] * 0x100_0000 + s[off + 1] * 0x1_0000 + s[off + 2] * 0x100 + s[off + 3]) as u32
}

/// Reading back what `be16` wrote gives the number, and writing what was
/// read gives the octets.
pub proof fn lemma_be16_round_trip(v: u16, s: Seq<u8>, off: int)
    requires
        0 <= off,
        off + 2 <= s.len(),
    ensures
        be16(v).len() == 2,
        u16_at(be16(v), 0) == v,
        be16(u16_at(s, off)) == s.subrange(off, off + 2),
{
    assert((v / 0x100) * 0x100 + v % 0x100 == v && v / 0x100 < 0x100) by (bit_vector);
    let (h, l) = (s[off], s[off + 1]);
    let n: u16 = u16_at(s, off);
    assert(n == h * 0x100 + l);
    assert(n / 0x100 == h && n % 0x100 == l) by (bit_vector)
        requires
            n == h * 0x100 + l,
    ;
    assert(be16(n) =~= s.subrange(off, off + 2));
}

/// Reading back what `be32` wrote gives the number, and writing what was
/// read gives the octets.
pub proof fn lemma_be32_round_trip(v: u32, s: Seq<u8>, off: int)
    requires
        0 <= off,
        off + 4 <= s.len(),
    ensures
        be32(v).len() == 4,
        u32_at(be32(v), 0) == v,
        be32(u32_at(s, off)) == s.subrange(off, off + 4),
{
    assert((v / 0x100_0000) * 0x100_0000 + ((v / 0x1_0000) % 0x100) * 0x1_0000 + ((v / 0x100)
        % 0x100) * 0x100 + v % 0x100 == v && v / 0x100_0000 < 0x100) by (bit_vector);
    let (a, b, c, d) = (s[off], s[off + 1], s[off + 2], s[off + 3]);
    let n: u32 = u32_at(s, off);
    assert(n == a * 0x100_0000 + b * 0x1_0000 + c * 0x100 + d);
    assert(n / 0x100_0000 == a && (n / 0x1_0000) % 0x100 == b && (n / 0x100) % 0x100 == c && n
        % 0x100 == d) by (bit_vector)
        requires
            n == a * 0x100_0000 + b * 0x1_0000 + c * 0x100 + d,
    ;
    assert(be32(n) =~= s.subrange(off, off + 4));
}

/// A read-only window on a received buffer. Every reader checks its bounds
/// and answers `None` where the field does not lie inside the buffer.
#[derive(Clone, Copy, Debug)]
pub struct HeaderView<'a> {
    pub buf: &'a [u8],
}

impl<'a> HeaderView<'a> {
    /// A window on `buf`.
    pub fn new(buf: &'a [u8]) -> (r: HeaderView<'a>)
        ensures
            r.buf@ == buf@,
    {
        HeaderView { buf }
    }

    /// The length of the buffer.
    pub fn len(&self) -> (r: usize)
        ensures
            r == self.buf@.len(),
    {
        self.buf.len()
    }

    /// Whether `n` bytes lie in the buffer from `off` on.
    pub fn has(&self, off: usize, n: usize) -> (r: bool)
        ensures
            r == (off + n <= self.buf@.len()),
            self.buf@.len() <= usize::MAX,
    {
        n <= self.buf.len() && off <= self.buf.len() - n
    }

    /// The octet at `off`.
    pub fn read_u8(&self, off: usize) -> (r: Option<u8>)
        ensures
            r == if off < self.buf@.len() {
                Some(self.buf@[off as int])
            } else {
                None
            },
    {
        if off < self.buf.len() {
            Some(self.buf[off])
        } else {
            None
        }
    }

    /// The number held in network byte order by the two octets at `off`.
    pub fn read_u16(&self, off: usize) -> (r: Option<u16>)
        ensures
            r == if off + 2 <= self.buf@.len() {
                Some(u16_at(self.buf@, off as int))
            } else {
                None
            },
    {
        if self.has(off, 2) {
            Some((self.buf[off] as u16) * 0x100 + (self.buf[off + 1] as u16))
        } else {
            None
        }
    }

    /// The number held in network byte order by the four octets at `off`.
    pub fn read_u32(&self, off: usize) -> (r: Option<u32>)
        ensures
            r == if off + 4 <= self.buf@.len() {
                Some(u32_at(self.buf@, off as int))
            } else {
                None
            },
    {
        if self.has(off, 4) {
            Some(
                (self.buf[off] as u32) * 0x100_0000 + (self.buf[off + 1] as u32) * 0x1_0000 + (
                self.buf[off + 2] as u32) * 0x100 + (self.buf[off + 3] as u32),
            )
        } else {
            None
        }
    }

    /// The bytes from `off` to the end of the buffer, without copying.
    pub fn rest(&self, off: usize) -> (r: Option<&'a [u8]>)
        ensures
            r.is_some() <==> off <= self.buf@.len(),
            r.is_some() ==> r.unwrap()@ == self.buf@.skip(off as int),
    {
        if off <= self.buf.len() {
            let r = vstd::slice::slice_subrange(self.buf, off, self.buf.len());
            assert(r@ =~= self.buf@.skip(off as int));
            Some(r)
        } else {
            None
        }
    }
}

/// Appends `v` in network byte order.
pub fn push_u16(out: &mut Vec<u8>, v: u16)
    ensures
        final(out)@ == old(out)@ + be16(v),
{
    out.push((v / 0x100) as u8);
    out.push((v % 0x100) as u8);
    assert(out@ =~= old(out)@ + be16(v));
}

/// Appends `v` in network byte order.
pub fn push_u32(out: &mut Vec<u8>, v: u32)
    ensures
        final(out)@ == old(out)@ + be32(v),
{
    out.push((v / 0x100_0000) as u8);
    out.push(((v / 0x1_0000) % 0x100) as u8);
    out.push(((v / 0x100) % 0x100) as u8);
    out.push((v % 0x100) as u8);
    assert(out@ =~= old(out)@ + be32(v));
}

/// Appends the bytes of `data`.
pub fn push_bytes(out: &mut Vec<u8>, data: &[u8])
    ensures
        final(out)@ == old(out)@ + data@,
{
    let mut i: usize = 0;
    while i < data.len()
        invariant
            i <= data@.len(),
            out@ == old(out)@ + data@.take(i as int),
        decreases data@.len() - i,
    {
        out.push(data[i]);
        i = i + 1;
        assert(out@ =~= old(out)@ + data@.take(i as int));
    }
    assert(data@.take(i as int) =~= data@);
}

/// Overwrites the two octets at `off` with `v` in network byte order.
/// Where they do not lie inside `buf`, nothing is written and the answer is
/// `false`.
pub fn write_u16(buf: &mut Vec<u8>, off: usize, v: u16) -> (done: bool)
    ensures
        done == (off + 2 <= old(buf)@.len()),
        done ==> final(buf)@ == old(buf)@.take(off as int) + be16(v) + old(buf)@.skip(off + 2),
        !done ==> final(buf)@ == old(buf)@,
{
    if buf.len() < 2 || off > buf.len() - 2 {
        return false;
    }
    buf[off] = (v / 0x100) as u8;
    buf[off + 1] = (v % 0x100) as u8;
    assert(buf@ =~= old(buf)@.take(off as int) + be16(v) + old(buf)@.skip(off + 2));
    true
}

} // verus!
