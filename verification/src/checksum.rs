//! The Internet checksum: the one's-complement sum of 16-bit words, folded
//! to 16 bits and complemented.
use vstd::prelude::*;
use crate::addr::IPv4;
use crate::wire::{be16, push_u16};

verus! {

/// The `i`-th 16-bit word of `s` in network byte order. A last odd byte is
/// padded with a zero octet.
pub open spec fn word_at(s: Seq<u8>, i: int) -> nat
    recommends
        0 <= i,
        2 * i < s.len(),
{
    (s[2 * i] as nat) * 0x100 + if 2 * i + 1 < s.len() {
        s[2 * i + 1] as nat
    } else {
        0
    }
}

/// How many 16-bit words `s` holds, a last odd byte counted as one.
pub open spec fn word_count(s: Seq<u8>) -> nat {
    (s.len() + 1) / 2
}

/// The plain sum of the first `k` words of `s`.
pub open spec fn word_sum_to(s: Seq<u8>, k: nat) -> nat
    decreases k,
{
    if k == 0 {
        0
    } else {
        word_sum_to(s, (k - 1) as nat) + word_at(s, k - 1)
    }
}

/// The plain sum of all words of `s`.
pub open spec fn word_sum(s: Seq<u8>) -> nat {
    word_sum_to(s, word_count(s))
}

/// The one's-complement value of a sum on 16 bits: carries out of bit 15
/// are added back in at bit 0 until none is left. Zero stays zero; any other
/// sum lands in `1..=0xFFFF`, congruent to itself modulo `0xFFFF`.
pub open spec fn fold16(n: nat) -> nat {
    if n == 0 {
        0
    } else {
        ((n - 1) % 0xFFFF + 1) as nat
    }
}

/// The checksum of `s`: the complement of its folded word sum.
pub open spec fn internet_checksum(s: Seq<u8>) -> u16 {
    (0xFFFF - fold16(word_sum(s))) as u16
}

/// A folded sum fits 16 bits.
pub proof fn lemma_fold16_bound(n: nat)
    ensures
        fold16(n) <= 0xFFFF,
        n <= 0xFFFF ==> fold16(n) == n,
{
}

/// Adding one word to a sum and folding is adding it to the folded sum with
/// an end-around carry.
pub proof fn lemma_fold16_step(x: nat, w: nat)
    requires
        w <= 0xFFFF,
    ensures
        fold16(x + w) == if fold16(x) + w > 0xFFFF {
            (fold16(x) + w - 0xFFFF) as nat
        } else {
            fold16(x) + w
        },
{
    if x > 0 {
        let q = (x - 1) / 0xFFFF;
        let r = (x - 1) % 0xFFFF;
        assert(x - 1 == 0xFFFF * q + r) by {
            vstd::arithmetic::div_mod::lemma_fundamental_div_mod(x - 1, 0xFFFF);
        }
        if r + w < 0xFFFF {
            vstd::arithmetic::div_mod::lemma_fundamental_div_mod_converse(
                x + w - 1,
                0xFFFF,
                q,
                r + w,
            );
        } else {
            vstd::arithmetic::div_mod::lemma_fundamental_div_mod_converse(
                x + w - 1,
                0xFFFF,
                q + 1,
                r + w - 0xFFFF,
            );
        }
    }
}

/// Folding may be done at any time: folding a partial sum before adding
/// the rest does not change the folded total.
pub proof fn lemma_fold16_add(x: nat, y: nat)
    ensures
        fold16(fold16(x) + y) == fold16(x + y),
{
    if x > 0 {
        let q = (x - 1) / 0xFFFF;
        let r = (x - 1) % 0xFFFF;
        vstd::arithmetic::div_mod::lemma_fundamental_div_mod(x - 1, 0xFFFF);
        let q2 = (r + y) / 0xFFFF;
        let r2 = (r + y) % 0xFFFF;
        vstd::arithmetic::div_mod::lemma_fundamental_div_mod(r + y, 0xFFFF);
        assert(x + y - 1 == 0xFFFF * (q + q2) + r2) by (nonlinear_arith)
            requires
                x - 1 == 0xFFFF * q + r,
                r + y == 0xFFFF * q2 + r2,
        ;
        vstd::arithmetic::div_mod::lemma_fundamental_div_mod_converse(
            x + y - 1,
            0xFFFF,
            q + q2,
            r2,
        );
    }
}

/// Words of a concatenation whose first part has an even length are the
/// words of the parts, so the sums add up.
pub proof fn lemma_word_sum_concat(a: Seq<u8>, b: Seq<u8>)
    requires
        a.len() % 2 == 0,
    ensures
        word_sum(a + b) == word_sum(a) + word_sum(b),
{
    let ab = a + b;
    let ka = word_count(a);
    assert(ka * 2 == a.len());
    lemma_word_sum_prefix(a, ab, ka);
    lemma_word_sum_shift(a, b, word_count(b));
    assert(word_count(ab) == ka + word_count(b));
}

proof fn lemma_word_sum_prefix(a: Seq<u8>, ab: Seq<u8>, k: nat)
    requires
        a.len() % 2 == 0,
        2 * k <= a.len(),
        a.len() <= ab.len(),
        forall|i: int| 0 <= i < a.len() ==> a[i] == ab[i],
    ensures
        word_sum_to(ab, k) == word_sum_to(a, k),
    decreases k,
{
    if k > 0 {
        lemma_word_sum_prefix(a, ab, (k - 1) as nat);
        assert(word_at(ab, k - 1) == word_at(a, k - 1));
    }
}

proof fn lemma_word_sum_shift(a: Seq<u8>, b: Seq<u8>, k: nat)
    requires
        a.len() % 2 == 0,
        k <= word_count(b),
    ensures
        word_sum_to(a + b, word_count(a) + k) == word_sum_to(a + b, word_count(a)) + word_sum_to(
            b,
            k,
        ),
    decreases k,
{
    if k > 0 {
        lemma_word_sum_shift(a, b, (k - 1) as nat);
        let i = word_count(a) + k - 1;
        assert(2 * i == a.len() + 2 * (k - 1));
        assert((a + b)[2 * i] == b[2 * (k - 1)]);
        if 2 * (k - 1) + 1 < b.len() {
            assert((a + b)[2 * i + 1] == b[2 * (k - 1) + 1]);
        }
        assert(word_at(a + b, i) == word_at(b, k - 1));
    }
}

/// `s` with the two octets at `off` replaced by `v` in network byte order.
pub open spec fn with_u16_at(s: Seq<u8>, off: int, v: u16) -> Seq<u8>
    recommends
        0 <= off,
        off + 2 <= s.len(),
{
    s.take(off) + (be16(v) + s.skip(off + 2))
}

/// Replacing a zero word by `v` adds `v` to the word sum.
pub proof fn lemma_word_sum_with_u16(s: Seq<u8>, off: int, v: u16)
    requires
        0 <= off,
        off % 2 == 0,
        off + 2 <= s.len(),
        s[off] == 0,
        s[off + 1] == 0,
    ensures
        word_sum(with_u16_at(s, off, v)) == word_sum(s) + v,
{
    let a = s.take(off);
    let b = s.skip(off + 2);
    assert(s =~= with_u16_at(s, off, 0));
    lemma_word_sum_concat(a, be16(v) + b);
    lemma_word_sum_concat(be16(v), b);
    lemma_word_sum_concat(a, be16(0) + b);
    lemma_word_sum_concat(be16(0), b);
    assert(word_sum(be16(v)) == v) by {
        assert(word_count(be16(v)) == 1);
        assert(word_sum_to(be16(v), 1) == word_sum_to(be16(v), 0) + word_at(be16(v), 0));
        assert((v / 0x100) * 0x100 + v % 0x100 == v && v / 0x100 < 0x100) by (bit_vector);
    }
    assert(word_sum(be16(0)) == 0) by {
        assert(word_count(be16(0)) == 1);
        assert(word_sum_to(be16(0), 1) == word_sum_to(be16(0), 0) + word_at(be16(0), 0));
    }
}

/// What a receiver checks: data that carries its own checksum, in the field
/// that was zero while the checksum was computed, has checksum zero.
pub proof fn lemma_checksum_verifies(s: Seq<u8>, off: int)
    requires
        0 <= off,
        off % 2 == 0,
        off + 2 <= s.len(),
        s[off] == 0,
        s[off + 1] == 0,
    ensures
        internet_checksum(with_u16_at(s, off, internet_checksum(s))) == 0,
{
    let x = word_sum(s);
    let c = internet_checksum(s);
    lemma_word_sum_with_u16(s, off, c);
    lemma_fold16_bound(x);
    lemma_fold16_step(x, c as nat);
}

/// Adds the words of `data` to the folded sum `acc`.
pub fn checksum_add(acc: u16, data: &[u8]) -> (r: u16)
    ensures
        r == fold16(acc as nat + word_sum(data@)),
{
    let n = data.len();
    let mut sum: u32 = acc as u32;
    let mut i: usize = 0;
    let ghost mut k: nat = 0;
    proof {
        lemma_fold16_bound(acc as nat);
    }
    while i < n
        invariant
            n == data@.len(),
            i == 2 * k || (i == n && n + 1 == 2 * k),
            i <= n,
            k <= word_count(data@),
            sum <= 0xFFFF,
            sum == fold16(acc as nat + word_sum_to(data@, k)),
        decreases n - i,
    {
        let hi: u32 = data[i] as u32;
        let lo: u32 = if i + 1 < n {
            data[i + 1] as u32
        } else {
            0
        };
        let w: u32 = hi * 0x100 + lo;
        proof {
            assert(w == word_at(data@, k as int));
            lemma_fold16_step(acc as nat + word_sum_to(data@, k), w as nat);
            assert(word_sum_to(data@, k + 1) == word_sum_to(data@, k) + word_at(data@, k as int));
        }
        sum = sum + w;
        if sum > 0xFFFF {
            sum = sum - 0xFFFF;
        }
        if i + 1 < n {
            i = i + 2;
        } else {
            i = n;
        }
        proof {
            k = k + 1;
        }
    }
    assert(k == word_count(data@));
    sum as u16
}

/// Turns a folded sum into the checksum to transmit.
pub fn checksum_finish(acc: u16) -> (r: u16)
    ensures
        r == 0xFFFF - acc,
{
    0xFFFF - acc
}

/// The Internet checksum of `data`.
pub fn check_sum(data: &[u8]) -> (r: u16)
    ensures
        r == internet_checksum(data@),
{
    let acc = checksum_add(0, data);
    proof {
        lemma_fold16_bound(word_sum(data@));
    }
    checksum_finish(acc)
}

/// The pseudo header that UDP and TCP checksums cover besides the segment:
/// both addresses, a zero octet, the protocol number, and the length of the
/// segment.
pub open spec fn pseudo_header(src: IPv4, dst: IPv4, protocol: u8, len: u16) -> Seq<u8> {
    src@ + dst@ + seq![0u8, protocol] + be16(len)
}

/// The checksum of a UDP or TCP segment made of `header` and `payload`,
/// computed over the pseudo header, the header and the payload.
pub open spec fn transport_checksum(
    src: IPv4,
    dst: IPv4,
    protocol: u8,
    header: Seq<u8>,
    payload: Seq<u8>,
) -> u16 {
    internet_checksum(
        pseudo_header(src, dst, protocol, (header.len() + payload.len()) as u16) + header
            + payload,
    )
}

/// Computes the checksum of a UDP or TCP segment whose header, with a zero
/// checksum field, is `header`.
pub fn transport_check_sum(
    src: IPv4,
    dst: IPv4,
    protocol: u8,
    header: &[u8],
    payload: &[u8],
) -> (r: u16)
    requires
        header@.len() % 2 == 0,
        header@.len() + payload@.len() <= 0xFFFF,
    ensures
        r == transport_checksum(src, dst, protocol, header@, payload@),
{
    let mut pseudo: Vec<u8> = Vec::with_capacity(12);
    src.append_to(&mut pseudo);
    dst.append_to(&mut pseudo);
    pseudo.push(0);
    pseudo.push(protocol);
    push_u16(&mut pseudo, (header.len() + payload.len()) as u16);
    let ghost p = pseudo_header(src, dst, protocol, (header@.len() + payload@.len()) as u16);
    assert(pseudo@ =~= p);
    let acc = checksum_add(0, pseudo.as_slice());
    let acc = checksum_add(acc, header);
    let acc = checksum_add(acc, payload);
    proof {
        assert(p.len() == 12);
        lemma_word_sum_concat(p, header@);
        lemma_word_sum_concat(p + header@, payload@);
        lemma_fold16_add(word_sum(p), word_sum(header@));
        lemma_fold16_add(word_sum(p) + word_sum(header@), word_sum(payload@));
        lemma_fold16_bound(word_sum(p + header@ + payload@));
    }
    checksum_finish(acc)
}

} // verus!
