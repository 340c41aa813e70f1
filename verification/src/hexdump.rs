//! A hexadecimal dump of a buffer as ASCII text, sixteen octets to the line.
use vstd::prelude::*;
use vstd::string::StringSliceAdditionalSpecFns;
use crate::wire::push_bytes;

verus! {

/// Width of the two rules that frame a dump.
pub const DUMP_WIDTH: usize = 70;

/// Octets shown on one line.
pub const DUMP_COLUMNS: usize = 16;

/// The lower-case hexadecimal digit of a number below sixteen.
pub open spec fn hex_digit(n: u8) -> u8
    recommends
        n < 16,
{
    if n < 10 {
        (0x30 + n) as u8
    } else {
        (0x57 + n) as u8
    }
}

/// `n` times the octet `b`.
pub open spec fn repeat(b: u8, n: nat) -> Seq<u8> {
    Seq::new(n, |i: int| b)
}

/// The hexadecimal column of the octet at `i`: two digits and a space, or
/// three spaces behind the end of `s`.
pub open spec fn hex_cell(s: Seq<u8>, i: int) -> Seq<u8> {
    if i < s.len() {
        seq![hex_digit(s[i] / 16), hex_digit(s[i] % 16), 0x20u8]
    } else {
        repeat(0x20, 3)
    }
}

/// The text column of the octet at `i`: the octet itself where it is
/// printable ASCII, a dot where it is not, three spaces behind the end of
/// `s`.
pub open spec fn text_cell(s: Seq<u8>, i: int) -> Seq<u8> {
    if i < s.len() {
        if 0x20 <= s[i] <= 0x7e {
            seq![s[i]]
        } else {
            seq![0x2eu8]
        }
    } else {
        repeat(0x20, 3)
    }
}

/// The first `n` hexadecimal columns of the line that starts at `off`.
pub open spec fn hex_cells(s: Seq<u8>, off: int, n: nat) -> Seq<u8>
    decreases n,
{
    if n == 0 {
        Seq::empty()
    } else {
        hex_cells(s, off, (n - 1) as nat) + hex_cell(s, off + n - 1)
    }
}

/// The first `n` text columns of the line that starts at `off`.
pub open spec fn text_cells(s: Seq<u8>, off: int, n: nat) -> Seq<u8>
    decreases n,
{
    if n == 0 {
        Seq::empty()
    } else {
        text_cells(s, off, (n - 1) as nat) + text_cell(s, off + n - 1)
    }
}

/// The line for the sixteen octets from `off` on: their hexadecimal columns,
/// six spaces, their text columns, a line feed.
pub open spec fn dump_line(s: Seq<u8>, off: int) -> Seq<u8> {
    hex_cells(s, off, DUMP_COLUMNS as nat) + repeat(0x20, 6) + text_cells(
        s,
        off,
        DUMP_COLUMNS as nat,
    ) + seq![0x0au8]
}

/// The first `k` lines of the dump of `s`.
pub open spec fn dump_lines(s: Seq<u8>, k: nat) -> Seq<u8>
    decreases k,
{
    if k == 0 {
        Seq::empty()
    } else {
        dump_lines(s, (k - 1) as nat) + dump_line(s, (k - 1) * DUMP_COLUMNS)
    }
}

/// How many lines the dump of `s` has: one for every sixteen octets begun.
pub open spec fn line_count(s: Seq<u8>) -> nat {
    ((s.len() + DUMP_COLUMNS - 1) / (DUMP_COLUMNS as int)) as nat
}

/// A rule: `title` centred in a line of dashes seventy wide, the odd dash to
/// the right, and a line feed. A longer title stands alone.
pub open spec fn banner(title: Seq<u8>) -> Seq<u8> {
    if title.len() >= DUMP_WIDTH {
        title + seq![0x0au8]
    } else {
        let pad = (DUMP_WIDTH - title.len()) as nat;
        repeat(0x2d, pad / 2) + title + repeat(0x2d, (pad - pad / 2) as nat) + seq![0x0au8]
    }
}

/// The dump of `s`: a rule, the lines, a closing rule.
pub open spec fn hexdump_text(s: Seq<u8>) -> Seq<u8> {
    banner(" hexdump ".spec_bytes()) + dump_lines(s, line_count(s)) + banner(
        " hexdump end ".spec_bytes(),
    )
}

fn push_repeat(out: &mut Vec<u8>, b: u8, n: usize)
    ensures
        final(out)@ == old(out)@ + repeat(b, n as nat),
{
    let mut i: usize = 0;
    while i < n
        invariant
            i <= n,
            out@ == old(out)@ + repeat(b, i as nat),
        decreases n - i,
    {
        out.push(b);
        i = i + 1;
        assert(out@ =~= old(out)@ + repeat(b, i as nat));
    }
}

fn push_banner(out: &mut Vec<u8>, title: &[u8])
    ensures
        final(out)@ == old(out)@ + banner(title@),
{
    if title.len() >= DUMP_WIDTH {
        push_bytes(out, title);
        out.push(0x0a);
    } else {
        let pad = DUMP_WIDTH - title.len();
        push_repeat(out, 0x2d, pad / 2);
        push_bytes(out, title);
        push_repeat(out, 0x2d, pad - pad / 2);
        out.push(0x0a);
    }
    assert(out@ =~= old(out)@ + banner(title@));
}

fn hex_digit_of(n: u8) -> (r: u8)
    requires
        n < 16,
    ensures
        r == hex_digit(n),
{
    if n < 10 {
        0x30 + n
    } else {
        0x57 + n
    }
}

fn push_dump_line(out: &mut Vec<u8>, data: &[u8], off: usize)
    requires
        off < data@.len(),
    ensures
        final(out)@ == old(out)@ + dump_line(data@, off as int),
{
    let rest = data.len() - off;
    let mut i: usize = 0;
    while i < DUMP_COLUMNS
        invariant
            i <= DUMP_COLUMNS,
            off < data@.len(),
            rest == data@.len() - off,
            data@.len() <= usize::MAX,
            out@ == old(out)@ + hex_cells(data@, off as int, i as nat),
        decreases DUMP_COLUMNS - i,
    {
        if i < rest {
            let c = data[off + i];
            out.push(hex_digit_of(c / 16));
            out.push(hex_digit_of(c % 16));
            out.push(0x20);
        } else {
            push_repeat(out, 0x20, 3);
        }
        i = i + 1;
        assert(out@ =~= old(out)@ + hex_cells(data@, off as int, i as nat));
    }
    push_repeat(out, 0x20, 6);
    let ghost mid = out@;
    let mut i: usize = 0;
    while i < DUMP_COLUMNS
        invariant
            i <= DUMP_COLUMNS,
            off < data@.len(),
            rest == data@.len() - off,
            data@.len() <= usize::MAX,
            out@ == mid + text_cells(data@, off as int, i as nat),
        decreases DUMP_COLUMNS - i,
    {
        if i < rest {
            let c = data[off + i];
            if c >= 0x20 && c <= 0x7e {
                out.push(c);
            } else {
                out.push(0x2e);
            }
        } else {
            push_repeat(out, 0x20, 3);
        }
        i = i + 1;
        assert(out@ =~= mid + text_cells(data@, off as int, i as nat));
    }
    out.push(0x0a);
    assert(out@ =~= old(out)@ + dump_line(data@, off as int));
}

/// Renders the dump of `data` as ASCII text.
pub fn hexdump(data: &[u8]) -> (text: Vec<u8>)
    ensures
        text@ == hexdump_text(data@),
{
    let mut out: Vec<u8> = Vec::new();
    push_banner(&mut out, " hexdump ".as_bytes());
    let ghost head = out@;
    let n = data.len();
    let mut off: usize = 0;
    let ghost mut k: nat = 0;
    while off < n
        invariant
            n == data@.len(),
            off <= n,
            off == n || off == k * DUMP_COLUMNS,
            off == n ==> k == line_count(data@),
            off < n ==> k < line_count(data@),
            out@ == head + dump_lines(data@, k),
        decreases n - off,
    {
        push_dump_line(&mut out, data, off);
        proof {
            k = k + 1;
            assert(out@ =~= head + dump_lines(data@, k));
        }
        if n - off <= DUMP_COLUMNS {
            off = n;
        } else {
            off = off + DUMP_COLUMNS;
        }
    }
    push_banner(&mut out, " hexdump end ".as_bytes());
    assert(out@ =~= hexdump_text(data@));
    out
}

} // verus!
