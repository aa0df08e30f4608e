//! IP addresses as plain values, and their textual form.

use crate::text::{numeral, push_number};
use vstd::prelude::*;
use vstd::string::*;

verus! {

/// An IPv4 or IPv6 address. The parts stand in network order: four octets,
/// or eight 16-bit segments.
#[derive(Debug, Clone, Copy, PartialEq, Eq, Hash, Structural)]
pub enum IpAddr {
    V4(u8, u8, u8, u8),
    V6(u16, u16, u16, u16, u16, u16, u16, u16),
}

/// The segments of an IPv6 address.
pub open spec fn segments_of(a: IpAddr) -> Seq<u16> {
    match a {
        IpAddr::V4(_, _, _, _) => Seq::empty(),
        IpAddr::V6(a, b, c, d, e, f, g, h) => seq![a, b, c, d, e, f, g, h],
    }
}

/// Four octets in dotted decimal form.
pub open spec fn dotted(a: u8, b: u8, c: u8, d: u8) -> Seq<char> {
    numeral(a as nat, 10).push('.') + numeral(b as nat, 10).push('.') + numeral(
        c as nat,
        10,
    ).push('.') + numeral(d as nat, 10)
}

/// How many zero segments follow one another from index `i` on.
pub open spec fn zero_run(s: Seq<u16>, i: int) -> nat
    decreases s.len() - i,
{
    if 0 <= i < s.len() && s[i] == 0 {
        1 + zero_run(s, i + 1)
    } else {
        0
    }
}

/// The first index of a longest run of zeros among the indices from `i` on.
pub open spec fn best_zero(s: Seq<u16>, i: int) -> int
    decreases s.len() - i,
{
    if i < 0 || i + 1 >= s.len() {
        i
    } else {
        let later = best_zero(s, i + 1);
        if zero_run(s, i) >= zero_run(s, later) {
            i
        } else {
            later
        }
    }
}

/// Segments in lower-case hexadecimal with colons between them.
pub open spec fn colon_hex(s: Seq<u16>) -> Seq<char>
    decreases s.len(),
{
    if s.len() == 0 {
        Seq::empty()
    } else if s.len() == 1 {
        numeral(s[0] as nat, 16)
    } else {
        colon_hex(s.drop_last()).push(':') + numeral(s.last() as nat, 16)
    }
}

/// An address is IPv4-mapped when it is `::ffff:0:0/96`.
pub open spec fn v4_mapped(s: Seq<u16>) -> bool {
    s.len() == 8 && s[0] == 0 && s[1] == 0 && s[2] == 0 && s[3] == 0 && s[4] == 0 && s[5] == 0xffff
}

/// The text of an IPv6 address: IPv4-mapped addresses end in dotted decimal;
/// otherwise the first longest run of two or more zero segments is written
/// as a double colon.
pub open spec fn v6_text(s: Seq<u16>) -> Seq<char> {
    if v4_mapped(s) {
        "::ffff:"@ + dotted(
            (s[6] / 256) as u8,
            (s[6] % 256) as u8,
            (s[7] / 256) as u8,
            (s[7] % 256) as u8,
        )
    } else {
        let z = best_zero(s, 0);
        let n = zero_run(s, z);
        if n > 1 {
            colon_hex(s.take(z)) + "::"@ + colon_hex(s.skip(z + n))
        } else {
            colon_hex(s)
        }
    }
}

impl IpAddr {
    /// The address in its usual textual form.
    pub open spec fn text(self) -> Seq<char> {
        match self {
            IpAddr::V4(a, b, c, d) => dotted(a, b, c, d),
            IpAddr::V6(_, _, _, _, _, _, _, _) => v6_text(segments_of(self)),
        }
    }

    /// Whether the address is an IPv6 address.
    pub fn is_ipv6(&self) -> (r: bool)
        ensures
            r == (*self is V6),
    {
        match self {
            IpAddr::V4(_, _, _, _) => false,
            IpAddr::V6(_, _, _, _, _, _, _, _) => true,
        }
    }

    /// Prints the address.
    pub fn to_text(&self) -> (r: String)
        ensures
            r@ == self.text(),
    {
        let mut out = String::new();
        match *self {
            IpAddr::V4(a, b, c, d) => {
                push_dotted(&mut out, a, b, c, d);
                assert(out@ =~= self.text());
            },
            IpAddr::V6(a, b, c, d, e, f, g, h) => {
                let s: [u16; 8] = [a, b, c, d, e, f, g, h];
                assert(s@ =~= segments_of(*self));
                push_v6(&mut out, &s);
                assert(out@ =~= self.text());
            },
        }
        out
    }
}

fn push_dotted(out: &mut String, a: u8, b: u8, c: u8, d: u8)
    ensures
        final(out)@ == old(out)@ + dotted(a, b, c, d),
{
    push_number(out, a as u128, 10);
    out.push('.');
    push_number(out, b as u128, 10);
    out.push('.');
    push_number(out, c as u128, 10);
    out.push('.');
    push_number(out, d as u128, 10);
    assert(out@ =~= old(out)@ + dotted(a, b, c, d));
}

/// Length of the run of zeros at `i`.
fn run_len(s: &[u16; 8], i: usize) -> (n: usize)
    requires
        i <= 8,
    ensures
        n == zero_run(s@, i as int),
        i + n <= 8,
    decreases 8 - i,
{
    if i < 8 && s[i] == 0 {
        1 + run_len(s, i + 1)
    } else {
        0
    }
}

/// First index of a longest run of zeros from `i` on.
fn best_run(s: &[u16; 8], i: usize) -> (z: usize)
    requires
        i < 8,
    ensures
        z == best_zero(s@, i as int),
        i <= z < 8,
    decreases 8 - i,
{
    if i == 7 {
        7
    } else {
        let later = best_run(s, i + 1);
        if run_len(s, i) >= run_len(s, later) {
            i
        } else {
            later
        }
    }
}

fn push_colon_hex(out: &mut String, s: &[u16; 8], from: usize, to: usize)
    requires
        from <= to <= 8,
    ensures
        final(out)@ == old(out)@ + colon_hex(s@.subrange(from as int, to as int)),
{
    let mut i: usize = from;
    assert(out@ =~= old(out)@ + colon_hex(s@.subrange(from as int, from as int)));
    while i < to
        invariant
            from <= i <= to <= 8,
            out@ == old(out)@ + colon_hex(s@.subrange(from as int, i as int)),
        decreases to - i,
    {
        let ghost done = s@.subrange(from as int, i as int);
        let ghost next = s@.subrange(from as int, i + 1);
        assert(next.drop_last() =~= done);
        if i > from {
            out.push(':');
        }
        push_number(out, s[i] as u128, 16);
        assert(out@ =~= old(out)@ + colon_hex(next));
        i += 1;
    }
}

fn push_v6(out: &mut String, s: &[u16; 8])
    ensures
        final(out)@ == old(out)@ + v6_text(s@),
{
    if s[0] == 0 && s[1] == 0 && s[2] == 0 && s[3] == 0 && s[4] == 0 && s[5] == 0xffff {
        out.append("::ffff:");
        push_dotted(
            out,
            (s[6] / 256) as u8,
            (s[6] % 256) as u8,
            (s[7] / 256) as u8,
            (s[7] % 256) as u8,
        );
        assert(out@ =~= old(out)@ + v6_text(s@));
        return;
    }
    let z = best_run(s, 0);
    let n = run_len(s, z);
    if n > 1 {
        push_colon_hex(out, s, 0, z);
        out.append("::");
        push_colon_hex(out, s, z + n, 8);
        assert(s@.take(z as int) =~= s@.subrange(0, z as int));
        assert(s@.skip(z + n) =~= s@.subrange(z + n, 8));
    } else {
        push_colon_hex(out, s, 0, 8);
        assert(s@.subrange(0, 8) =~= s@);
    }
    assert(out@ =~= old(out)@ + v6_text(s@));
}

} // verus!
