//! Rendering of IPv4 and IPv6 addresses carried in resource records.
//!
//! IPv4 addresses print as dotted decimal quads.  IPv6 addresses print
//! in lowercase colon-hex with the usual shortening: the leftmost
//! longest run of two or more zero groups collapses to `::`, and an
//! IPv4-mapped address prints its low 32 bits in dotted-quad form.

use vstd::prelude::*;
use crate::text::{push_char, spec_dec, spec_hex, write_dec, write_hex};

verus! {

/// The byte of `a` at big-endian position `i` (0 is the most significant).
pub open spec fn spec_ipv4_octet(a: u32, i: int) -> nat {
    if i == 0 {
        (a as nat / 0x1000000) % 256
    } else if i == 1 {
        (a as nat / 0x10000) % 256
    } else if i == 2 {
        (a as nat / 0x100) % 256
    } else {
        a as nat % 256
    }
}

/// Dotted-quad rendering of an IPv4 address held as a big-endian `u32`.
pub open spec fn spec_ipv4_string(a: u32) -> Seq<char> {
    spec_dec(spec_ipv4_octet(a, 0)) + seq!['.'] + spec_dec(spec_ipv4_octet(a, 1)) + seq!['.']
        + spec_dec(spec_ipv4_octet(a, 2)) + seq!['.'] + spec_dec(spec_ipv4_octet(a, 3))
}

/// Appends the dotted-quad rendering of `a`.
pub fn write_ipv4(a: u32, out: &mut String)
    ensures
        final(out)@ == old(out)@ + spec_ipv4_string(a),
{
    write_dec(((a / 0x1000000) % 256) as u64, out);
    push_char(out, '.');
    write_dec(((a / 0x10000) % 256) as u64, out);
    push_char(out, '.');
    write_dec(((a / 0x100) % 256) as u64, out);
    push_char(out, '.');
    write_dec((a % 256) as u64, out);
    proof {
        assert(final(out)@ =~= old(out)@ + spec_ipv4_string(a));
    }
}

/// The dotted-quad rendering of `a` on its own.
pub fn ipv4_to_string(a: u32) -> (r: String)
    ensures
        r@ == spec_ipv4_string(a),
{
    let mut out = String::new();
    write_ipv4(a, &mut out);
    proof {
        assert(out@ =~= spec_ipv4_string(a));
    }
    out
}

/// The address a dotted-quad string denotes: four dot-separated
/// decimal numbers, most significant octet first.
pub open spec fn spec_parse_ipv4(s: Seq<char>) -> Option<nat> {
    let parts = crate::text::spec_split(s, '.');
    if parts.len() == 4 {
        match (
            crate::text::spec_parse_dec(parts[0]),
            crate::text::spec_parse_dec(parts[1]),
            crate::text::spec_parse_dec(parts[2]),
            crate::text::spec_parse_dec(parts[3]),
        ) {
            (Some(o0), Some(o1), Some(o2), Some(o3)) => Some(
                o0 * 0x1000000 + o1 * 0x10000 + o2 * 0x100 + o3,
            ),
            _ => None,
        }
    } else {
        None
    }
}

/// Reading a dotted-quad rendering back gives the address it came
/// from.
pub proof fn lemma_ipv4_round_trip(a: u32)
    ensures
        spec_parse_ipv4(spec_ipv4_string(a)) == Some(a as nat),
{
    let d0 = spec_dec(spec_ipv4_octet(a, 0));
    let d1 = spec_dec(spec_ipv4_octet(a, 1));
    let d2 = spec_dec(spec_ipv4_octet(a, 2));
    let d3 = spec_dec(spec_ipv4_octet(a, 3));
    crate::text::lemma_dec_digits(spec_ipv4_octet(a, 0));
    crate::text::lemma_dec_digits(spec_ipv4_octet(a, 1));
    crate::text::lemma_dec_digits(spec_ipv4_octet(a, 2));
    crate::text::lemma_dec_digits(spec_ipv4_octet(a, 3));
    assert forall|j: int, k: int| 0 <= k < 4 && 0 <= j < spec_dec(spec_ipv4_octet(a, k)).len()
        implies spec_dec(spec_ipv4_octet(a, k))[j] != '.' by {
        assert(crate::text::spec_is_digit(spec_dec(spec_ipv4_octet(a, k))[j]));
    }
    let s = spec_ipv4_string(a);
    let tail1 = d1 + seq!['.'] + d2 + seq!['.'] + d3;
    let tail2 = d2 + seq!['.'] + d3;
    assert(s =~= d0 + seq!['.'] + tail1);
    crate::text::lemma_split_prefix(d0, tail1, '.');
    assert(tail1 =~= d1 + seq!['.'] + tail2);
    crate::text::lemma_split_prefix(d1, tail2, '.');
    crate::text::lemma_split_prefix(d2, d3, '.');
    crate::text::lemma_split_whole(d3, '.');
    let parts = crate::text::spec_split(s, '.');
    assert(parts =~= seq![d0, d1, d2, d3]);
    crate::text::lemma_dec_round_trip(spec_ipv4_octet(a, 0));
    crate::text::lemma_dec_round_trip(spec_ipv4_octet(a, 1));
    crate::text::lemma_dec_round_trip(spec_ipv4_octet(a, 2));
    crate::text::lemma_dec_round_trip(spec_ipv4_octet(a, 3));
    let n = a as nat;
    assert(n / 0x1000000 < 256) by (nonlinear_arith)
        requires
            n < 0x100000000,
    ;
    assert(spec_ipv4_octet(a, 0) == n / 0x1000000);
    assert((n / 0x1000000) * 0x1000000 + n % 0x1000000 == n) by (nonlinear_arith);
    assert((n / 0x10000) % 256 * 0x10000 + (n / 0x100) % 256 * 0x100 + n % 256 == n % 0x1000000)
        by (nonlinear_arith);
}

/// `65536` raised to `k`, for extracting 16-bit groups.
pub open spec fn spec_pow16(k: nat) -> nat
    decreases k,
{
    if k == 0 {
        1
    } else {
        65536 * spec_pow16((k - 1) as nat)
    }
}

/// The 16-bit group of `a` at big-endian position `i` (0 first).
pub open spec fn spec_seg(a: u128, i: int) -> nat {
    (a as nat / spec_pow16((7 - i) as nat)) % 65536
}

proof fn lemma_pow16_values()
    ensures
        spec_pow16(0) == 1,
        spec_pow16(1) == 65536,
        spec_pow16(2) == 0x1_0000_0000,
        spec_pow16(3) == 0x1_0000_0000_0000,
        spec_pow16(4) == 0x1_0000_0000_0000_0000,
        spec_pow16(5) == 0x1_0000_0000_0000_0000_0000,
        spec_pow16(6) == 0x1_0000_0000_0000_0000_0000_0000,
        spec_pow16(7) == 0x1_0000_0000_0000_0000_0000_0000_0000,
{
    assert(spec_pow16(0) == 1);
    assert(spec_pow16(1) == 65536 * spec_pow16(0));
    assert(spec_pow16(2) == 65536 * spec_pow16(1));
    assert(spec_pow16(3) == 65536 * spec_pow16(2));
    assert(spec_pow16(4) == 65536 * spec_pow16(3));
    assert(spec_pow16(5) == 65536 * spec_pow16(4));
    assert(spec_pow16(6) == 65536 * spec_pow16(5));
    assert(spec_pow16(7) == 65536 * spec_pow16(6));
}

proof fn lemma_pow16_pos(k: nat)
    ensures
        spec_pow16(k) >= 1,
    decreases k,
{
    if k > 0 {
        lemma_pow16_pos((k - 1) as nat);
    }
}

fn pow16(k: usize) -> (r: u128)
    requires
        k <= 7,
    ensures
        r as nat == spec_pow16(k as nat),
{
    proof {
        lemma_pow16_values();
    }
    if k == 0 {
        1
    } else if k == 1 {
        65536
    } else if k == 2 {
        0x1_0000_0000
    } else if k == 3 {
        0x1_0000_0000_0000
    } else if k == 4 {
        0x1_0000_0000_0000_0000
    } else if k == 5 {
        0x1_0000_0000_0000_0000_0000
    } else if k == 6 {
        0x1_0000_0000_0000_0000_0000_0000
    } else {
        0x1_0000_0000_0000_0000_0000_0000_0000
    }
}

/// The eight 16-bit groups of `a`, most significant first.
pub open spec fn spec_segments(a: u128) -> Seq<nat> {
    Seq::new(8, |i: int| spec_seg(a, i))
}

fn segments_of(a: u128) -> (r: Vec<u16>)
    ensures
        r@.len() == 8,
        forall|i: int| 0 <= i < 8 ==> r@[i] as nat == spec_seg(a, i),
{
    let mut r: Vec<u16> = Vec::new();
    let mut i: usize = 0;
    while i < 8
        invariant
            i <= 8,
            r@.len() == i,
            forall|j: int| 0 <= j < i ==> r@[j] as nat == spec_seg(a, j),
        decreases 8 - i,
    {
        let p = pow16(7 - i);
        proof {
            lemma_pow16_pos((7 - i) as nat);
        }
        let s = ((a / p) % 65536) as u16;
        r.push(s);
        i = i + 1;
    }
    r
}

/// Whether `a` is an IPv4-mapped address: groups `0,0,0,0,0,ffff,_,_`.
pub open spec fn spec_is_ipv4_mapped(a: u128) -> bool {
    spec_seg(a, 0) == 0 && spec_seg(a, 1) == 0 && spec_seg(a, 2) == 0 && spec_seg(a, 3) == 0
        && spec_seg(a, 4) == 0 && spec_seg(a, 5) == 0xffff
}

/// One scan step over the groups, tracking the current zero run and the
/// longest seen so far; a longer run replaces the record, so the
/// leftmost longest run wins.  Returns `(start, len)` of that run.
pub open spec fn spec_zero_scan(
    segs: Seq<nat>,
    i: int,
    cs: int,
    cl: int,
    ls: int,
    ll: int,
) -> (int, int)
    decreases segs.len() - i,
{
    if i < 0 || i >= segs.len() {
        (ls, ll)
    } else if segs[i] == 0 {
        let ncs = if cl == 0 {
            i
        } else {
            cs
        };
        let ncl = cl + 1;
        if ncl > ll {
            spec_zero_scan(segs, i + 1, ncs, ncl, ncs, ncl)
        } else {
            spec_zero_scan(segs, i + 1, ncs, ncl, ls, ll)
        }
    } else {
        spec_zero_scan(segs, i + 1, 0, 0, ls, ll)
    }
}

/// The leftmost longest run of zero groups in `segs`.
pub open spec fn spec_zero_run(segs: Seq<nat>) -> (int, int) {
    spec_zero_scan(segs, 0, 0, 0, 0, 0)
}

/// The groups of `segs` in `[from, to)`, lowercase hex, joined by `:`.
pub open spec fn spec_hex_groups(segs: Seq<nat>, from: int, to: int) -> Seq<char>
    decreases to - from,
{
    if from < 0 || from >= to || to > segs.len() {
        Seq::empty()
    } else if from == to - 1 {
        spec_hex(segs[from])
    } else {
        spec_hex(segs[from]) + seq![':'] + spec_hex_groups(segs, from + 1, to)
    }
}

/// Colon-hex rendering of an IPv6 address held as a big-endian `u128`.
pub open spec fn spec_ipv6_string(a: u128) -> Seq<char> {
    let segs = spec_segments(a);
    if spec_is_ipv4_mapped(a) {
        seq![':', ':', 'f', 'f', 'f', 'f', ':'] + spec_ipv4_string((a % 0x1_0000_0000) as u32)
    } else {
        let (zs, zl) = spec_zero_run(segs);
        if zl > 1 {
            spec_hex_groups(segs, 0, zs) + seq![':', ':'] + spec_hex_groups(segs, zs + zl, 8)
        } else {
            spec_hex_groups(segs, 0, 8)
        }
    }
}

fn write_hex_groups(segs: &Vec<u16>, from: usize, to: usize, out: &mut String)
    requires
        to <= segs@.len(),
    ensures
        final(out)@ == old(out)@ + spec_hex_groups(
            Seq::new(segs@.len() as nat, |i: int| segs@[i] as nat),
            from as int,
            to as int,
        ),
    decreases to - from,
{
    let ghost sv = Seq::new(segs@.len() as nat, |i: int| segs@[i] as nat);
    if from >= to {
        proof {
            assert(out@ =~= out@ + spec_hex_groups(sv, from as int, to as int));
        }
    } else {
        write_hex(segs[from] as u64, out);
        if from + 1 < to {
            push_char(out, ':');
        }
        write_hex_groups(segs, from + 1, to, out);
        proof {
            assert(final(out)@ =~= old(out)@ + spec_hex_groups(sv, from as int, to as int));
        }
    }
}

/// The colon-hex rendering of `a`, shortened as described above.
pub fn ipv6_to_string(a: u128) -> (r: String)
    ensures
        r@ == spec_ipv6_string(a),
{
    let segs = segments_of(a);
    let ghost sv = Seq::new(segs@.len() as nat, |i: int| segs@[i] as nat);
    proof {
        assert(sv =~= spec_segments(a));
    }
    if segs[0] == 0 && segs[1] == 0 && segs[2] == 0 && segs[3] == 0 && segs[4] == 0 && segs[5]
        == 0xffff {
        let mut out = String::new();
        push_char(&mut out, ':');
        push_char(&mut out, ':');
        push_char(&mut out, 'f');
        push_char(&mut out, 'f');
        push_char(&mut out, 'f');
        push_char(&mut out, 'f');
        push_char(&mut out, ':');
        write_ipv4((a % 0x1_0000_0000) as u32, &mut out);
        proof {
            assert(out@ =~= spec_ipv6_string(a));
        }
        out
    } else {
        let mut cs: usize = 0;
        let mut cl: usize = 0;
        let mut ls: usize = 0;
        let mut ll: usize = 0;
        let mut i: usize = 0;
        while i < 8
            invariant
                i <= 8,
                segs@.len() == 8,
                cs <= 8 && cl <= i && ls <= 8 && ll <= 8,
                forall|j: int| 0 <= j < 8 ==> segs@[j] as nat == spec_seg(a, j),
                spec_zero_scan(sv, i as int, cs as int, cl as int, ls as int, ll as int)
                    == spec_zero_run(sv),
                sv =~= spec_segments(a),
            decreases 8 - i,
        {
            if segs[i] == 0 {
                if cl == 0 {
                    cs = i;
                }
                cl = cl + 1;
                if cl > ll {
                    ls = cs;
                    ll = cl;
                }
            } else {
                cs = 0;
                cl = 0;
            }
            i = i + 1;
        }
        let mut out = String::new();
        if ll > 1 {
            write_hex_groups(&segs, 0, ls, &mut out);
            push_char(&mut out, ':');
            push_char(&mut out, ':');
            write_hex_groups(&segs, ls + ll, 8, &mut out);
            proof {
                assert(out@ =~= spec_ipv6_string(a));
            }
        } else {
            write_hex_groups(&segs, 0, 8, &mut out);
            proof {
                assert(out@ =~= spec_ipv6_string(a));
            }
        }
        out
    }
}

} // verus!
