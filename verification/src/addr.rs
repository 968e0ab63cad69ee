//! Socket addresses as plain values: four octets or eight 16-bit segments,
//! a port, and (for IPv6) flow information and a scope identifier, together
//! with their canonical text rendering. IPv6 text follows the usual
//! compression rule: the first longest run of two or more zero segments is
//! elided as `::`, an IPv4-mapped address is shown as `::ffff:a.b.c.d`, and
//! a nonzero scope identifier is appended as `%scope`.

use vstd::prelude::*;
use crate::text::{dec_text, hex_text, push_dec_u64, push_hex_u16};

verus! {

/// A socket address of either family, held as plain integers.
#[derive(Clone, Copy, Debug, PartialEq, Eq, Structural)]
pub enum Address {
    V4 { o0: u8, o1: u8, o2: u8, o3: u8, port: u16 },
    V6 {
        s0: u16,
        s1: u16,
        s2: u16,
        s3: u16,
        s4: u16,
        s5: u16,
        s6: u16,
        s7: u16,
        port: u16,
        flowinfo: u32,
        scope_id: u32,
    },
}

impl Address {
    /// The eight 16-bit segments of an IPv6 address, in order.
    pub open spec fn segments(self) -> Seq<u16>
        recommends self is V6,
    {
        match self {
            Address::V4 { .. } => Seq::empty(),
            Address::V6 { s0, s1, s2, s3, s4, s5, s6, s7, .. } => seq![
                s0,
                s1,
                s2,
                s3,
                s4,
                s5,
                s6,
                s7,
            ],
        }
    }

    /// The port of the address, for either family.
    pub open spec fn spec_port(self) -> u16 {
        match self {
            Address::V4 { port, .. } => port,
            Address::V6 { port, .. } => port,
        }
    }

    /// The port of the address, for either family.
    pub fn port(&self) -> (p: u16)
        ensures
            p == self.spec_port(),
    {
        match self {
            Address::V4 { port, .. } => *port,
            Address::V6 { port, .. } => *port,
        }
    }
}

/// Text of an IPv4 address: the four octets in decimal, separated by dots.
pub open spec fn ipv4_text(o0: u8, o1: u8, o2: u8, o3: u8) -> Seq<u8> {
    dec_text(o0 as nat) + seq![('.' as u8)] + dec_text(o1 as nat) + seq![('.' as u8)]
        + dec_text(o2 as nat) + seq![('.' as u8)] + dec_text(o3 as nat)
}

/// Length of the run of zero segments starting at position `i` of `s`.
pub open spec fn zero_run(s: Seq<u16>, i: int) -> nat
    decreases s.len() - i,
{
    if i < 0 || i >= s.len() || s[i] != 0 {
        0
    } else {
        1 + zero_run(s, i + 1)
    }
}

/// The longest zero-run length among runs starting in the first `j` positions.
pub open spec fn best_run_len(s: Seq<u16>, j: int) -> nat
    decreases j,
{
    if j <= 0 {
        0
    } else if zero_run(s, j - 1) > best_run_len(s, j - 1) {
        zero_run(s, j - 1)
    } else {
        best_run_len(s, j - 1)
    }
}

/// The start of the first run attaining `best_run_len(s, j)`.
pub open spec fn best_run_start(s: Seq<u16>, j: int) -> int
    decreases j,
{
    if j <= 0 {
        0
    } else if zero_run(s, j - 1) > best_run_len(s, j - 1) {
        j - 1
    } else {
        best_run_start(s, j - 1)
    }
}

/// Segments `s[i..j]` in lowercase hexadecimal, separated by colons;
/// empty when the range is empty.
pub open spec fn groups_text(s: Seq<u16>, i: int, j: int) -> Seq<u8>
    decreases j - i,
{
    if j <= i {
        Seq::empty()
    } else if j == i + 1 {
        hex_text(s[i] as nat)
    } else {
        groups_text(s, i, j - 1) + seq![(':' as u8)] + hex_text(s[j - 1] as nat)
    }
}

/// Whether the segments denote an IPv4-mapped address, `::ffff:a.b.c.d`.
pub open spec fn is_v4_mapped(s: Seq<u16>) -> bool {
    s.len() == 8 && s[0] == 0 && s[1] == 0 && s[2] == 0 && s[3] == 0 && s[4] == 0 && s[5]
        == 0xffffu16
}

/// Text of the IPv4 address embedded in an IPv4-mapped IPv6 address.
pub open spec fn mapped_v4_text(s: Seq<u16>) -> Seq<u8>
    recommends s.len() == 8,
{
    ipv4_text((s[6] / 256) as u8, (s[6] % 256) as u8, (s[7] / 256) as u8, (s[7] % 256) as u8)
}

/// Canonical text of an IPv6 address given by its segments.
pub open spec fn ipv6_text(s: Seq<u16>) -> Seq<u8>
    recommends s.len() == 8,
{
    if is_v4_mapped(s) {
        seq![(':' as u8), (':' as u8), ('f' as u8), ('f' as u8), ('f' as u8), ('f' as u8), (
        ':' as u8)] + mapped_v4_text(s)
    } else if best_run_len(s, 8) > 1 {
        groups_text(s, 0, best_run_start(s, 8)) + seq![(':' as u8), (':' as u8)] + groups_text(
            s,
            best_run_start(s, 8) + best_run_len(s, 8),
            8,
        )
    } else {
        groups_text(s, 0, 8)
    }
}

/// Canonical text of a socket address: `a.b.c.d:port` for IPv4 and
/// `[segments]:port` (with `%scope` inside the brackets when the scope
/// identifier is nonzero) for IPv6.
pub open spec fn addr_text(a: Address) -> Seq<u8> {
    match a {
        Address::V4 { o0, o1, o2, o3, port } => ipv4_text(o0, o1, o2, o3) + seq![(':' as u8)]
            + dec_text(port as nat),
        Address::V6 { port, scope_id, .. } => seq![('[' as u8)] + ipv6_text(a.segments()) + (
        if scope_id != 0 {
            seq![('%' as u8)] + dec_text(scope_id as nat)
        } else {
            Seq::<u8>::empty()
        }) + seq![(']' as u8), (':' as u8)] + dec_text(port as nat),
    }
}

fn push_ipv4(out: &mut Vec<u8>, o0: u8, o1: u8, o2: u8, o3: u8)
    ensures
        final(out)@ == old(out)@ + ipv4_text(o0, o1, o2, o3),
{
    push_dec_u64(out, o0 as u64);
    out.push('.' as u8);
    push_dec_u64(out, o1 as u64);
    out.push('.' as u8);
    push_dec_u64(out, o2 as u64);
    out.push('.' as u8);
    push_dec_u64(out, o3 as u64);
    proof {
        assert(out@ =~= old(out)@ + ipv4_text(o0, o1, o2, o3));
    }
}

fn zero_run_at(segs: &Vec<u16>, i: usize) -> (r: usize)
    requires
        segs@.len() == 8,
        i <= 8,
    ensures
        r == zero_run(segs@, i as int),
        i + r <= 8,
    decreases 8 - i,
{
    if i >= 8 || segs[i] != 0 {
        0
    } else {
        1 + zero_run_at(segs, i + 1)
    }
}

fn push_groups(out: &mut Vec<u8>, segs: &Vec<u16>, i: usize, j: usize)
    requires
        segs@.len() == 8,
        i <= j <= 8,
    ensures
        final(out)@ == old(out)@ + groups_text(segs@, i as int, j as int),
{
    let mut k: usize = i;
    proof {
        assert(out@ =~= old(out)@ + groups_text(segs@, i as int, i as int));
    }
    while k < j
        invariant
            segs@.len() == 8,
            i <= k <= j <= 8,
            out@ == old(out)@ + groups_text(segs@, i as int, k as int),
        decreases j - k,
    {
        if k > i {
            out.push(':' as u8);
        }
        push_hex_u16(out, segs[k]);
        proof {
            assert(out@ =~= old(out)@ + groups_text(segs@, i as int, (k + 1) as int));
        }
        k = k + 1;
    }
}

/// Renders the canonical text of `a` as bytes.
pub fn address_text(a: &Address) -> (r: Vec<u8>)
    ensures
        r@ == addr_text(*a),
{
    let mut out: Vec<u8> = Vec::new();
    match *a {
        Address::V4 { o0, o1, o2, o3, port } => {
            push_ipv4(&mut out, o0, o1, o2, o3);
            out.push(':' as u8);
            push_dec_u64(&mut out, port as u64);
            proof {
                assert(out@ =~= addr_text(*a));
            }
        },
        Address::V6 { s0, s1, s2, s3, s4, s5, s6, s7, port, flowinfo: _, scope_id } => {
            let mut segs: Vec<u16> = Vec::new();
            segs.push(s0);
            segs.push(s1);
            segs.push(s2);
            segs.push(s3);
            segs.push(s4);
            segs.push(s5);
            segs.push(s6);
            segs.push(s7);
            proof {
                assert(segs@ =~= a.segments());
            }
            out.push('[' as u8);
            if segs[0] == 0 && segs[1] == 0 && segs[2] == 0 && segs[3] == 0 && segs[4] == 0
                && segs[5] == 0xffff {
                out.push(':' as u8);
                out.push(':' as u8);
                out.push('f' as u8);
                out.push('f' as u8);
                out.push('f' as u8);
                out.push('f' as u8);
                out.push(':' as u8);
                push_ipv4(
                    &mut out,
                    (segs[6] / 256) as u8,
                    (segs[6] % 256) as u8,
                    (segs[7] / 256) as u8,
                    (segs[7] % 256) as u8,
                );
                proof {
                    assert(out@ =~= seq![('[' as u8)] + ipv6_text(a.segments()));
                }
            } else {
                let mut run_len: usize = 0;
                let mut run_start: usize = 0;
                let mut j: usize = 0;
                while j < 8
                    invariant
                        segs@.len() == 8,
                        j <= 8,
                        run_len == best_run_len(segs@, j as int),
                        run_start == best_run_start(segs@, j as int),
                        run_start + run_len <= 8,
                        run_start <= j,
                    decreases 8 - j,
                {
                    let l = zero_run_at(&segs, j);
                    if l > run_len {
                        run_len = l;
                        run_start = j;
                    }
                    j = j + 1;
                }
                if run_len > 1 {
                    push_groups(&mut out, &segs, 0, run_start);
                    out.push(':' as u8);
                    out.push(':' as u8);
                    push_groups(&mut out, &segs, run_start + run_len, 8);
                } else {
                    push_groups(&mut out, &segs, 0, 8);
                }
                proof {
                    assert(out@ =~= seq![('[' as u8)] + ipv6_text(a.segments()));
                }
            }
            if scope_id != 0 {
                out.push('%' as u8);
                push_dec_u64(&mut out, scope_id as u64);
            }
            out.push(']' as u8);
            out.push(':' as u8);
            push_dec_u64(&mut out, port as u64);
            proof {
                assert(out@ =~= addr_text(*a));
            }
        },
    }
    out
}

} // verus!
