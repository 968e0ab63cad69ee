//! Building blocks for rendering response text as bytes: decimal and
//! hexadecimal digit sequences, and a bounded (truncating) copy.

use vstd::prelude::*;

verus! {

/// Decimal digit sequence of `n`, most significant digit first, no sign,
/// no leading zeros (except for `n == 0`, which is the single digit `0`).
pub open spec fn dec_text(n: nat) -> Seq<u8>
    decreases n,
{
    if n < 10 {
        seq![(('0' as u8) + n) as u8]
    } else {
        dec_text(n / 10).push((('0' as u8) + n % 10) as u8)
    }
}

/// Lowercase hexadecimal digit for a value below 16.
pub open spec fn hex_digit(d: nat) -> u8 {
    if d < 10 {
        (('0' as u8) + d) as u8
    } else {
        (('a' as u8) + (d - 10)) as u8
    }
}

/// Lowercase hexadecimal digit sequence of `n`, most significant first,
/// no leading zeros (except for `n == 0`).
pub open spec fn hex_text(n: nat) -> Seq<u8>
    decreases n,
{
    if n < 16 {
        seq![hex_digit(n)]
    } else {
        hex_text(n / 16).push(hex_digit(n % 16))
    }
}

/// Appends the decimal rendering of `n` to `out`.
pub fn push_dec_u64(out: &mut Vec<u8>, n: u64)
    ensures
        final(out)@ == old(out)@ + dec_text(n as nat),
    decreases n,
{
    if n >= 10 {
        push_dec_u64(out, n / 10);
    }
    out.push(('0' as u8) + (n % 10) as u8);
    proof {
        assert(out@ =~= old(out)@ + dec_text(n as nat));
    }
}

/// Appends the lowercase hexadecimal rendering of `n` to `out`.
pub fn push_hex_u16(out: &mut Vec<u8>, n: u16)
    ensures
        final(out)@ == old(out)@ + hex_text(n as nat),
    decreases n,
{
    if n >= 16 {
        push_hex_u16(out, n / 16);
    }
    let d: u16 = n % 16;
    if d < 10 {
        out.push(('0' as u8) + d as u8);
    } else {
        out.push(('a' as u8) + (d - 10) as u8);
    }
    proof {
        assert(out@ =~= old(out)@ + hex_text(n as nat));
    }
}

/// Overwrites the front of `buf` with as much of `text` as fits, leaving the
/// remainder of `buf` unchanged: the bounded write primitive behind the
/// fixed-size response buffers. Never fails on overlong input; it simply
/// stops at capacity.
pub fn write_bounded(buf: &mut Vec<u8>, text: &Vec<u8>)
    ensures
        final(buf)@.len() == old(buf)@.len(),
        forall|i: int|
            0 <= i < final(buf)@.len() ==> final(buf)@[i] == (if i < text@.len() {
                text@[i]
            } else {
                old(buf)@[i]
            }),
{
    let mut i: usize = 0;
    while i < buf.len() && i < text.len()
        invariant
            0 <= i <= buf@.len(),
            buf@.len() == old(buf)@.len(),
            i <= text@.len(),
            forall|j: int| 0 <= j < i ==> buf@[j] == text@[j],
            forall|j: int| i <= j < buf@.len() ==> buf@[j] == old(buf)@[j],
        decreases buf@.len() - i,
    {
        let b = text[i];
        buf.set(i, b);
        i = i + 1;
    }
}

} // verus!
