//! Little-endian byte strings and the numbers they stand for.
//!
//! Every fixed-width field of a message, and the length prefix of every
//! frame, is a number written as base-256 digits, least significant digit
//! first. Signed numbers are written in two's complement.

use vstd::prelude::*;

verus! {

/// 256 to the power `n`.
pub open spec fn pow256(n: nat) -> nat
    decreases n,
{
    if n == 0 {
        1
    } else {
        256 * pow256((n - 1) as nat)
    }
}

/// The `width` low-order base-256 digits of `value`, least significant first.
pub open spec fn le_bytes(value: nat, width: nat) -> Seq<u8>
    decreases width,
{
    if width == 0 {
        Seq::empty()
    } else {
        seq![(value % 256) as u8] + le_bytes(value / 256, (width - 1) as nat)
    }
}

/// The number whose base-256 digits, least significant first, are `bytes`.
pub open spec fn le_value(bytes: Seq<u8>) -> nat
    decreases bytes.len(),
{
    if bytes.len() == 0 {
        0
    } else {
        bytes[0] as nat + 256 * le_value(bytes.drop_first())
    }
}

/// The unsigned number that stands for `n` in two's complement with `width` bytes.
pub open spec fn to_unsigned(n: int, width: nat) -> nat {
    if n >= 0 {
        n as nat
    } else {
        (n + pow256(width)) as nat
    }
}

/// The signed number that `u` stands for in two's complement with `width` bytes.
pub open spec fn to_signed(u: nat, width: nat) -> int {
    if 2 * u < pow256(width) {
        u as int
    } else {
        u - pow256(width)
    }
}

/// The values of `pow256` at the widths of the fixed-width integers.
pub proof fn lemma_pow256_values()
    ensures
        pow256(0) == 1,
        pow256(1) == 0x100,
        pow256(2) == 0x1_0000,
        pow256(4) == 0x1_0000_0000,
        pow256(8) == 0x1_0000_0000_0000_0000,
        pow256(16) == 0x1_0000_0000_0000_0000_0000_0000_0000_0000,
{
    reveal_with_fuel(pow256, 17);
}

/// `pow256` is positive and does not decrease.
pub proof fn lemma_pow256_monotonic(a: nat, b: nat)
    requires
        a <= b,
    ensures
        0 < pow256(a) <= pow256(b),
    decreases b,
{
    if b == 0 {
    } else if a == b {
        lemma_pow256_monotonic((a - 1) as nat, (b - 1) as nat);
    } else {
        lemma_pow256_monotonic(a, (b - 1) as nat);
    }
}

/// A digit string of `width` digits has `width` bytes.
pub proof fn lemma_le_bytes_len(value: nat, width: nat)
    ensures
        le_bytes(value, width).len() == width,
    decreases width,
{
    if width > 0 {
        lemma_le_bytes_len(value / 256, (width - 1) as nat);
    }
}

/// A digit string of `n` bytes stands for a number below `256^n`.
pub proof fn lemma_le_value_bound(bytes: Seq<u8>)
    ensures
        le_value(bytes) < pow256(bytes.len()),
    decreases bytes.len(),
{
    if bytes.len() > 0 {
        lemma_le_value_bound(bytes.drop_first());
    }
}

/// Reading back the digits of a number that fits in `width` digits gives the number.
pub proof fn lemma_le_value_of_le_bytes(value: nat, width: nat)
    requires
        value < pow256(width),
    ensures
        le_value(le_bytes(value, width)) == value,
    decreases width,
{
    if width > 0 {
        assert(le_bytes(value, width).drop_first() =~= le_bytes(
            value / 256,
            (width - 1) as nat,
        ));
        lemma_le_value_of_le_bytes(value / 256, (width - 1) as nat);
    }
}

/// Writing the number of a digit string with as many digits gives the string back.
pub proof fn lemma_le_bytes_of_le_value(bytes: Seq<u8>)
    ensures
        le_bytes(le_value(bytes), bytes.len()) == bytes,
    decreases bytes.len(),
{
    if bytes.len() > 0 {
        lemma_le_bytes_of_le_value(bytes.drop_first());
    }
}

/// Two's complement is a bijection between the signed and the unsigned range.
pub proof fn lemma_signed_round_trip(n: int, width: nat)
    requires
        -(pow256(width) as int) <= 2 * n < pow256(width),
    ensures
        to_unsigned(n, width) < pow256(width),
        to_signed(to_unsigned(n, width), width) == n,
{
}

/// Appends the `width` low-order digits of `value` to `buf`.
pub fn push_le(buf: &mut Vec<u8>, value: u128, width: usize)
    ensures
        final(buf)@ == old(buf)@ + le_bytes(value as nat, width as nat),
{
    let mut rest: u128 = value;
    let mut done: usize = 0;
    while done < width
        invariant
            done <= width,
            old(buf)@ + le_bytes(value as nat, width as nat) == buf@ + le_bytes(
                rest as nat,
                (width - done) as nat,
            ),
        decreases width - done,
    {
        let digit: u8 = (rest % 256) as u8;
        buf.push(digit);
        rest = rest / 256;
        done = done + 1;
    }
}

/// The number that the `width` bytes of `bytes` from `start` on stand for.
pub fn read_le(bytes: &Vec<u8>, start: usize, width: usize) -> (value: u128)
    requires
        width <= 16,
        start + width <= bytes.len(),
    ensures
        value == le_value(bytes@.subrange(start as int, start + width)),
{
    let mut value: u128 = 0;
    let mut left: usize = width;
    proof {
        lemma_pow256_values();
    }
    while left > 0
        invariant
            left <= width <= 16,
            start + width <= bytes.len(),
            value == le_value(bytes@.subrange(start + left, start + width)),
        decreases left,
    {
        left = left - 1;
        proof {
            let tail = bytes@.subrange(start + left + 1, start + width);
            let whole = bytes@.subrange(start + left, start + width);
            assert(whole.drop_first() =~= tail);
            lemma_le_value_bound(whole);
            lemma_pow256_monotonic(whole.len(), 16);
            lemma_pow256_values();
        }
        value = value * 256 + bytes[start + left] as u128;
    }
    value
}

} // verus!
