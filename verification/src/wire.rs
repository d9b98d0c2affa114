//! Integers as bytes, least or most significant byte first.

use vstd::prelude::*;

verus! {

/// 256 to the power of `n`: the number of values that `n` bytes can hold.
pub open spec fn pow256(n: nat) -> nat
    decreases n,
{
    if n == 0 {
        1
    } else {
        256 * pow256((n - 1) as nat)
    }
}

/// The `width` low bytes of `value`, least significant first.
pub open spec fn le_bytes(value: nat, width: nat) -> Seq<u8>
    decreases width,
{
    if width == 0 {
        Seq::empty()
    } else {
        seq![(value % 256) as u8] + le_bytes(value / 256, (width - 1) as nat)
    }
}

/// The number that `bytes` spell when the first byte is the least
/// significant.
pub open spec fn le_value(bytes: Seq<u8>) -> nat
    decreases bytes.len(),
{
    if bytes.len() == 0 {
        0
    } else {
        bytes[0] as nat + 256 * le_value(bytes.drop_first())
    }
}

/// The `width` low bytes of `value`, most significant first.
pub open spec fn be_bytes(value: nat, width: nat) -> Seq<u8>
    decreases width,
{
    if width == 0 {
        Seq::empty()
    } else {
        be_bytes(value / 256, (width - 1) as nat).push((value % 256) as u8)
    }
}

/// The number that `bytes` spell when the first byte is the most
/// significant.
pub open spec fn be_value(bytes: Seq<u8>) -> nat
    decreases bytes.len(),
{
    if bytes.len() == 0 {
        0
    } else {
        256 * be_value(bytes.drop_last()) + bytes.last() as nat
    }
}

/// More bytes hold at least as many values.
pub proof fn lemma_pow256_grows(small: nat, large: nat)
    requires
        small <= large,
    ensures
        0 < pow256(small) <= pow256(large),
    decreases large,
{
    if large == 0 {
    } else if small == large {
        lemma_pow256_grows((small - 1) as nat, (large - 1) as nat);
    } else {
        lemma_pow256_grows(small, (large - 1) as nat);
    }
}

/// Eight bytes hold the values of a `u64`, sixteen those of a `u128`.
pub proof fn lemma_pow256_values()
    ensures
        pow256(2) == 0x1_0000,
        pow256(4) == 0x1_0000_0000,
        pow256(7) == 0x100_0000_0000_0000,
        pow256(8) == 0x1_0000_0000_0000_0000,
        pow256(15) == 0x100_0000_0000_0000_0000_0000_0000_0000,
        pow256(16) == 0x1_0000_0000_0000_0000_0000_0000_0000_0000,
{
    reveal_with_fuel(pow256, 17);
}

/// A number is written in as many bytes as were asked for.
pub proof fn lemma_bytes_len(value: nat, width: nat)
    ensures
        le_bytes(value, width).len() == width,
        be_bytes(value, width).len() == width,
    decreases width,
{
    if width > 0 {
        lemma_bytes_len(value / 256, (width - 1) as nat);
    }
}

/// Bytes spell a number below the number of values they can hold.
pub proof fn lemma_value_bound(bytes: Seq<u8>)
    ensures
        le_value(bytes) < pow256(bytes.len()),
        be_value(bytes) < pow256(bytes.len()),
    decreases bytes.len(),
{
    if bytes.len() > 0 {
        lemma_value_bound(bytes.drop_first());
        lemma_value_bound(bytes.drop_last());
    }
}

/// A number that fits in `width` bytes is read back from its bytes, in
/// either byte order.
pub proof fn lemma_value_of_bytes(value: nat, width: nat)
    requires
        value < pow256(width),
    ensures
        le_value(le_bytes(value, width)) == value,
        be_value(be_bytes(value, width)) == value,
    decreases width,
{
    if width > 0 {
        let low = (value % 256) as u8;
        let high = value / 256;
        let fewer = (width - 1) as nat;
        lemma_value_of_bytes(high, fewer);
        lemma_bytes_len(high, fewer);
        assert(le_bytes(value, width).drop_first() =~= le_bytes(high, fewer));
        assert(be_bytes(value, width).drop_last() =~= be_bytes(high, fewer));
    }
}

/// Appends the `width` low bytes of `value`, least significant first.
pub fn push_le(out: &mut Vec<u8>, value: u64, width: usize)
    ensures
        final(out)@ == old(out)@ + le_bytes(value as nat, width as nat),
    decreases width,
{
    if width > 0 {
        out.push((value % 256) as u8);
        push_le(out, value / 256, width - 1);
        assert(final(out)@ =~= old(out)@ + le_bytes(value as nat, width as nat));
    } else {
        assert(final(out)@ =~= old(out)@ + le_bytes(value as nat, width as nat));
    }
}

/// Appends the `width` low bytes of `value`, most significant first.
pub fn push_be(out: &mut Vec<u8>, value: u128, width: usize)
    ensures
        final(out)@ == old(out)@ + be_bytes(value as nat, width as nat),
    decreases width,
{
    if width > 0 {
        push_be(out, value / 256, width - 1);
        out.push((value % 256) as u8);
        assert(final(out)@ =~= old(out)@ + be_bytes(value as nat, width as nat));
    } else {
        assert(final(out)@ =~= old(out)@ + be_bytes(value as nat, width as nat));
    }
}

/// Reads the `width` bytes at `at` as a number, least significant first.
pub fn read_le(data: &[u8], at: usize, width: usize) -> (value: u64)
    requires
        width <= 8,
        at + width <= data@.len(),
    ensures
        value == le_value(data@.subrange(at as int, at + width)),
    decreases width,
{
    if width == 0 {
        0
    } else {
        let len: usize = data.len();
        assert(at < len);
        let rest: u64 = read_le(data, at + 1, width - 1);
        proof {
            let bytes = data@.subrange(at as int, at + width);
            assert(bytes.drop_first() =~= data@.subrange(at + 1, at + width));
            lemma_value_bound(bytes.drop_first());
            lemma_pow256_grows((width - 1) as nat, 7);
            lemma_pow256_values();
        }
        data[at] as u64 + 256 * rest
    }
}

/// Reads the `width` bytes at `at` as a number, most significant first.
pub fn read_be(data: &[u8], at: usize, width: usize) -> (value: u128)
    requires
        width <= 16,
        at + width <= data@.len(),
    ensures
        value == be_value(data@.subrange(at as int, at + width)),
    decreases width,
{
    if width == 0 {
        0
    } else {
        let len: usize = data.len();
        assert(at + width <= len);
        let rest: u128 = read_be(data, at, width - 1);
        proof {
            let bytes = data@.subrange(at as int, at + width);
            assert(bytes.drop_last() =~= data@.subrange(at as int, at + width - 1));
            lemma_value_bound(bytes.drop_last());
            lemma_pow256_grows((width - 1) as nat, 15);
            lemma_pow256_values();
        }
        256 * rest + data[at + (width - 1)] as u128
    }
}

} // verus!
