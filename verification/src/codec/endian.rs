//! Big-endian numbers of any byte width up to sixteen.
//!
//! A number of `width` bytes goes over the wire as its `width` base-256
//! digits, most significant first; a signed number goes as its two's
//! complement. Everything here is stated over `nat` and `int`, so one proof
//! serves every integer type of the crate.

use crate::cursor::{max_len, mut_contents};
use bytes::{BufMut, BytesMut};
use vstd::prelude::*;
use vstd::slice::slice_subrange;

verus! {

/// 256 to the power of `n`: the number of values that `n` bytes can tell
/// apart.
pub open spec fn pow256(n: nat) -> nat
    decreases n,
{
    if n == 0 {
        1
    } else {
        256 * pow256((n - 1) as nat)
    }
}

/// The number that `bytes` spells in base 256, most significant digit first.
pub open spec fn be_value(bytes: Seq<u8>) -> nat
    decreases bytes.len(),
{
    if bytes.len() == 0 {
        0
    } else {
        256 * be_value(bytes.drop_last()) + bytes.last() as nat
    }
}

/// The `width` low-order base-256 digits of `v`, most significant first.
pub open spec fn be_bytes(v: nat, width: nat) -> Seq<u8>
    decreases width,
{
    if width == 0 {
        Seq::empty()
    } else {
        be_bytes(v / 256, (width - 1) as nat).push((v % 256) as u8)
    }
}

/// Whether `v` can be written in `width` bytes, as a two's complement number
/// if `signed` and as a plain one if not.
pub open spec fn fits(v: int, width: nat, signed: bool) -> bool {
    if signed {
        -pow256(width) <= 2 * v < pow256(width)
    } else {
        0 <= v < pow256(width)
    }
}

/// The `width`-byte pattern that stands for `v`, read as a plain number:
/// `v` itself, or its two's complement if `v` is negative.
pub open spec fn raw_of_int(v: int, width: nat) -> nat {
    if v < 0 {
        (v + pow256(width)) as nat
    } else {
        v as nat
    }
}

/// The number that the `width`-byte pattern `raw` stands for.
pub open spec fn int_of_raw(raw: nat, width: nat, signed: bool) -> int {
    if signed && 2 * raw >= pow256(width) {
        raw - pow256(width)
    } else {
        raw as int
    }
}

/// The powers of 256 that the widths of this crate call for.
pub proof fn lemma_pow256_values()
    ensures
        pow256(0) == 1,
        pow256(1) == 0x100,
        pow256(2) == 0x1_0000,
        pow256(3) == 0x100_0000,
        pow256(4) == 0x1_0000_0000,
        pow256(5) == 0x100_0000_0000,
        pow256(6) == 0x1_0000_0000_0000,
        pow256(7) == 0x100_0000_0000_0000,
        pow256(8) == 0x1_0000_0000_0000_0000,
        pow256(9) == 0x100_0000_0000_0000_0000,
        pow256(10) == 0x1_0000_0000_0000_0000_0000,
        pow256(11) == 0x100_0000_0000_0000_0000_0000,
        pow256(12) == 0x1_0000_0000_0000_0000_0000_0000,
        pow256(13) == 0x100_0000_0000_0000_0000_0000_0000,
        pow256(14) == 0x1_0000_0000_0000_0000_0000_0000_0000,
        pow256(15) == 0x100_0000_0000_0000_0000_0000_0000_0000,
        pow256(16) == u128::MAX + 1,
{
    reveal_with_fuel(pow256, 17);
}

/// No power of 256 is zero.
pub proof fn lemma_pow256_positive(n: nat)
    ensures
        pow256(n) >= 1,
    decreases n,
{
    if n > 0 {
        lemma_pow256_positive((n - 1) as nat);
    }
}

/// `be_bytes` gives exactly `width` digits.
pub proof fn lemma_be_bytes_len(v: nat, width: nat)
    ensures
        be_bytes(v, width).len() == width,
    decreases width,
{
    if width > 0 {
        lemma_be_bytes_len(v / 256, (width - 1) as nat);
    }
}

/// `n` bytes spell a number below 256 to the `n`.
pub proof fn lemma_be_value_bound(bytes: Seq<u8>)
    ensures
        be_value(bytes) < pow256(bytes.len()),
    decreases bytes.len(),
{
    if bytes.len() > 0 {
        lemma_be_value_bound(bytes.drop_last());
    }
}

/// Reading the digits of `v` gives `v` back, if `width` digits are enough
/// for it.
pub proof fn lemma_be_value_of_bytes(v: nat, width: nat)
    requires
        v < pow256(width),
    ensures
        be_value(be_bytes(v, width)) == v,
    decreases width,
{
    if width > 0 {
        let shorter = be_bytes(v / 256, (width - 1) as nat);
        lemma_be_value_of_bytes(v / 256, (width - 1) as nat);
        assert(be_bytes(v, width).drop_last() =~= shorter);
    }
}

/// Writing the number that `bytes` spells, in as many digits, gives `bytes`
/// back.
pub proof fn lemma_be_bytes_of_value(bytes: Seq<u8>)
    ensures
        be_bytes(be_value(bytes), bytes.len()) == bytes,
    decreases bytes.len(),
{
    if bytes.len() > 0 {
        lemma_be_bytes_of_value(bytes.drop_last());
    }
}

/// Zero is written as zero bytes only.
pub proof fn lemma_be_bytes_zero(width: nat)
    ensures
        be_bytes(0, width).len() == width,
        forall|i: int| 0 <= i < width ==> be_bytes(0, width)[i] == 0,
    decreases width,
{
    if width > 0 {
        lemma_be_bytes_zero((width - 1) as nat);
    }
}

/// Reads the first `width` bytes of `buf` as one big-endian number.
pub fn read_be(buf: &[u8], width: usize) -> (raw: u128)
    requires
        width <= 16,
        width <= buf@.len(),
    ensures
        raw == be_value(buf@.subrange(0, width as int)),
        raw < pow256(width as nat),
{
    let mut raw: u128 = 0;
    let mut i: usize = 0;
    while i < width
        invariant
            i <= width <= 16,
            width <= buf@.len(),
            raw == be_value(buf@.subrange(0, i as int)),
            raw < pow256(i as nat),
        decreases width - i,
    {
        proof {
            lemma_pow256_values();
            assert(buf@.subrange(0, i + 1).drop_last() =~= buf@.subrange(0, i as int));
        }
        raw = raw * 256 + buf[i] as u128;
        i += 1;
    }
    raw
}

/// The largest bit pattern of `width` bytes.
pub fn max_raw(width: usize) -> (max: u128)
    requires
        width <= 16,
    ensures
        max + 1 == pow256(width as nat),
{
    let mut max: u128 = 0;
    let mut i: usize = 0;
    while i < width
        invariant
            i <= width <= 16,
            max + 1 == pow256(i as nat),
        decreases width - i,
    {
        proof {
            lemma_pow256_values();
        }
        max = max * 256 + 255;
        i += 1;
    }
    max
}

/// Appends the `width` low-order bytes of `raw` to `buf`, most significant
/// first.
pub fn write_be(raw: u128, width: usize, buf: &mut BytesMut)
    requires
        width <= 16,
        mut_contents(old(buf)).len() + width <= max_len(),
    ensures
        mut_contents(final(buf)) == mut_contents(old(buf)) + be_bytes(raw as nat, width as nat),
{
    let mut digits: [u8; 16] = [0u8; 16];
    let mut rest: u128 = raw;
    let mut i: usize = width;
    while i > 0
        invariant
            i <= width <= 16,
            be_bytes(raw as nat, width as nat) == be_bytes(rest as nat, i as nat) + digits@.subrange(
                16 - width + i,
                16,
            ),
        decreases i,
    {
        i -= 1;
        digits[16 - width + i] = (rest % 256) as u8;
        rest = rest / 256;
    }
    buf.put_slice(slice_subrange(digits.as_slice(), 16 - width, 16));
}

} // verus!
