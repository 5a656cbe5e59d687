//! Numbers as base-256 digits, in both byte orders, and the copying of
//! byte fields into and out of fixed-size records.

use vstd::prelude::*;

verus! {

/// 256 to the power `width`.
pub open spec fn pow256(width: nat) -> nat
    decreases width,
{
    if width == 0 {
        1
    } else {
        256 * pow256((width - 1) as nat)
    }
}

/// The `width` big-endian base-256 digits of `value`.
pub open spec fn be_bytes(value: nat, width: nat) -> Seq<u8>
    decreases width,
{
    if width == 0 {
        Seq::empty()
    } else {
        be_bytes(value / 256, (width - 1) as nat).push((value % 256) as u8)
    }
}

/// The number whose big-endian base-256 digits are `bytes`.
pub open spec fn be_value(bytes: Seq<u8>) -> nat
    decreases bytes.len(),
{
    if bytes.len() == 0 {
        0
    } else {
        be_value(bytes.drop_last()) * 256 + bytes.last() as nat
    }
}

/// The `width` little-endian base-256 digits of `value`.
pub open spec fn le_bytes(value: nat, width: nat) -> Seq<u8>
    decreases width,
{
    if width == 0 {
        Seq::empty()
    } else {
        seq![(value % 256) as u8] + le_bytes(value / 256, (width - 1) as nat)
    }
}

/// The number whose little-endian base-256 digits are `bytes`.
pub open spec fn le_value(bytes: Seq<u8>) -> nat
    decreases bytes.len(),
{
    if bytes.len() == 0 {
        0
    } else {
        bytes.first() as nat + 256 * le_value(bytes.drop_first())
    }
}

/// The sizes of the numbers of four and of eight bytes.
pub proof fn lemma_pow256_widths()
    ensures
        pow256(4) == 0x1_0000_0000,
        pow256(8) == 0x1_0000_0000_0000_0000,
{
    reveal_with_fuel(pow256, 9);
}

/// The big-endian digits of a number below `pow256(width)` stand for that
/// number.
pub proof fn lemma_be_value_of_be_bytes(value: nat, width: nat)
    requires
        value < pow256(width),
    ensures
        be_bytes(value, width).len() == width,
        be_value(be_bytes(value, width)) == value,
    decreases width,
{
    if width > 0 {
        let rest = be_bytes(value / 256, (width - 1) as nat);
        lemma_be_value_of_be_bytes(value / 256, (width - 1) as nat);
        assert(be_bytes(value, width).drop_last() == rest);
    }
}

/// A number read from big-endian digits is below `pow256` of their count,
/// and its digits are the bytes it was read from.
pub proof fn lemma_be_bytes_of_be_value(bytes: Seq<u8>)
    ensures
        be_value(bytes) < pow256(bytes.len()),
        be_bytes(be_value(bytes), bytes.len()) == bytes,
    decreases bytes.len(),
{
    if bytes.len() > 0 {
        lemma_be_bytes_of_be_value(bytes.drop_last());
    }
}

/// The little-endian digits of a number below `pow256(width)` stand for
/// that number.
pub proof fn lemma_le_value_of_le_bytes(value: nat, width: nat)
    requires
        value < pow256(width),
    ensures
        le_bytes(value, width).len() == width,
        le_value(le_bytes(value, width)) == value,
    decreases width,
{
    if width > 0 {
        let rest = le_bytes(value / 256, (width - 1) as nat);
        lemma_le_value_of_le_bytes(value / 256, (width - 1) as nat);
        assert(le_bytes(value, width).drop_first() == rest);
    }
}

/// A number read from little-endian digits is below `pow256` of their
/// count, and its digits are the bytes it was read from.
pub proof fn lemma_le_bytes_of_le_value(bytes: Seq<u8>)
    ensures
        le_value(bytes) < pow256(bytes.len()),
        le_bytes(le_value(bytes), bytes.len()) == bytes,
    decreases bytes.len(),
{
    if bytes.len() > 0 {
        lemma_le_bytes_of_le_value(bytes.drop_first());
    }
}

/// The eight little-endian bytes of a number.
pub fn u64_to_le(value: u64) -> (bytes: [u8; 8])
    ensures
        bytes@ == le_bytes(value as nat, 8),
{
    let mut bytes = [0u8; 8];
    let mut rest = value;
    let mut i: usize = 0;
    while i < 8
        invariant
            i <= 8,
            le_bytes(value as nat, 8) == bytes@.take(i as int) + le_bytes(
                rest as nat,
                (8 - i) as nat,
            ),
        decreases 8 - i,
    {
        bytes[i] = (rest % 256) as u8;
        rest = rest / 256;
        i += 1;
    }
    bytes
}

/// The number that eight little-endian bytes stand for.
pub fn u64_from_le(bytes: &[u8; 8]) -> (value: u64)
    ensures
        value == le_value(bytes@),
{
    let mut value: u64 = 0;
    let mut i: usize = 8;
    while i > 0
        invariant
            i <= 8,
            value == le_value(bytes@.skip(i as int)),
            value < pow256((8 - i) as nat),
        decreases i,
    {
        proof {
            reveal_with_fuel(pow256, 9);
        }
        i -= 1;
        assert(bytes@.skip(i as int).drop_first() =~= bytes@.skip(i + 1));
        value = value * 256 + bytes[i] as u64;
    }
    assert(bytes@.skip(0) =~= bytes@);
    value
}

/// Copies `source` into `target`, starting at `offset`.
pub fn write_bytes<const N: usize, const M: usize>(
    target: &mut [u8; N],
    offset: usize,
    source: &[u8; M],
)
    requires
        offset + M <= N,
    ensures
        final(target)@ == old(target)@.subrange(0, offset as int) + source@ + old(
            target,
        )@.subrange(offset + M, N as int),
{
    let mut i: usize = 0;
    while i < M
        invariant
            i <= M,
            offset + M <= N,
            forall|j: int| 0 <= j < offset ==> target@[j] == old(target)@[j],
            forall|j: int| offset <= j < offset + i ==> target@[j] == source@[j - offset],
            forall|j: int| offset + i <= j < N ==> target@[j] == old(target)@[j],
        decreases M - i,
    {
        target[offset + i] = source[i];
        i += 1;
    }
}

/// The `M` bytes of `source` that start at `offset`.
pub fn read_bytes<const N: usize, const M: usize>(source: &[u8; N], offset: usize) -> (part: [
    u8;
    M
])
    requires
        offset + M <= N,
    ensures
        part@ == source@.subrange(offset as int, offset + M),
{
    let mut part = [0u8; M];
    let mut i: usize = 0;
    while i < M
        invariant
            i <= M,
            offset + M <= N,
            forall|j: int| 0 <= j < i ==> part@[j] == source@[offset + j],
        decreases M - i,
    {
        part[i] = source[offset + i];
        i += 1;
    }
    part
}

} // verus!
