//! Fixed-width little-endian values in bytes that were read from the guest.

use vstd::prelude::*;

verus! {

/// The number that `bytes` hold, least significant byte first.
pub open spec fn le_value(bytes: Seq<u8>) -> nat
    decreases bytes.len(),
{
    if bytes.len() == 0 {
        0
    } else {
        (bytes.first() as nat) + 256 * le_value(bytes.drop_first())
    }
}

/// The largest number that `width` bytes can hold, plus one.
pub open spec fn le_bound(width: nat) -> nat
    decreases width,
{
    if width == 0 {
        1
    } else {
        256 * le_bound((width - 1) as nat)
    }
}

/// A number held in bytes lies below the bound of their count.
pub proof fn lemma_le_value_bound(bytes: Seq<u8>)
    ensures
        le_value(bytes) < le_bound(bytes.len()),
    decreases bytes.len(),
{
    if bytes.len() > 0 {
        lemma_le_value_bound(bytes.drop_first());
    }
}

/// Whether `width` bytes at `offset` lie inside `len` bytes.
pub open spec fn in_bounds(len: nat, offset: nat, width: nat) -> bool {
    offset + width <= len
}

/// Reads the little-endian number of `width` bytes at `offset`. There is none
/// where the width is not between one and eight or the bytes do not reach
/// that far.
pub fn read_le(bytes: &[u8], offset: usize, width: usize) -> (value: Option<u64>)
    ensures
        match value {
            Some(value) => 1 <= width <= 8 && in_bounds(
                bytes@.len(),
                offset as nat,
                width as nat,
            ) && value == le_value(bytes@.subrange(offset as int, offset + width)),
            None => !(1 <= width <= 8 && in_bounds(bytes@.len(), offset as nat, width as nat)),
        },
{
    let len = bytes.len();
    if width < 1 || width > 8 || offset > len || width > len - offset {
        return None;
    }
    let ghost field = bytes@.subrange(offset as int, offset + width);
    let mut value: u64 = 0;
    let mut left: usize = width;
    proof {
        assert(field.subrange(width as int, width as int) =~= Seq::<u8>::empty());
    }
    while left > 0
        invariant
            left <= width <= 8,
            len == bytes@.len(),
            offset + width <= len,
            field == bytes@.subrange(offset as int, offset + width),
            value == le_value(field.subrange(left as int, width as int)),
        decreases left,
    {
        left -= 1;
        let byte = bytes[offset + left];
        proof {
            let tail = field.subrange(left + 1, width as int);
            let longer = field.subrange(left as int, width as int);
            assert(longer.drop_first() =~= tail);
            assert(longer.first() == byte);
            lemma_le_value_bound(tail);
            lemma_le_bound_small((width - left - 1) as nat);
        }
        value = value * 256 + byte as u64;
    }
    proof {
        assert(field.subrange(0, width as int) =~= field);
    }
    Some(value)
}

/// The bounds of up to seven bytes, written out.
proof fn lemma_le_bound_small(width: nat)
    requires
        width <= 7,
    ensures
        le_bound(width) <= 0x100_0000_0000_0000,
{
    reveal_with_fuel(le_bound, 9);
}

/// Reads the two-byte little-endian number at `offset`.
pub fn read_u16_le(bytes: &[u8], offset: usize) -> (value: Option<u16>)
    ensures
        match value {
            Some(value) => in_bounds(bytes@.len(), offset as nat, 2) && value == le_value(
                bytes@.subrange(offset as int, offset + 2),
            ),
            None => !in_bounds(bytes@.len(), offset as nat, 2),
        },
{
    match read_le(bytes, offset, 2) {
        Some(value) => {
            proof {
                lemma_le_value_bound(bytes@.subrange(offset as int, offset + 2));
                reveal_with_fuel(le_bound, 3);
            }
            Some(value as u16)
        },
        None => None,
    }
}

/// Reads the four-byte little-endian number at `offset`.
pub fn read_u32_le(bytes: &[u8], offset: usize) -> (value: Option<u32>)
    ensures
        match value {
            Some(value) => in_bounds(bytes@.len(), offset as nat, 4) && value == le_value(
                bytes@.subrange(offset as int, offset + 4),
            ),
            None => !in_bounds(bytes@.len(), offset as nat, 4),
        },
{
    match read_le(bytes, offset, 4) {
        Some(value) => {
            proof {
                lemma_le_value_bound(bytes@.subrange(offset as int, offset + 4));
                reveal_with_fuel(le_bound, 5);
            }
            Some(value as u32)
        },
        None => None,
    }
}

/// Reads the eight-byte little-endian number at `offset`.
pub fn read_u64_le(bytes: &[u8], offset: usize) -> (value: Option<u64>)
    ensures
        match value {
            Some(value) => in_bounds(bytes@.len(), offset as nat, 8) && value == le_value(
                bytes@.subrange(offset as int, offset + 8),
            ),
            None => !in_bounds(bytes@.len(), offset as nat, 8),
        },
{
    read_le(bytes, offset, 8)
}

} // verus!
