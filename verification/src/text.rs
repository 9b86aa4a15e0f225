//! The names that the guest keeps in its memory, as text.

use vstd::prelude::*;
use vstd::slice::slice_subrange;

verus! {

/// The text that `String::from_utf16_lossy` makes of 16-bit units.
pub uninterp spec fn utf16_text(units: Seq<u16>) -> Seq<char>;

/// The text that `String::from_utf8_lossy` makes of bytes.
pub uninterp spec fn utf8_text(bytes: Seq<u8>) -> Seq<char>;

/// Decodes 16-bit units with `String::from_utf16_lossy`, which depends on
/// the units alone: the text is the one named for them.
#[verifier::external_body]
fn text_from_utf16(units: &Vec<u16>) -> (text: String)
    ensures
        text@ == utf16_text(units@),
{
    String::from_utf16_lossy(units)
}

/// Decodes bytes with `String::from_utf8_lossy`, which depends on the bytes
/// alone: the text is the one named for them.
#[verifier::external_body]
fn text_from_utf8(bytes: &[u8]) -> (text: String)
    ensures
        text@ == utf8_text(bytes@),
{
    String::from_utf8_lossy(bytes).into_owned()
}

/// The 16-bit units that `bytes` hold, each with its lower byte first. A
/// last byte without a partner is left out.
pub open spec fn units_of(bytes: Seq<u8>) -> Seq<u16> {
    Seq::new(
        (bytes.len() / 2) as nat,
        |i: int| (bytes[2 * i] as int + 256 * (bytes[2 * i + 1] as int)) as u16,
    )
}

/// Puts bytes together to 16-bit units.
pub fn wide_units(bytes: &[u8]) -> (units: Vec<u16>)
    ensures
        units@ == units_of(bytes@),
{
    let len = bytes.len();
    let count = len / 2;
    let mut units: Vec<u16> = Vec::new();
    let mut i: usize = 0;
    while i < count
        invariant
            i <= count,
            len == bytes@.len(),
            2 * count <= len,
            count == bytes@.len() / 2,
            units.len() == i,
            forall|j: int| 0 <= j < i ==> units[j] == units_of(bytes@)[j],
        decreases count - i,
    {
        units.push(bytes[2 * i] as u16 + 256 * (bytes[2 * i + 1] as u16));
        i += 1;
    }
    assert(units@ =~= units_of(bytes@));
    units
}

/// The name that a counted string of the guest holds in `bytes`.
pub fn decode_wide_name(bytes: &[u8]) -> (name: String)
    ensures
        name@ == utf16_text(units_of(bytes@)),
{
    let units = wide_units(bytes);
    text_from_utf16(&units)
}

/// The bytes of `bytes` before the first zero; all of them where none is
/// zero.
pub open spec fn before_zero(bytes: Seq<u8>) -> Seq<u8>
    decreases bytes.len(),
{
    if bytes.len() == 0 || bytes.first() == 0 {
        Seq::empty()
    } else {
        seq![bytes.first()] + before_zero(bytes.drop_first())
    }
}

/// The number of bytes before the first zero.
fn length_before_zero(bytes: &[u8]) -> (length: usize)
    ensures
        length <= bytes@.len(),
        bytes@.subrange(0, length as int) == before_zero(bytes@),
{
    let mut i: usize = 0;
    proof {
        assert(bytes@.subrange(0, bytes@.len() as int) =~= bytes@);
        assert(bytes@.subrange(0, 0) + before_zero(bytes@) =~= before_zero(bytes@));
    }
    while i < bytes.len() && bytes[i] != 0
        invariant
            i <= bytes@.len(),
            before_zero(bytes@) == bytes@.subrange(0, i as int) + before_zero(
                bytes@.subrange(i as int, bytes@.len() as int),
            ),
        decreases bytes.len() - i,
    {
        proof {
            let rest = bytes@.subrange(i as int, bytes@.len() as int);
            assert(rest.drop_first() =~= bytes@.subrange(i + 1, bytes@.len() as int));
            assert(bytes@.subrange(0, i as int) + seq![rest.first()] =~= bytes@.subrange(
                0,
                i + 1,
            ));
            assert(bytes@.subrange(0, i as int) + (seq![rest.first()] + before_zero(
                rest.drop_first(),
            )) =~= bytes@.subrange(0, i as int) + seq![rest.first()] + before_zero(
                rest.drop_first(),
            ));
        }
        i += 1;
    }
    proof {
        let rest = bytes@.subrange(i as int, bytes@.len() as int);
        assert(before_zero(rest) =~= Seq::<u8>::empty());
        assert(bytes@.subrange(0, i as int) + Seq::<u8>::empty() =~= bytes@.subrange(
            0,
            i as int,
        ));
    }
    i
}

/// The name that a zero-ended field of the guest holds in `bytes`.
pub fn decode_narrow_name(bytes: &[u8]) -> (name: String)
    ensures
        name@ == utf8_text(before_zero(bytes@)),
{
    let length = length_before_zero(bytes);
    text_from_utf8(slice_subrange(bytes, 0, length))
}

} // verus!
