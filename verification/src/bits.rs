//! Single-bit access on machine words, as provided by the `bit_field` crate.
use vstd::prelude::*;
use bit_field::BitField;

verus! {

/// Whether bit `bit` of `x` is one.
pub open spec fn bit_is_set(x: usize, bit: usize) -> bool {
    x & (1usize << bit) != 0
}

/// `x` with bit `bit` forced to `value`.
pub open spec fn with_bit(x: usize, bit: usize, value: bool) -> usize {
    if value {
        x | (1usize << bit)
    } else {
        x & !(1usize << bit)
    }
}

/// Reads one bit through `BitField::get_bit`.
///
/// The crate asserts `bit < BIT_LENGTH` (the width of `usize`) and then
/// returns `(x & (1 << bit)) != 0`; the contract restates exactly that.
#[verifier::external_body]
pub(crate) fn get_bit(x: usize, bit: usize) -> (r: bool)
    requires
        bit < usize::BITS,
    ensures
        r == bit_is_set(x, bit),
{
    x.get_bit(bit)
}

/// Writes one bit through `BitField::set_bit`.
///
/// The crate asserts `bit < BIT_LENGTH` and then ORs in `1 << bit` when
/// `value` holds, or ANDs with its complement otherwise; the contract
/// restates exactly that.
#[verifier::external_body]
pub(crate) fn set_bit(x: &mut usize, bit: usize, value: bool)
    requires
        bit < usize::BITS,
    ensures
        *final(x) == with_bit(*old(x), bit, value),
{
    x.set_bit(bit, value);
}


/// Writing bit `p` changes bit `p` to the written value and no other bit.
pub proof fn lemma_with_bit(x: usize, p: usize, value: bool, b: usize)
    requires
        p < usize::BITS,
        b < usize::BITS,
    ensures
        bit_is_set(with_bit(x, p, value), b) == if b == p { value } else { bit_is_set(x, b) },
{
    if value {
        assert((x | (1usize << p)) & (1usize << b) != 0 <==> (b == p || x & (1usize << b) != 0))
            by (bit_vector)
            requires p < usize::BITS, b < usize::BITS;
    } else {
        assert((x & !(1usize << p)) & (1usize << b) != 0 <==> (b != p && x & (1usize << b) != 0))
            by (bit_vector)
            requires p < usize::BITS, b < usize::BITS;
    }
}

/// The zero word has no bit set.
pub proof fn lemma_zero_no_bits(b: usize)
    requires
        b < usize::BITS,
    ensures
        !bit_is_set(0, b),
{
    assert(0usize & (1usize << b) == 0) by (bit_vector);
}

} // verus!
