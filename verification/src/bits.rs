//! Bit flags stored in a single byte.

use vstd::prelude::*;

verus! {

/// Whether bit `bit` of `field` is set.
pub open spec fn flag_of(field: u8, bit: u8) -> bool
    recommends
        bit < 8,
{
    (field >> bit) & 1u8 == 1u8
}

/// `field` with bit `bit` set to one.
pub open spec fn with_bit(field: u8, bit: u8) -> u8
    recommends
        bit < 8,
{
    field | (1u8 << bit)
}

/// `field` with bit `bit` set to zero.
pub open spec fn without_bit(field: u8, bit: u8) -> u8
    recommends
        bit < 8,
{
    field & !(1u8 << bit)
}

/// `field` with bit `bit` set to `flag`.
pub open spec fn with_flag(field: u8, bit: u8, flag: bool) -> u8
    recommends
        bit < 8,
{
    if flag {
        with_bit(field, bit)
    } else {
        without_bit(field, bit)
    }
}

/// Reads bit `bit` of `field`.
pub fn get_flag(field: u8, bit: u8) -> (r: bool)
    requires
        bit < 8,
    ensures
        r == flag_of(field, bit),
{
    let r = (field & (1u8 << bit)) >> bit == 1;
    assert(((field & (1u8 << bit)) >> bit == 1u8) == ((field >> bit) & 1u8 == 1u8)) by (bit_vector)
        requires
            bit < 8u8,
    ;
    r
}

/// Returns `field` with bit `bit` set to `flag`, other bits unchanged.
pub fn set_flag(field: u8, bit: u8, flag: bool) -> (r: u8)
    requires
        bit < 8,
    ensures
        r == with_flag(field, bit, flag),
{
    if flag {
        set_bit(field, bit)
    } else {
        reset_bit(field, bit)
    }
}

/// Returns `field` with bit `bit` set to one.
pub fn set_bit(field: u8, bit: u8) -> (r: u8)
    requires
        bit < 8,
    ensures
        r == with_bit(field, bit),
{
    field | 1u8 << bit
}

/// Returns `field` with bit `bit` set to zero.
pub fn reset_bit(field: u8, bit: u8) -> (r: u8)
    requires
        bit < 8,
    ensures
        r == without_bit(field, bit),
{
    field & !(1u8 << bit)
}

/// Writing a flag and reading it back gives the written value; every other
/// bit reads as before.
pub proof fn lemma_flag_write_read(field: u8, bit: u8, other: u8, flag: bool)
    requires
        bit < 8,
        other < 8,
    ensures
        flag_of(with_flag(field, bit, flag), bit) == flag,
        other != bit ==> flag_of(with_flag(field, bit, flag), other) == flag_of(field, other),
{
    assert(bit < 8u8 ==> ((field | (1u8 << bit)) >> bit) & 1u8 == 1u8) by (bit_vector);
    assert(bit < 8u8 ==> ((field & !(1u8 << bit)) >> bit) & 1u8 == 0u8) by (bit_vector);
    assert(bit < 8u8 && other < 8u8 && other != bit ==> ((field | (1u8 << bit)) >> other) & 1u8
        == (field >> other) & 1u8) by (bit_vector);
    assert(bit < 8u8 && other < 8u8 && other != bit ==> ((field & !(1u8 << bit)) >> other) & 1u8
        == (field >> other) & 1u8) by (bit_vector);
}

/// Writing back the value a flag already holds leaves the byte unchanged,
/// and a second write to the same flag overrides the first.
pub proof fn lemma_flag_write_idempotent(field: u8, bit: u8, flag: bool, flag2: bool)
    requires
        bit < 8,
    ensures
        with_flag(field, bit, flag_of(field, bit)) == field,
        with_flag(with_flag(field, bit, flag), bit, flag2) == with_flag(field, bit, flag2),
{
    assert(bit < 8u8 && (field >> bit) & 1u8 == 1u8 ==> field | (1u8 << bit) == field)
        by (bit_vector);
    assert(bit < 8u8 && (field >> bit) & 1u8 != 1u8 ==> field & !(1u8 << bit) == field)
        by (bit_vector);
    assert(bit < 8u8 ==> (field | (1u8 << bit)) | (1u8 << bit) == field | (1u8 << bit))
        by (bit_vector);
    assert(bit < 8u8 ==> (field & !(1u8 << bit)) | (1u8 << bit) == field | (1u8 << bit))
        by (bit_vector);
    assert(bit < 8u8 ==> (field | (1u8 << bit)) & !(1u8 << bit) == field & !(1u8 << bit))
        by (bit_vector);
    assert(bit < 8u8 ==> (field & !(1u8 << bit)) & !(1u8 << bit) == field & !(1u8 << bit))
        by (bit_vector);
}

} // verus!
