//! Plain-old-data cells: a byte of flags and little-endian unsigned integers
//! stored as byte arrays (alignment 1, so they can sit anywhere in account data).

use crate::bits::{flag_of, get_flag, set_flag, with_flag};
use crate::le::{
    le_bytes, le_value, lemma_le_bytes_of_value, lemma_le_value_bound, lemma_le_value_of_bytes,
    lemma_le_value_zeros, lemma_pow256_widths, pow256, read_le, write_le,
};
use vstd::prelude::*;

verus! {

broadcast use vstd::array::group_array_axioms;

/// A byte of independent boolean flags; bit 0 is "the" flag of a
/// single-boolean field.
#[derive(Debug, Clone, Copy, PartialEq, Eq, Structural)]
pub struct BitField(u8);

impl BitField {
    /// The raw byte.
    pub closed spec fn raw(self) -> u8 {
        self.0
    }

    /// The bit field whose raw byte is `x`.
    pub closed spec fn spec_from_raw(x: u8) -> Self {
        BitField(x)
    }

    pub broadcast proof fn lemma_raw_from_raw(x: u8)
        ensures
            #[trigger] Self::spec_from_raw(x).raw() == x,
    {
    }

    pub broadcast proof fn lemma_from_raw_raw(self)
        ensures
            #[trigger] Self::spec_from_raw(self.raw()) == self,
    {
    }

    /// Builds a bit field from its raw byte.
    pub fn from_raw(x: u8) -> (r: Self)
        ensures
            r == Self::spec_from_raw(x),
            r.raw() == x,
    {
        BitField(x)
    }

    pub fn get_raw(&self) -> (r: u8)
        ensures
            r == self.raw(),
    {
        self.0
    }

    pub fn set_raw(&mut self, x: u8)
        ensures
            final(self).raw() == x,
    {
        self.0 = x;
    }

    /// Reads flag number `bit`.
    pub fn get_flag(&self, bit: u8) -> (r: bool)
        requires
            bit < 8,
        ensures
            r == flag_of(self.raw(), bit),
    {
        get_flag(self.0, bit)
    }

    /// Writes flag number `bit`, leaving the others as they are.
    pub fn set_flag(&mut self, bit: u8, value: bool)
        requires
            bit < 8,
        ensures
            final(self).raw() == with_flag(old(self).raw(), bit, value),
    {
        self.0 = set_flag(self.0, bit, value);
    }

    /// Reads flag 0.
    pub fn get_bit(&self) -> (r: bool)
        ensures
            r == flag_of(self.raw(), 0),
    {
        get_flag(self.0, 0)
    }

    /// Writes flag 0.
    pub fn set_bit(&mut self, value: bool)
        ensures
            final(self).raw() == with_flag(old(self).raw(), 0, value),
    {
        self.0 = set_flag(self.0, 0, value);
    }
}

impl Default for BitField {
    fn default() -> (r: Self)
        ensures
            r.raw() == 0,
    {
        BitField(0)
    }
}

impl From<bool> for BitField {
    fn from(x: bool) -> (r: Self) {
        if x {
            BitField(1)
        } else {
            BitField(0)
        }
    }
}

impl vstd::std_specs::convert::FromSpecImpl<bool> for BitField {
    open spec fn obeys_from_spec() -> bool {
        true
    }

    open spec fn from_spec(x: bool) -> Self {
        BitField::spec_from_raw(if x { 1u8 } else { 0u8 })
    }
}

/// A `u16` stored as 2 little-endian bytes.
#[derive(Debug, Clone, Copy, PartialEq, Eq)]
pub struct Uint16([u8; 2]);

impl Uint16 {
    /// The stored bytes.
    pub closed spec fn bytes(self) -> Seq<u8> {
        self.0@
    }

    /// The number the bytes encode.
    pub open spec fn value(self) -> nat {
        le_value(self.bytes())
    }

    /// The cell holding exactly the bytes `b`.
    pub closed spec fn spec_from_bytes(b: Seq<u8>) -> Self {
        choose|c: Self| c.bytes() == b
    }

    /// The cell that encodes `x`.
    pub open spec fn spec_from_value(x: u16) -> Self {
        Self::spec_from_bytes(le_bytes(x as nat, 2))
    }

    pub broadcast proof fn lemma_bytes_len(self)
        ensures
            #[trigger] self.bytes().len() == 2,
    {
    }

    pub broadcast proof fn lemma_from_bytes(b: Seq<u8>)
        requires
            b.len() == 2,
        ensures
            #[trigger] Self::spec_from_bytes(b).bytes() == b,
    {
        let a: [u8; 2] = [b[0], b[1]];
        assert(a@ =~= b);
        assert(Uint16(a).bytes() == b);
    }

    pub broadcast proof fn lemma_bytes_injective(self, other: Self)
        requires
            #[trigger] self.bytes() == #[trigger] other.bytes(),
        ensures
            self == other,
    {
        assert(self.0 =~= other.0);
    }

    /// Every cell holds a number of the width, and the cell that encodes
    /// that number is the cell itself.
    pub proof fn lemma_value_roundtrip(self)
        ensures
            self.value() < pow256(2),
            Self::spec_from_value(self.value() as u16) == self,
    {
        lemma_le_value_bound(self.bytes());
        lemma_pow256_widths();
        lemma_le_bytes_of_value(self.bytes());
        Self::lemma_from_bytes(self.bytes());
        Self::spec_from_value(self.value() as u16).lemma_bytes_injective(self);
    }

    /// The cell built from `x` holds `x`.
    pub proof fn lemma_from_value(x: u16)
        ensures
            Self::spec_from_value(x).value() == x,
            Self::spec_from_value(x).bytes() == le_bytes(x as nat, 2),
    {
        lemma_pow256_widths();
        lemma_le_value_of_bytes(x as nat, 2);
        Self::lemma_from_bytes(le_bytes(x as nat, 2));
    }

    fn encode(x: u16) -> (r: [u8; 2])
        ensures
            r@ == le_bytes(x as nat, 2),
    {
        let v = write_le(x as u128, 2);
        let r = [v[0], v[1]];
        assert(r@ =~= v@);
        r
    }

    pub fn get_raw(&self) -> (r: [u8; 2])
        ensures
            r@ == self.bytes(),
    {
        self.0
    }

    pub fn set_raw(&mut self, x: [u8; 2])
        ensures
            final(self).bytes() == x@,
    {
        self.0 = x;
    }

    /// The stored number.
    pub fn get(&self) -> (r: u16)
        ensures
            r == self.value(),
    {
        let s = self.0.as_slice();
        proof {
            assert(s@.subrange(0, 2) =~= self.bytes());
            lemma_le_value_bound(self.bytes());
            lemma_pow256_widths();
        }
        read_le(s, 0, 2) as u16
    }

    /// Stores `x`.
    pub fn set(&mut self, x: u16)
        ensures
            final(self).bytes() == le_bytes(x as nat, 2),
            final(self).value() == x,
    {
        self.0 = Self::encode(x);
        proof {
            lemma_pow256_widths();
            lemma_le_value_of_bytes(x as nat, 2);
        }
    }
}

impl Default for Uint16 {
    fn default() -> (r: Self)
        ensures
            r.value() == 0,
            r.bytes() == Seq::new(2, |i: int| 0u8),
    {
        let r = Uint16([0u8; 2]);
        proof {
            assert(r.bytes() =~= Seq::new(2, |i: int| 0u8));
            lemma_le_value_zeros(r.bytes());
        }
        r
    }
}

impl From<u16> for Uint16 {
    fn from(x: u16) -> (r: Self) {
        let r = Uint16(Self::encode(x));
        proof {
            Self::lemma_from_bytes(le_bytes(x as nat, 2));
            r.lemma_bytes_injective(Self::spec_from_value(x));
        }
        r
    }
}

impl vstd::std_specs::convert::FromSpecImpl<u16> for Uint16 {
    open spec fn obeys_from_spec() -> bool {
        true
    }

    open spec fn from_spec(x: u16) -> Self {
        Self::spec_from_value(x)
    }
}

/// A `u32` stored as 4 little-endian bytes.
#[derive(Debug, Clone, Copy, PartialEq, Eq)]
pub struct Uint32([u8; 4]);

impl Uint32 {
    /// The stored bytes.
    pub closed spec fn bytes(self) -> Seq<u8> {
        self.0@
    }

    /// The number the bytes encode.
    pub open spec fn value(self) -> nat {
        le_value(self.bytes())
    }

    /// The cell holding exactly the bytes `b`.
    pub closed spec fn spec_from_bytes(b: Seq<u8>) -> Self {
        choose|c: Self| c.bytes() == b
    }

    /// The cell that encodes `x`.
    pub open spec fn spec_from_value(x: u32) -> Self {
        Self::spec_from_bytes(le_bytes(x as nat, 4))
    }

    pub broadcast proof fn lemma_bytes_len(self)
        ensures
            #[trigger] self.bytes().len() == 4,
    {
    }

    pub broadcast proof fn lemma_from_bytes(b: Seq<u8>)
        requires
            b.len() == 4,
        ensures
            #[trigger] Self::spec_from_bytes(b).bytes() == b,
    {
        let a: [u8; 4] = [b[0], b[1], b[2], b[3]];
        assert(a@ =~= b);
        assert(Uint32(a).bytes() == b);
    }

    pub broadcast proof fn lemma_bytes_injective(self, other: Self)
        requires
            #[trigger] self.bytes() == #[trigger] other.bytes(),
        ensures
            self == other,
    {
        assert(self.0 =~= other.0);
    }

    /// Every cell holds a number of the width, and the cell that encodes
    /// that number is the cell itself.
    pub proof fn lemma_value_roundtrip(self)
        ensures
            self.value() < pow256(4),
            Self::spec_from_value(self.value() as u32) == self,
    {
        lemma_le_value_bound(self.bytes());
        lemma_pow256_widths();
        lemma_le_bytes_of_value(self.bytes());
        Self::lemma_from_bytes(self.bytes());
        Self::spec_from_value(self.value() as u32).lemma_bytes_injective(self);
    }

    /// The cell built from `x` holds `x`.
    pub proof fn lemma_from_value(x: u32)
        ensures
            Self::spec_from_value(x).value() == x,
            Self::spec_from_value(x).bytes() == le_bytes(x as nat, 4),
    {
        lemma_pow256_widths();
        lemma_le_value_of_bytes(x as nat, 4);
        Self::lemma_from_bytes(le_bytes(x as nat, 4));
    }

    fn encode(x: u32) -> (r: [u8; 4])
        ensures
            r@ == le_bytes(x as nat, 4),
    {
        let v = write_le(x as u128, 4);
        let r = [v[0], v[1], v[2], v[3]];
        assert(r@ =~= v@);
        r
    }

    pub fn get_raw(&self) -> (r: [u8; 4])
        ensures
            r@ == self.bytes(),
    {
        self.0
    }

    pub fn set_raw(&mut self, x: [u8; 4])
        ensures
            final(self).bytes() == x@,
    {
        self.0 = x;
    }

    /// The stored number.
    pub fn get(&self) -> (r: u32)
        ensures
            r == self.value(),
    {
        let s = self.0.as_slice();
        proof {
            assert(s@.subrange(0, 4) =~= self.bytes());
            lemma_le_value_bound(self.bytes());
            lemma_pow256_widths();
        }
        read_le(s, 0, 4) as u32
    }

    /// Stores `x`.
    pub fn set(&mut self, x: u32)
        ensures
            final(self).bytes() == le_bytes(x as nat, 4),
            final(self).value() == x,
    {
        self.0 = Self::encode(x);
        proof {
            lemma_pow256_widths();
            lemma_le_value_of_bytes(x as nat, 4);
        }
    }
}

impl Default for Uint32 {
    fn default() -> (r: Self)
        ensures
            r.value() == 0,
            r.bytes() == Seq::new(4, |i: int| 0u8),
    {
        let r = Uint32([0u8; 4]);
        proof {
            assert(r.bytes() =~= Seq::new(4, |i: int| 0u8));
            lemma_le_value_zeros(r.bytes());
        }
        r
    }
}

impl From<u32> for Uint32 {
    fn from(x: u32) -> (r: Self) {
        let r = Uint32(Self::encode(x));
        proof {
            Self::lemma_from_bytes(le_bytes(x as nat, 4));
            r.lemma_bytes_injective(Self::spec_from_value(x));
        }
        r
    }
}

impl vstd::std_specs::convert::FromSpecImpl<u32> for Uint32 {
    open spec fn obeys_from_spec() -> bool {
        true
    }

    open spec fn from_spec(x: u32) -> Self {
        Self::spec_from_value(x)
    }
}

/// A `u64` stored as 8 little-endian bytes.
#[derive(Debug, Clone, Copy, PartialEq, Eq)]
pub struct Uint64([u8; 8]);

impl Uint64 {
    /// The stored bytes.
    pub closed spec fn bytes(self) -> Seq<u8> {
        self.0@
    }

    /// The number the bytes encode.
    pub open spec fn value(self) -> nat {
        le_value(self.bytes())
    }

    /// The cell holding exactly the bytes `b`.
    pub closed spec fn spec_from_bytes(b: Seq<u8>) -> Self {
        choose|c: Self| c.bytes() == b
    }

    /// The cell that encodes `x`.
    pub open spec fn spec_from_value(x: u64) -> Self {
        Self::spec_from_bytes(le_bytes(x as nat, 8))
    }

    pub broadcast proof fn lemma_bytes_len(self)
        ensures
            #[trigger] self.bytes().len() == 8,
    {
    }

    pub broadcast proof fn lemma_from_bytes(b: Seq<u8>)
        requires
            b.len() == 8,
        ensures
            #[trigger] Self::spec_from_bytes(b).bytes() == b,
    {
        let a: [u8; 8] = [b[0], b[1], b[2], b[3], b[4], b[5], b[6], b[7]];
        assert(a@ =~= b);
        assert(Uint64(a).bytes() == b);
    }

    pub broadcast proof fn lemma_bytes_injective(self, other: Self)
        requires
            #[trigger] self.bytes() == #[trigger] other.bytes(),
        ensures
            self == other,
    {
        assert(self.0 =~= other.0);
    }

    /// Every cell holds a number of the width, and the cell that encodes
    /// that number is the cell itself.
    pub proof fn lemma_value_roundtrip(self)
        ensures
            self.value() < pow256(8),
            Self::spec_from_value(self.value() as u64) == self,
    {
        lemma_le_value_bound(self.bytes());
        lemma_pow256_widths();
        lemma_le_bytes_of_value(self.bytes());
        Self::lemma_from_bytes(self.bytes());
        Self::spec_from_value(self.value() as u64).lemma_bytes_injective(self);
    }

    /// The cell built from `x` holds `x`.
    pub proof fn lemma_from_value(x: u64)
        ensures
            Self::spec_from_value(x).value() == x,
            Self::spec_from_value(x).bytes() == le_bytes(x as nat, 8),
    {
        lemma_pow256_widths();
        lemma_le_value_of_bytes(x as nat, 8);
        Self::lemma_from_bytes(le_bytes(x as nat, 8));
    }

    fn encode(x: u64) -> (r: [u8; 8])
        ensures
            r@ == le_bytes(x as nat, 8),
    {
        let v = write_le(x as u128, 8);
        let r = [v[0], v[1], v[2], v[3], v[4], v[5], v[6], v[7]];
        assert(r@ =~= v@);
        r
    }

    pub fn get_raw(&self) -> (r: [u8; 8])
        ensures
            r@ == self.bytes(),
    {
        self.0
    }

    pub fn set_raw(&mut self, x: [u8; 8])
        ensures
            final(self).bytes() == x@,
    {
        self.0 = x;
    }

    /// The stored number.
    pub fn get(&self) -> (r: u64)
        ensures
            r == self.value(),
    {
        let s = self.0.as_slice();
        proof {
            assert(s@.subrange(0, 8) =~= self.bytes());
            lemma_le_value_bound(self.bytes());
            lemma_pow256_widths();
        }
        read_le(s, 0, 8) as u64
    }

    /// Stores `x`.
    pub fn set(&mut self, x: u64)
        ensures
            final(self).bytes() == le_bytes(x as nat, 8),
            final(self).value() == x,
    {
        self.0 = Self::encode(x);
        proof {
            lemma_pow256_widths();
            lemma_le_value_of_bytes(x as nat, 8);
        }
    }
}

impl Default for Uint64 {
    fn default() -> (r: Self)
        ensures
            r.value() == 0,
            r.bytes() == Seq::new(8, |i: int| 0u8),
    {
        let r = Uint64([0u8; 8]);
        proof {
            assert(r.bytes() =~= Seq::new(8, |i: int| 0u8));
            lemma_le_value_zeros(r.bytes());
        }
        r
    }
}

impl From<u64> for Uint64 {
    fn from(x: u64) -> (r: Self) {
        let r = Uint64(Self::encode(x));
        proof {
            Self::lemma_from_bytes(le_bytes(x as nat, 8));
            r.lemma_bytes_injective(Self::spec_from_value(x));
        }
        r
    }
}

impl vstd::std_specs::convert::FromSpecImpl<u64> for Uint64 {
    open spec fn obeys_from_spec() -> bool {
        true
    }

    open spec fn from_spec(x: u64) -> Self {
        Self::spec_from_value(x)
    }
}

/// A `u128` stored as 16 little-endian bytes.
#[derive(Debug, Clone, Copy, PartialEq, Eq)]
pub struct Uint128([u8; 16]);

impl Uint128 {
    /// The stored bytes.
    pub closed spec fn bytes(self) -> Seq<u8> {
        self.0@
    }

    /// The number the bytes encode.
    pub open spec fn value(self) -> nat {
        le_value(self.bytes())
    }

    /// The cell holding exactly the bytes `b`.
    pub closed spec fn spec_from_bytes(b: Seq<u8>) -> Self {
        choose|c: Self| c.bytes() == b
    }

    /// The cell that encodes `x`.
    pub open spec fn spec_from_value(x: u128) -> Self {
        Self::spec_from_bytes(le_bytes(x as nat, 16))
    }

    pub broadcast proof fn lemma_bytes_len(self)
        ensures
            #[trigger] self.bytes().len() == 16,
    {
    }

    pub broadcast proof fn lemma_from_bytes(b: Seq<u8>)
        requires
            b.len() == 16,
        ensures
            #[trigger] Self::spec_from_bytes(b).bytes() == b,
    {
        let a: [u8; 16] = [b[0], b[1], b[2], b[3], b[4], b[5], b[6], b[7], b[8], b[9], b[10], b[11], b[12], b[13], b[14], b[15]];
        assert(a@ =~= b);
        assert(Uint128(a).bytes() == b);
    }

    pub broadcast proof fn lemma_bytes_injective(self, other: Self)
        requires
            #[trigger] self.bytes() == #[trigger] other.bytes(),
        ensures
            self == other,
    {
        assert(self.0 =~= other.0);
    }

    /// Every cell holds a number of the width, and the cell that encodes
    /// that number is the cell itself.
    pub proof fn lemma_value_roundtrip(self)
        ensures
            self.value() < pow256(16),
            Self::spec_from_value(self.value() as u128) == self,
    {
        lemma_le_value_bound(self.bytes());
        lemma_pow256_widths();
        lemma_le_bytes_of_value(self.bytes());
        Self::lemma_from_bytes(self.bytes());
        Self::spec_from_value(self.value() as u128).lemma_bytes_injective(self);
    }

    /// The cell built from `x` holds `x`.
    pub proof fn lemma_from_value(x: u128)
        ensures
            Self::spec_from_value(x).value() == x,
            Self::spec_from_value(x).bytes() == le_bytes(x as nat, 16),
    {
        lemma_pow256_widths();
        lemma_le_value_of_bytes(x as nat, 16);
        Self::lemma_from_bytes(le_bytes(x as nat, 16));
    }

    fn encode(x: u128) -> (r: [u8; 16])
        ensures
            r@ == le_bytes(x as nat, 16),
    {
        let v = write_le(x as u128, 16);
        let r = [v[0], v[1], v[2], v[3], v[4], v[5], v[6], v[7], v[8], v[9], v[10], v[11], v[12], v[13], v[14], v[15]];
        assert(r@ =~= v@);
        r
    }

    pub fn get_raw(&self) -> (r: [u8; 16])
        ensures
            r@ == self.bytes(),
    {
        self.0
    }

    pub fn set_raw(&mut self, x: [u8; 16])
        ensures
            final(self).bytes() == x@,
    {
        self.0 = x;
    }

    /// The stored number.
    pub fn get(&self) -> (r: u128)
        ensures
            r == self.value(),
    {
        let s = self.0.as_slice();
        proof {
            assert(s@.subrange(0, 16) =~= self.bytes());
            lemma_le_value_bound(self.bytes());
            lemma_pow256_widths();
        }
        read_le(s, 0, 16) as u128
    }

    /// Stores `x`.
    pub fn set(&mut self, x: u128)
        ensures
            final(self).bytes() == le_bytes(x as nat, 16),
            final(self).value() == x,
    {
        self.0 = Self::encode(x);
        proof {
            lemma_pow256_widths();
            lemma_le_value_of_bytes(x as nat, 16);
        }
    }
}

impl Default for Uint128 {
    fn default() -> (r: Self)
        ensures
            r.value() == 0,
            r.bytes() == Seq::new(16, |i: int| 0u8),
    {
        let r = Uint128([0u8; 16]);
        proof {
            assert(r.bytes() =~= Seq::new(16, |i: int| 0u8));
            lemma_le_value_zeros(r.bytes());
        }
        r
    }
}

impl From<u128> for Uint128 {
    fn from(x: u128) -> (r: Self) {
        let r = Uint128(Self::encode(x));
        proof {
            Self::lemma_from_bytes(le_bytes(x as nat, 16));
            r.lemma_bytes_injective(Self::spec_from_value(x));
        }
        r
    }
}

impl vstd::std_specs::convert::FromSpecImpl<u128> for Uint128 {
    open spec fn obeys_from_spec() -> bool {
        true
    }

    open spec fn from_spec(x: u128) -> Self {
        Self::spec_from_value(x)
    }
}

} // verus!
