//! Byte-level building blocks of the fixed account and instruction layouts:
//! appending field bytes and reading fields back at an offset.

use crate::pubkey::Pubkey;
use crate::types::{BitField, Uint32, Uint64};
use vstd::prelude::*;

verus! {

broadcast use vstd::array::group_array_axioms;

/// A size of a fixed layout, in bytes.
pub trait DataLen {
    /// Number of bytes of the layout.
    spec fn spec_data_len() -> nat;

    /// Number of bytes of the layout.
    fn data_len() -> (r: usize)
        ensures
            r == Self::spec_data_len(),
    ;
}

/// Space an account of a fixed layout occupies.
pub trait Space {
    fn get_space() -> (r: usize);
}

/// Bytes a value of layout `T` occupies.
pub fn get_space<T: DataLen>() -> (r: usize)
    ensures
        r == T::spec_data_len(),
{
    T::data_len()
}

/// Appends `bytes` to `out`.
pub fn append_bytes(out: &mut Vec<u8>, bytes: &[u8])
    ensures
        final(out)@ == old(out)@ + bytes@,
{
    let ghost start = out@;
    let mut i: usize = 0;
    while i < bytes.len()
        invariant
            0 <= i <= bytes@.len(),
            out@ == start + bytes@.take(i as int),
        decreases bytes@.len() - i,
    {
        out.push(bytes[i]);
        proof {
            assert(bytes@.take(i + 1) =~= bytes@.take(i as int).push(bytes@[i as int]));
        }
        i = i + 1;
    }
    assert(bytes@.take(bytes@.len() as int) =~= bytes@);
}

/// The address stored at `data[off..off + 32]`.
pub fn read_pubkey(data: &[u8], off: usize) -> (r: Pubkey)
    requires
        off + 32 <= data@.len(),
    ensures
        r@ == data@.subrange(off as int, off + 32),
{
    let mut k = [0u8; 32];
    let mut i: usize = 0;
    while i < 32
        invariant
            0 <= i <= 32,
            off + 32 <= data.len(),
            k@.len() == 32,
            forall|j: int| 0 <= j < i ==> k@[j] == data@[off + j],
        decreases 32 - i,
    {
        k[i] = data[off + i];
        i = i + 1;
    }
    assert(k@ =~= data@.subrange(off as int, off + 32));
    k
}

/// The flag byte stored at `data[off]`.
pub fn read_bit_field(data: &[u8], off: usize) -> (r: BitField)
    requires
        off < data@.len(),
    ensures
        r.raw() == data@[off as int],
{
    BitField::from_raw(data[off])
}

/// The `u32` cell stored at `data[off..off + 4]`.
pub fn read_uint32(data: &[u8], off: usize) -> (r: Uint32)
    requires
        off + 4 <= data@.len(),
    ensures
        r.bytes() == data@.subrange(off as int, off + 4),
{
    let a: [u8; 4] = [data[off], data[off + 1], data[off + 2], data[off + 3]];
    let mut r = Uint32::default();
    r.set_raw(a);
    assert(a@ =~= data@.subrange(off as int, off + 4));
    r
}

/// The `u64` cell stored at `data[off..off + 8]`.
pub fn read_uint64(data: &[u8], off: usize) -> (r: Uint64)
    requires
        off + 8 <= data@.len(),
    ensures
        r.bytes() == data@.subrange(off as int, off + 8),
{
    let a: [u8; 8] = [
        data[off],
        data[off + 1],
        data[off + 2],
        data[off + 3],
        data[off + 4],
        data[off + 5],
        data[off + 6],
        data[off + 7],
    ];
    let mut r = Uint64::default();
    r.set_raw(a);
    assert(a@ =~= data@.subrange(off as int, off + 8));
    r
}

/// Appends the bytes of a `u32` cell.
pub fn append_uint32(out: &mut Vec<u8>, x: &Uint32)
    ensures
        final(out)@ == old(out)@ + x.bytes(),
{
    let a = x.get_raw();
    append_bytes(out, a.as_slice());
}

/// Appends the bytes of a `u64` cell.
pub fn append_uint64(out: &mut Vec<u8>, x: &Uint64)
    ensures
        final(out)@ == old(out)@ + x.bytes(),
{
    let a = x.get_raw();
    append_bytes(out, a.as_slice());
}

/// Appends an address.
pub fn append_pubkey(out: &mut Vec<u8>, k: &Pubkey)
    ensures
        final(out)@ == old(out)@ + k@,
{
    append_bytes(out, k.as_slice());
}

/// The 4096 bytes stored at `data[off..off + 4096]`.
pub fn read_array_4096(data: &[u8], off: usize) -> (r: [u8; 4096])
    requires
        off + 4096 <= data.len(),
    ensures
        r@ == data@.subrange(off as int, off + 4096),
{
    let mut a = [0u8; 4096];
    let mut i: usize = 0;
    while i < 4096
        invariant
            0 <= i <= 4096,
            off + 4096 <= data.len(),
            a@.len() == 4096,
            forall|j: int| 0 <= j < i ==> a@[j] == data@[off + j],
        decreases 4096 - i,
    {
        a[i] = data[off + i];
        i = i + 1;
    }
    assert(a@ =~= data@.subrange(off as int, off + 4096));
    a
}

/// Writes `bytes` at the start of `data`, leaving the rest as it was;
/// fails with `InvalidInstructionData`, writing nothing, when they don't fit.
pub fn write_prefix(data: &mut [u8], bytes: &[u8]) -> (r: crate::error::Result<()>)
    ensures
        r is Ok <==> bytes@.len() <= old(data)@.len(),
        r is Ok ==> final(data)@ == bytes@ + old(data)@.skip(bytes@.len() as int),
        r is Err ==> final(data)@ == old(data)@ && r == Err::<(), crate::error::ProgramError>(
            crate::error::ProgramError::InvalidInstructionData,
        ),
{
    if bytes.len() > data.len() {
        return Err(crate::error::ProgramError::InvalidInstructionData);
    }
    let ghost start = data@;
    let mut i: usize = 0;
    while i < bytes.len()
        invariant
            0 <= i <= bytes@.len(),
            bytes@.len() <= data@.len(),
            data@.len() == start.len(),
            forall|j: int| 0 <= j < i ==> data@[j] == bytes@[j],
            forall|j: int| i <= j < data@.len() ==> data@[j] == start[j],
        decreases bytes@.len() - i,
    {
        data[i] = bytes[i];
        i = i + 1;
    }
    assert(data@ =~= bytes@ + start.skip(bytes@.len() as int));
    Ok(())
}

} // verus!
