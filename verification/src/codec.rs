//! Byte-level readers and writers for instruction data: little-endian
//! integers, booleans, length-prefixed strings and vectors, options, arrays.

use crate::error::{ProgramError, Result};
use crate::guards::check_ix_data_len;
use crate::layout::read_pubkey;
use crate::pubkey::Pubkey;
use crate::le::{
    le_bytes, le_value, lemma_le_bytes_trunc, lemma_le_value_bound, lemma_pow256_widths, read_le,
    write_le,
};
use vstd::string::StringSliceAdditionalSpecFns;
use vstd::prelude::*;
use vstd::utf8::{decode_utf8, encode_utf8, valid_utf8};

verus! {

broadcast use vstd::utf8::encode_utf8_decode_utf8;

/// The `n`-byte little-endian number at `data[start..start + n]`.
pub open spec fn num_at(data: Seq<u8>, start: int, n: int) -> nat {
    le_value(data.subrange(start, start + n))
}

/// The bytes of a length-prefixed string at `start`: a `u32` length, then
/// that many bytes.
pub open spec fn string_body(data: Seq<u8>, start: int) -> Seq<u8> {
    data.subrange(start + 4, start + 4 + num_at(data, start, 4))
}

/// Reads a `u128` of `n <= 16` bytes; the caller narrows it.
fn read_num(data: &[u8], start: usize, n: usize) -> (r: u128)
    requires
        n <= 16,
        start + n <= data.len(),
    ensures
        r == num_at(data@, start as int, n as int),
        r < crate::le::pow256(n as nat),
{
    proof {
        lemma_le_value_bound(data@.subrange(start as int, start + n));
    }
    read_le(data, start, n)
}

/// Boolean (1 byte: 0 = false, anything else = true).
pub fn to_bool(data: &[u8], start_index: usize) -> (r: Result<(bool, usize)>)
    requires
        start_index < data@.len(),
    ensures
        r matches Ok((v, e)) && v == (data@[start_index as int] != 0) && e == start_index + 1,
{
    let value = data[start_index] != 0;
    Ok((value, start_index + 1))
}

/// `u8` (1 byte).
pub fn to_u8(data: &[u8], start_index: usize) -> (r: Result<(u8, usize)>)
    requires
        start_index < data@.len(),
    ensures
        r matches Ok((v, e)) && v == data@[start_index as int] && e == start_index + 1,
{
    Ok((data[start_index], start_index + 1))
}

/// `u16` (2 bytes, little-endian).
pub fn to_u16(data: &[u8], start_index: usize) -> (r: Result<(u16, usize)>)
    requires
        start_index + 2 <= data.len(),
    ensures
        r matches Ok((v, e)) && v == num_at(data@, start_index as int, 2) && e == start_index + 2,
{
    proof {
        lemma_pow256_widths();
    }
    let v = read_num(data, start_index, 2) as u16;
    Ok((v, start_index + 2))
}

/// `u32` (4 bytes, little-endian).
pub fn to_u32(data: &[u8], start_index: usize) -> (r: Result<(u32, usize)>)
    requires
        start_index + 4 <= data.len(),
    ensures
        r matches Ok((v, e)) && v == num_at(data@, start_index as int, 4) && e == start_index + 4,
{
    proof {
        lemma_pow256_widths();
    }
    let v = read_num(data, start_index, 4) as u32;
    Ok((v, start_index + 4))
}

/// `u64` (8 bytes, little-endian).
pub fn to_u64(data: &[u8], start_index: usize) -> (r: Result<(u64, usize)>)
    requires
        start_index + 8 <= data.len(),
    ensures
        r matches Ok((v, e)) && v == num_at(data@, start_index as int, 8) && e == start_index + 8,
{
    proof {
        lemma_pow256_widths();
    }
    let v = read_num(data, start_index, 8) as u64;
    Ok((v, start_index + 8))
}

/// `u128` (16 bytes, little-endian).
pub fn to_u128(data: &[u8], start_index: usize) -> (r: Result<(u128, usize)>)
    requires
        start_index + 16 <= data.len(),
    ensures
        r matches Ok((v, e)) && v == num_at(data@, start_index as int, 16) && e == start_index + 16,
{
    proof {
        lemma_pow256_widths();
    }
    let v = read_num(data, start_index, 16);
    Ok((v, start_index + 16))
}

/// Address (32 bytes).
pub fn to_pubkey(data: &[u8], start_index: usize) -> (r: Result<(Pubkey, usize)>)
    requires
        start_index + 32 <= data.len(),
    ensures
        r matches Ok((v, e)) && v@ == data@.subrange(start_index as int, start_index + 32) && e
            == start_index + 32,
{
    let value = read_pubkey(data, start_index);
    Ok((value, start_index + 32))
}

/// `String::from_utf8`: succeeds exactly on valid UTF-8, and the string it
/// gives has the vector as its UTF-8 bytes.
#[verifier::external_body]
fn string_from_utf8(v: Vec<u8>) -> (r: Option<String>)
    ensures
        r is Some <==> valid_utf8(v@),
        r matches Some(s) ==> encode_utf8(s@) == v@,
{
    String::from_utf8(v).ok()
}

/// String: a `u32` byte length, then that many UTF-8 bytes.
pub fn to_string(data: &[u8], start_index: usize) -> (r: Result<(String, usize)>)
    requires
        start_index + 4 + num_at(data@, start_index as int, 4) <= data.len(),
    ensures
        r is Ok <==> valid_utf8(string_body(data@, start_index as int)),
        r matches Ok((s, e)) ==> s@ == decode_utf8(string_body(data@, start_index as int)) && e
            == start_index + 4 + num_at(data@, start_index as int, 4),
        r matches Err(e) ==> e == ProgramError::InvalidInstructionData,
{
    let (length, _) = to_u32(data, start_index)?;
    let content_start = start_index + 4;
    let content_end = content_start + length as usize;
    let bytes = vstd::slice::slice_to_vec(vstd::slice::slice_subrange(data, content_start, content_end));
    match string_from_utf8(bytes) {
        Some(s) => Ok((s, content_end)),
        None => Err(ProgramError::InvalidInstructionData),
    }
}

/// `items` are what `parser` can give, call after call, starting at `start`
/// and ending at `end`.
pub open spec fn parses_as<V, P: Fn(&[u8], usize) -> Result<(V, usize)>>(
    parser: P,
    data: &[u8],
    start: usize,
    items: Seq<V>,
    end: usize,
) -> bool
    decreases items.len(),
{
    if items.len() == 0 {
        start == end
    } else {
        exists|mid: usize|
            #[trigger] call_ensures(parser, (data, start), Ok((items[0], mid))) && parses_as(
                parser,
                data,
                mid,
                items.drop_first(),
                end,
            )
    }
}

/// `k` successive calls of `parser`, starting at `start`, each at the
/// position the previous one returned, all meet the parser's precondition.
pub open spec fn parser_safe<V, P: Fn(&[u8], usize) -> Result<(V, usize)>>(
    parser: P,
    data: &[u8],
    start: usize,
    k: nat,
) -> bool
    decreases k,
{
    k == 0 || (call_requires(parser, (data, start)) && forall|v: V, e: usize|
        #[trigger] call_ensures(parser, (data, start), Ok((v, e))) ==> parser_safe(
            parser,
            data,
            e,
            (k - 1) as nat,
        ))
}

/// One more successful call extends a chain of successful calls.
pub proof fn lemma_parses_as_push<V, P: Fn(&[u8], usize) -> Result<(V, usize)>>(
    parser: P,
    data: &[u8],
    start: usize,
    items: Seq<V>,
    mid: usize,
    item: V,
    end: usize,
)
    requires
        parses_as(parser, data, start, items, mid),
        call_ensures(parser, (data, mid), Ok((item, end))),
    ensures
        parses_as(parser, data, start, items.push(item), end),
    decreases items.len(),
{
    if items.len() == 0 {
        assert(items.push(item).drop_first() =~= Seq::<V>::empty());
        assert(parses_as(parser, data, end, Seq::<V>::empty(), end));
        assert(items.push(item)[0] == item);
        assert(call_ensures(parser, (data, start), Ok((items.push(item)[0], end))));
    } else {
        let m = choose|m: usize|
            #[trigger] call_ensures(parser, (data, start), Ok((items[0], m))) && parses_as(
                parser,
                data,
                m,
                items.drop_first(),
                mid,
            );
        lemma_parses_as_push(parser, data, m, items.drop_first(), mid, item, end);
        assert(items.push(item).drop_first() =~= items.drop_first().push(item));
        assert(items.push(item)[0] == items[0]);
        assert(call_ensures(parser, (data, start), Ok((items.push(item)[0], m))));
    }
}

/// `Vec<T>` of fixed-size items: a `u32` count, then the items, each read by
/// `item_parser` where the previous one ended.
pub fn to_vec_fixed<T, F>(data: &[u8], start_index: usize, item_parser: F) -> (r: Result<
    (Vec<T>, usize),
>) where F: Fn(&[u8], usize) -> Result<(T, usize)>
    requires
        start_index + 4 <= data.len(),
        parser_safe(item_parser, data, (start_index + 4) as usize, num_at(data@, start_index as int, 4)),
    ensures
        r matches Ok((v, e)) ==> v@.len() == num_at(data@, start_index as int, 4) && parses_as(
            item_parser,
            data,
            (start_index + 4) as usize,
            v@,
            e,
        ),
        r matches Err(err) ==> exists|items: Seq<T>, mid: usize|
            items.len() < num_at(data@, start_index as int, 4) && #[trigger] parses_as(
                item_parser,
                data,
                (start_index + 4) as usize,
                items,
                mid,
            ) && call_ensures(item_parser, (data, mid), Err(err)),
{
    let (length, mut current_index) = to_u32(data, start_index)?;
    let mut vec: Vec<T> = Vec::with_capacity(length as usize);
    let mut i: u32 = 0;
    while i < length
        invariant
            i <= length,
            length == num_at(data@, start_index as int, 4),
            vec@.len() == i,
            parses_as(item_parser, data, (start_index + 4) as usize, vec@, current_index),
            parser_safe(item_parser, data, current_index, (length - i) as nat),
        decreases length - i,
    {
        let ghost before = vec@;
        let res = item_parser(data, current_index);
        match res {
            Ok((item, end_index)) => {
                proof {
                    lemma_parses_as_push(
                        item_parser,
                        data,
                        (start_index + 4) as usize,
                        before,
                        current_index,
                        item,
                        end_index,
                    );
                }
                vec.push(item);
                current_index = end_index;
            },
            Err(e) => {
                assert(parses_as(item_parser, data, (start_index + 4) as usize, before, current_index));
                return Err(e);
            },
        }
        i = i + 1;
    }
    Ok((vec, current_index))
}

/// `Option<T>`: a flag byte (0 = none), then the value when present.
pub fn to_option<T, F>(data: &[u8], start_index: usize, item_parser: F) -> (r: Result<
    (Option<T>, usize),
>) where F: Fn(&[u8], usize) -> Result<(T, usize)>
    requires
        start_index < data.len(),
        data@[start_index as int] != 0 ==> call_requires(
            item_parser,
            (data, (start_index + 1) as usize),
        ),
    ensures
        data@[start_index as int] == 0 ==> (r matches Ok((v, e)) && v is None && e == start_index
            + 1),
        data@[start_index as int] != 0 ==> match r {
            Ok((Some(v), e)) => call_ensures(
                item_parser,
                (data, (start_index + 1) as usize),
                Ok((v, e)),
            ),
            Ok((None, _)) => false,
            Err(err) => call_ensures(item_parser, (data, (start_index + 1) as usize), Err(err)),
        },
{
    let (is_some, next_index) = to_bool(data, start_index)?;
    if is_some {
        let (value, new_index) = item_parser(data, next_index)?;
        Ok((Some(value), new_index))
    } else {
        Ok((None, next_index))
    }
}

/// `[T; N]`: exactly `N` items read one after the other, no count prefix.
pub fn to_array<T, F, const N: usize>(data: &[u8], start_index: usize, item_parser: F) -> (r:
    Result<([T; N], usize)>) where T: Copy + Default, F: Fn(&[u8], usize) -> Result<(T, usize)>
    requires
        parser_safe(item_parser, data, start_index, N as nat),
    ensures
        r matches Ok((a, e)) ==> parses_as(item_parser, data, start_index, a@, e),
        r matches Err(err) ==> exists|items: Seq<T>, mid: usize|
            items.len() < N && #[trigger] parses_as(item_parser, data, start_index, items, mid)
                && call_ensures(item_parser, (data, mid), Err(err)),
{
    let mut array: [T; N] = vstd::array::array_fill_for_copy_types(T::default());
    let mut current_index = start_index;
    let mut i: usize = 0;
    assert(parses_as(item_parser, data, start_index, array@.take(0), current_index)) by {
        assert(array@.take(0) =~= Seq::<T>::empty());
    }
    while i < N
        invariant
            i <= N,
            array@.len() == N,
            parses_as(item_parser, data, start_index, array@.take(i as int), current_index),
            parser_safe(item_parser, data, current_index, (N - i) as nat),
        decreases N - i,
    {
        let ghost before = array@.take(i as int);
        let res = item_parser(data, current_index);
        match res {
            Ok((item, end_index)) => {
                proof {
                    lemma_parses_as_push(
                        item_parser,
                        data,
                        start_index,
                        before,
                        current_index,
                        item,
                        end_index,
                    );
                }
                array[i] = item;
                assert(array@.take(i + 1) =~= before.push(item));
                current_index = end_index;
            },
            Err(e) => {
                return Err(e);
            },
        }
        i = i + 1;
    }
    assert(array@.take(N as int) =~= array@);
    Ok((array, current_index))
}

/// Reading at `pos` with `parser` can give some field value that `set`
/// stores into `val`, giving `new_val`, with the read ending at `end`.
pub open spec fn sets_read<T, V, P: FnOnce(&[u8], usize) -> Result<(V, usize)>, F: FnOnce(T, V) -> T>(
    parser: P,
    set: F,
    data: &[u8],
    pos: usize,
    val: T,
    end: usize,
    new_val: T,
) -> bool {
    exists|v: V|
        #[trigger] call_ensures(parser, (data, pos), Ok((v, end))) && call_ensures(
            set,
            (val, v),
            new_val,
        )
}

/// Like `sets_read`, for an optional field that is present.
pub open spec fn sets_some<T, V, P: Fn(&[u8], usize) -> Result<(V, usize)>, F: FnOnce(T, Option<V>) -> T>(
    parser: P,
    set: F,
    data: &[u8],
    pos: usize,
    val: T,
    end: usize,
    new_val: T,
) -> bool {
    exists|v: V|
        #[trigger] call_ensures(parser, (data, pos), Ok((v, end))) && call_ensures(
            set,
            (val, Some(v)),
            new_val,
        )
}

/// `count` items parsed from `start` to `end` and stored into `val` by `set`.
pub open spec fn sets_vec<T, V, P: Fn(&[u8], usize) -> Result<(V, usize)>, F: FnOnce(T, Vec<V>) -> T>(
    parser: P,
    set: F,
    data: &[u8],
    start: usize,
    count: nat,
    val: T,
    end: usize,
    new_val: T,
) -> bool {
    exists|v: Vec<V>|
        v@.len() == count && #[trigger] parses_as(parser, data, start, v@, end) && call_ensures(
            set,
            (val, v),
            new_val,
        )
}

/// `N` items parsed from `start` to `end` and stored into `val` by `set`.
pub open spec fn sets_array<T, V, P: Fn(&[u8], usize) -> Result<(V, usize)>, F: FnOnce(T, [V; N]) -> T, const N: usize>(
    parser: P,
    set: F,
    data: &[u8],
    start: usize,
    val: T,
    end: usize,
    new_val: T,
) -> bool {
    exists|a: [V; N]|
        #[trigger] parses_as(parser, data, start, a@, end) && call_ensures(set, (val, a), new_val)
}

/// Types that read themselves from instruction data at a position.
pub trait ZeroCopyDeserialize: Sized {
    /// When reading at `start` is defined (it does not run past the data).
    spec fn deserialize_requires(data: Seq<u8>, start: usize) -> bool;

    /// The value read at `start` and the position after it, or the error.
    spec fn spec_deserialize_from(data: Seq<u8>, start: usize) -> Result<(Self, usize)>;

    fn deserialize_from(data: &[u8], start_index: usize) -> (r: Result<(Self, usize)>)
        requires
            Self::deserialize_requires(data@, start_index),
        ensures
            r == Self::spec_deserialize_from(data@, start_index),
    ;
}

/// Types that write themselves at the start of a byte buffer.
pub trait ZeroCopySerialize: Sized {
    /// The bytes that represent the value.
    spec fn spec_bytes(&self) -> Seq<u8>;

    /// Writes `spec_bytes()` at the start of `data`; fails when they don't fit.
    fn serialize_into(&self, data: &mut [u8]) -> (r: Result<()>)
        ensures
            r is Ok <==> self.spec_bytes().len() <= old(data)@.len(),
            r is Ok ==> final(data)@ == self.spec_bytes() + old(data)@.skip(
                self.spec_bytes().len() as int,
            ),
            r is Err ==> final(data)@ == old(data)@,
    ;
}

/// Reads the fields of a `T` one after the other out of instruction data.
pub struct ByteReader<'a, T> {
    data: &'a [u8],
    position: usize,
    value: T,
}

impl<'a> ByteReader<'a, ()> {
    /// A reader of `data` from `start_index`, filling a default `T`.
    pub fn new<T: Default>(data: &'a [u8], start_index: usize) -> (r: ByteReader<'a, T>)
        ensures
            r.bytes() == data@,
            r.pos() == start_index,
    {
        ByteReader { data, position: start_index, value: T::default() }
    }
}

impl<'a, T> ByteReader<'a, T> {
    /// The data being read.
    pub closed spec fn bytes(self) -> Seq<u8> {
        self.data_ref()@
    }

    /// The data being read, as a reference.
    pub closed spec fn data_ref(self) -> &'a [u8] {
        self.data
    }

    /// The position of the next field.
    pub closed spec fn pos(self) -> usize {
        self.position
    }

    /// The value filled so far.
    pub closed spec fn val(self) -> T {
        self.value
    }

    pub fn position(&self) -> (r: usize)
        ensures
            r == self.pos(),
    {
        self.position
    }

    /// The filled value and the end position, unless the reads ran past the data.
    pub fn complete(self) -> (r: Result<(T, usize)>)
        ensures
            r == if self.bytes().len() < self.pos() {
                Err(ProgramError::InvalidInstructionData)
            } else {
                Ok((self.val(), self.pos()))
            },
    {
        check_ix_data_len(self.data, self.position)?;
        Ok((self.value, self.position))
    }

    /// Reads a field with `parser` and stores it with `set`.
    fn update_field<V, F, P>(self, set: F, parser: P) -> (r: Result<Self>) where
        F: FnOnce(T, V) -> T,
        P: FnOnce(&[u8], usize) -> Result<(V, usize)>,

        requires
            call_requires(parser, (self.data_ref(), self.position)),
            forall|v: V, e: usize|
                #[trigger] call_ensures(parser, (self.data_ref(), self.position), Ok((v, e)))
                    ==> call_requires(set, (self.val(), v)),
        ensures
            r matches Ok(n) ==> n.bytes() == self.bytes(),
            r matches Ok(n) ==> sets_read(parser, set, self.data_ref(), self.pos(), self.val(), n.pos(), n.val()),
            r matches Err(err) ==> call_ensures(parser, (self.data_ref(), self.pos()), Err(err)),
    {
        let ghost start_val = self.val();
        let ghost d0 = self.data_ref();
        let ghost p0 = self.pos();
        let ByteReader { data, position, value } = self;
        assert(value == start_val);
        let (v, new_pos) = match parser(data, position) {
            Ok(x) => x,
            Err(err) => return Err(err),
        };
        let ghost gv = v;
        let value = set(value, v);
        let n = ByteReader { data, position: new_pos, value };
        assert(call_ensures(parser, (d0, p0), Ok((gv, n.pos()))) && call_ensures(
            set,
            (start_val, gv),
            n.val(),
        ));
        assert(n.bytes() == d0@);
        assert(sets_read(parser, set, d0, p0, start_val, n.pos(), n.val()));
        Ok(n)
    }

    pub fn read_bool<F: FnOnce(T, bool) -> T>(self, set: F) -> (r: Result<Self>)
        requires
            self.pos() < self.bytes().len(),
            call_requires(set, (self.val(), self.bytes()[self.pos() as int] != 0)),
        ensures
            r matches Ok(n) && n.bytes() == self.bytes() && n.pos() == self.pos() + 1
                && call_ensures(set, (self.val(), self.bytes()[self.pos() as int] != 0), n.val()),
    {
        let ghost start_val = self.val();
        let ghost d0 = self.data_ref();
        let ghost p0 = self.pos();
        let ByteReader { data, position, value } = self;
        assert(value == start_val);
        let (v, e) = match to_bool(data, position) {
            Ok(x) => x,
            Err(err) => return Err(err),
        };
        Ok(ByteReader { data, position: e, value: set(value, v) })
    }

    pub fn read_u8<F: FnOnce(T, u8) -> T>(self, set: F) -> (r: Result<Self>)
        requires
            self.pos() < self.bytes().len(),
            call_requires(set, (self.val(), self.bytes()[self.pos() as int])),
        ensures
            r matches Ok(n) && n.bytes() == self.bytes() && n.pos() == self.pos() + 1
                && call_ensures(set, (self.val(), self.bytes()[self.pos() as int]), n.val()),
    {
        let ghost start_val = self.val();
        let ghost d0 = self.data_ref();
        let ghost p0 = self.pos();
        let ByteReader { data, position, value } = self;
        assert(value == start_val);
        let (v, e) = match to_u8(data, position) {
            Ok(x) => x,
            Err(err) => return Err(err),
        };
        Ok(ByteReader { data, position: e, value: set(value, v) })
    }

    pub fn read_u16<F: FnOnce(T, u16) -> T>(self, set: F) -> (r: Result<Self>)
        requires
            self.pos() + 2 <= self.bytes().len(),
            call_requires(set, (self.val(), num_at(self.bytes(), self.pos() as int, 2) as u16)),
        ensures
            r matches Ok(n) && n.bytes() == self.bytes() && n.pos() == self.pos() + 2
                && call_ensures(set, (self.val(), num_at(self.bytes(), self.pos() as int, 2) as u16), n.val()),
    {
        let ghost start_val = self.val();
        let ghost d0 = self.data_ref();
        let ghost p0 = self.pos();
        let ByteReader { data, position, value } = self;
        assert(value == start_val);
        let (v, e) = match to_u16(data, position) {
            Ok(x) => x,
            Err(err) => return Err(err),
        };
        Ok(ByteReader { data, position: e, value: set(value, v) })
    }

    pub fn read_u32<F: FnOnce(T, u32) -> T>(self, set: F) -> (r: Result<Self>)
        requires
            self.pos() + 4 <= self.bytes().len(),
            call_requires(set, (self.val(), num_at(self.bytes(), self.pos() as int, 4) as u32)),
        ensures
            r matches Ok(n) && n.bytes() == self.bytes() && n.pos() == self.pos() + 4
                && call_ensures(set, (self.val(), num_at(self.bytes(), self.pos() as int, 4) as u32), n.val()),
    {
        let ghost start_val = self.val();
        let ghost d0 = self.data_ref();
        let ghost p0 = self.pos();
        let ByteReader { data, position, value } = self;
        assert(value == start_val);
        let (v, e) = match to_u32(data, position) {
            Ok(x) => x,
            Err(err) => return Err(err),
        };
        Ok(ByteReader { data, position: e, value: set(value, v) })
    }

    pub fn read_u64<F: FnOnce(T, u64) -> T>(self, set: F) -> (r: Result<Self>)
        requires
            self.pos() + 8 <= self.bytes().len(),
            call_requires(set, (self.val(), num_at(self.bytes(), self.pos() as int, 8) as u64)),
        ensures
            r matches Ok(n) && n.bytes() == self.bytes() && n.pos() == self.pos() + 8
                && call_ensures(set, (self.val(), num_at(self.bytes(), self.pos() as int, 8) as u64), n.val()),
    {
        let ghost start_val = self.val();
        let ghost d0 = self.data_ref();
        let ghost p0 = self.pos();
        let ByteReader { data, position, value } = self;
        assert(value == start_val);
        let (v, e) = match to_u64(data, position) {
            Ok(x) => x,
            Err(err) => return Err(err),
        };
        Ok(ByteReader { data, position: e, value: set(value, v) })
    }

    pub fn read_u128<F: FnOnce(T, u128) -> T>(self, set: F) -> (r: Result<Self>)
        requires
            self.pos() + 16 <= self.bytes().len(),
            call_requires(set, (self.val(), num_at(self.bytes(), self.pos() as int, 16) as u128)),
        ensures
            r matches Ok(n) && n.bytes() == self.bytes() && n.pos() == self.pos() + 16
                && call_ensures(set, (self.val(), num_at(self.bytes(), self.pos() as int, 16) as u128), n.val()),
    {
        let ghost start_val = self.val();
        let ghost d0 = self.data_ref();
        let ghost p0 = self.pos();
        let ByteReader { data, position, value } = self;
        assert(value == start_val);
        let (v, e) = match to_u128(data, position) {
            Ok(x) => x,
            Err(err) => return Err(err),
        };
        Ok(ByteReader { data, position: e, value: set(value, v) })
    }

    /// Reads a length-prefixed UTF-8 string.
    pub fn read_pubkey<F: FnOnce(T, Pubkey) -> T>(self, set: F) -> (r: Result<Self>)
        requires
            self.pos() + 32 <= self.bytes().len(),
            forall|k: Pubkey|
                k@ == self.bytes().subrange(self.pos() as int, self.pos() + 32) ==> #[trigger] call_requires(
                    set,
                    (self.val(), k),
                ),
        ensures
            r matches Ok(n) && n.bytes() == self.bytes() && n.pos() == self.pos() + 32 && exists|
                k: Pubkey,
            |
                k@ == self.bytes().subrange(self.pos() as int, self.pos() + 32) && #[trigger] call_ensures(
                    set,
                    (self.val(), k),
                    n.val(),
                ),
    {
        let ghost start_val = self.val();
        let ByteReader { data, position, value } = self;
        assert(value == start_val);
        let (v, e) = match to_pubkey(data, position) {
            Ok(x) => x,
            Err(err) => return Err(err),
        };
        let nv = set(value, v);
        let n = ByteReader { data, position: e, value: nv };
        assert(n.bytes() == data@);
        assert(v@ == data@.subrange(position as int, position + 32));
        assert(call_ensures(set, (start_val, v), n.val()));
        Ok(n)
    }

    pub fn read_string<F: FnOnce(T, String) -> T>(self, set: F) -> (r: Result<Self>)
        requires
            self.pos() + 4 + num_at(self.bytes(), self.pos() as int, 4) <= self.bytes().len(),
            forall|s: String| #[trigger] call_requires(set, (self.val(), s)),
        ensures
            r is Ok <==> valid_utf8(string_body(self.bytes(), self.pos() as int)),
            r matches Ok(n) ==> n.bytes() == self.bytes() && n.pos() == self.pos() + 4 + num_at(
                self.bytes(),
                self.pos() as int,
                4,
            ) && exists|s: String|
                s@ == decode_utf8(string_body(self.bytes(), self.pos() as int)) && call_ensures(
                    set,
                    (self.val(), s),
                    n.val(),
                ),
            r matches Err(e) ==> e == ProgramError::InvalidInstructionData,
    {
        let ghost start_val = self.val();
        let ghost d0 = self.data_ref();
        let ghost p0 = self.pos();
        let ByteReader { data, position, value } = self;
        assert(value == start_val);
        let (s, e) = match to_string(data, position) {
            Ok(x) => x,
            Err(err) => return Err(err),
        };
        Ok(ByteReader { data, position: e, value: set(value, s) })
    }

    /// Reads a count-prefixed vector of items with `item_parser`.
    pub fn read_vec_fixed<V, F, P>(self, set: F, item_parser: P) -> (r: Result<Self>) where
        F: FnOnce(T, Vec<V>) -> T,
        P: Fn(&[u8], usize) -> Result<(V, usize)>,

        requires
            self.pos() + 4 <= self.bytes().len(),
            parser_safe(item_parser, self.data_ref(), (self.pos() + 4) as usize, num_at(self.bytes(), self.pos() as int, 4)),
            forall|v: Vec<V>| #[trigger] call_requires(set, (self.val(), v)),
        ensures
            r matches Ok(n) ==> n.bytes() == self.bytes(),
            r matches Ok(n) ==> sets_vec(
                item_parser,
                set,
                self.data_ref(),
                (self.pos() + 4) as usize,
                num_at(self.bytes(), self.pos() as int, 4),
                self.val(),
                n.pos(),
                n.val(),
            ),
            r matches Err(err) ==> exists|items: Seq<V>, mid: usize|
                items.len() < num_at(self.bytes(), self.pos() as int, 4) && #[trigger] parses_as(
                    item_parser,
                    self.data_ref(),
                    (self.pos() + 4) as usize,
                    items,
                    mid,
                ) && call_ensures(item_parser, (self.data_ref(), mid), Err(err)),
    {
        let ghost start_val = self.val();
        let ghost d0 = self.data_ref();
        let ghost p0 = self.pos();
        let ByteReader { data, position, value } = self;
        assert(value == start_val);
        let (v, e) = match to_vec_fixed(data, position, item_parser) {
            Ok(x) => x,
            Err(err) => return Err(err),
        };
        let ghost vv = v;
        let value = set(value, v);
        let n = ByteReader { data, position: e, value };
        assert(n.bytes() == d0@);
        assert(vv@.len() == num_at(d0@, p0 as int, 4) && parses_as(item_parser, d0, (p0 + 4) as usize, vv@, n.pos())
            && call_ensures(set, (start_val, vv), n.val()));
        assert(sets_vec(item_parser, set, d0, (p0 + 4) as usize, num_at(d0@, p0 as int, 4), start_val, n.pos(), n.val()));
        Ok(n)
    }

    /// Reads an optional value: a flag byte, then the value with `item_parser`.
    pub fn read_option<V, F, P>(self, set: F, item_parser: P) -> (r: Result<Self>) where
        F: FnOnce(T, Option<V>) -> T,
        P: Fn(&[u8], usize) -> Result<(V, usize)>,

        requires
            self.pos() < self.bytes().len(),
            self.bytes()[self.pos() as int] != 0 ==> call_requires(
                item_parser,
                (self.data_ref(), (self.pos() + 1) as usize),
            ),
            forall|v: Option<V>| #[trigger] call_requires(set, (self.val(), v)),
        ensures
            self.bytes()[self.pos() as int] == 0 ==> (r matches Ok(n) && n.bytes() == self.bytes()
                && n.pos() == self.pos() + 1 && call_ensures(set, (self.val(), None), n.val())),
            r matches Ok(n) ==> n.bytes() == self.bytes(),
            self.bytes()[self.pos() as int] != 0 ==> match r {
                Ok(n) => sets_some(
                    item_parser,
                    set,
                    self.data_ref(),
                    (self.pos() + 1) as usize,
                    self.val(),
                    n.pos(),
                    n.val(),
                ),
                Err(err) => call_ensures(item_parser, (self.data_ref(), (self.pos() + 1) as usize), Err(err)),
            },
    {
        let ghost start_val = self.val();
        let ghost d0 = self.data_ref();
        let ghost p0 = self.pos();
        let ByteReader { data, position, value } = self;
        assert(value == start_val);
        let (v, e) = match to_option(data, position, item_parser) {
            Ok(x) => x,
            Err(err) => return Err(err),
        };
        let ghost vv = v;
        let value = set(value, v);
        let n = ByteReader { data, position: e, value };
        assert(n.bytes() == d0@);
        proof {
            if data@[position as int] != 0 {
                let x = vv->Some_0;
                assert(call_ensures(item_parser, (d0, (p0 + 1) as usize), Ok((x, n.pos()))) && call_ensures(
                    set,
                    (start_val, Some(x)),
                    n.val(),
                ));
                assert(sets_some(item_parser, set, d0, (p0 + 1) as usize, start_val, n.pos(), n.val()));
            }
        }
        Ok(n)
    }

    /// Reads `N` items with `item_parser`, without a count prefix.
    pub fn read_array<V, F, P, const N: usize>(self, set: F, item_parser: P) -> (r: Result<Self>) where
        V: Copy + Default,
        F: FnOnce(T, [V; N]) -> T,
        P: Fn(&[u8], usize) -> Result<(V, usize)>,

        requires
            parser_safe(item_parser, self.data_ref(), self.pos(), N as nat),
            forall|a: [V; N]| #[trigger] call_requires(set, (self.val(), a)),
        ensures
            r matches Ok(n) ==> n.bytes() == self.bytes(),
            r matches Ok(n) ==> sets_array(item_parser, set, self.data_ref(), self.pos(), self.val(), n.pos(), n.val()),
            r matches Err(err) ==> exists|items: Seq<V>, mid: usize|
                items.len() < N && #[trigger] parses_as(item_parser, self.data_ref(), self.pos(), items, mid)
                    && call_ensures(item_parser, (self.data_ref(), mid), Err(err)),
    {
        let ghost start_val = self.val();
        let ghost d0 = self.data_ref();
        let ghost p0 = self.pos();
        let ByteReader { data, position, value } = self;
        assert(value == start_val);
        let (a, e) = match to_array(data, position, item_parser) {
            Ok(x) => x,
            Err(err) => return Err(err),
        };
        let ghost aa = a;
        let value = set(value, a);
        let n = ByteReader { data, position: e, value };
        assert(n.bytes() == d0@);
        assert(parses_as(item_parser, d0, p0, aa@, n.pos()) && call_ensures(set, (start_val, aa), n.val()));
        assert(sets_array(item_parser, set, d0, p0, start_val, n.pos(), n.val()));
        Ok(n)
    }

    /// Reads a field of any type with `parser`.
    pub fn read_with_parser<V, F, P>(self, set: F, parser: P) -> (r: Result<Self>) where
        F: FnOnce(T, V) -> T,
        P: Fn(&[u8], usize) -> Result<(V, usize)>,

        requires
            call_requires(parser, (self.data_ref(), self.pos())),
            forall|v: V| #[trigger] call_requires(set, (self.val(), v)),
        ensures
            r matches Ok(n) ==> n.bytes() == self.bytes(),
            r matches Ok(n) ==> sets_read(parser, set, self.data_ref(), self.pos(), self.val(), n.pos(), n.val()),
            r matches Err(err) ==> call_ensures(parser, (self.data_ref(), self.pos()), Err(err)),
    {
        self.update_field(set, parser)
    }

    /// Reads a field of a type that reads itself.
    pub fn read_custom<V: ZeroCopyDeserialize, F: FnOnce(T, V) -> T>(self, set: F) -> (r: Result<Self>)
        requires
            V::deserialize_requires(self.bytes(), self.pos()),
            forall|v: V| #[trigger] call_requires(set, (self.val(), v)),
        ensures
            match V::spec_deserialize_from(self.bytes(), self.pos()) {
                Ok((v, e)) => r matches Ok(n) && n.bytes() == self.bytes() && n.pos() == e
                    && call_ensures(set, (self.val(), v), n.val()),
                Err(err) => r == Err::<Self, ProgramError>(err),
            },
    {
        let ghost start_val = self.val();
        let ghost d0 = self.data_ref();
        let ghost p0 = self.pos();
        let ByteReader { data, position, value } = self;
        assert(value == start_val);
        let (v, e) = match V::deserialize_from(data, position) {
            Ok(x) => x,
            Err(err) => return Err(err),
        };
        Ok(ByteReader { data, position: e, value: set(value, v) })
    }
}

/// `buf` with `data` written over it from `pos`.
pub open spec fn spliced(buf: Seq<u8>, pos: int, data: Seq<u8>) -> Seq<u8> {
    buf.take(pos) + data + buf.skip(pos + data.len())
}

/// Two writes side by side are one write of both.
pub proof fn lemma_spliced_concat(buf: Seq<u8>, pos: int, a: Seq<u8>, b: Seq<u8>)
    requires
        0 <= pos,
        pos + a.len() + b.len() <= buf.len(),
    ensures
        spliced(spliced(buf, pos, a), pos + a.len(), b) == spliced(buf, pos, a + b),
{
    assert(spliced(spliced(buf, pos, a), pos + a.len(), b) =~= spliced(buf, pos, a + b));
}

/// Writes values one after the other into a byte buffer of fixed length.
/// The buffer stays the caller's: what was written into it, up to a write
/// that was refused, is there once the writer is gone.
pub struct ByteWriter<'a> {
    /// The buffer written into.
    pub buffer: &'a mut [u8],
    /// The position of the next write.
    pub position: usize,
}

impl<'a> ByteWriter<'a> {
    /// The buffer's bytes.
    pub open spec fn buf(self) -> Seq<u8> {
        self.buffer@
    }

    /// The position of the next write.
    pub open spec fn pos(self) -> usize {
        self.position
    }

    /// A writer at the start of `buffer`.
    pub fn new(buffer: &'a mut [u8]) -> (r: Self)
        ensures
            r.buf() == old(buffer)@,
            r.pos() == 0,
            final(r.buffer)@ == final(buffer)@,
    {
        ByteWriter { buffer, position: 0 }
    }

    /// Copies `data` at the position and moves past it; fails when it does
    /// not fit in the buffer.
    pub fn write_bytes(self, data: &[u8]) -> (r: Result<Self>)
        ensures
            r matches Ok(w) ==> final(w.buffer)@ == final(self.buffer)@,
            r is Err ==> final(self.buffer)@ == self.buf(),
            self.pos() + data@.len() > self.buf().len() ==> r == Err::<Self, ProgramError>(
                ProgramError::InvalidInstructionData,
            ),
            self.pos() + data@.len() <= self.buf().len() ==> (r matches Ok(w) && w.buf() == spliced(
                self.buf(),
                self.pos() as int,
                data@,
            ) && w.pos() == self.pos() + data@.len()),
    {
        let ByteWriter { buffer, position } = self;
        if position > buffer.len() || data.len() > buffer.len() - position {
            return Err(ProgramError::InvalidInstructionData);
        }
        let end_pos = position + data.len();
        let ghost old_buf = buffer@;
        let mut i: usize = 0;
        while i < data.len()
            invariant
                end_pos == position + data@.len(),
                end_pos <= buffer@.len(),
                buffer@.len() == old_buf.len(),
                i <= data@.len(),
                forall|j: int| 0 <= j < position ==> buffer@[j] == old_buf[j],
                forall|j: int| 0 <= j < i ==> buffer@[position + j] == data@[j],
                forall|j: int| position + i <= j < old_buf.len() ==> buffer@[j] == old_buf[j],
            decreases data@.len() - i,
        {
            buffer[position + i] = data[i];
            i = i + 1;
        }
        assert(buffer@ =~= spliced(old_buf, position as int, data@));
        Ok(ByteWriter { buffer, position: end_pos })
    }

    pub fn write_u8(self, value: u8) -> (r: Result<Self>)
        ensures
            r matches Ok(w) ==> final(w.buffer)@ == final(self.buffer)@,
            r is Err ==> final(self.buffer)@ == self.buf(),
            self.pos() + 1 > self.buf().len() ==> r == Err::<Self, ProgramError>(
                ProgramError::InvalidInstructionData,
            ),
            self.pos() + 1 <= self.buf().len() ==> (r matches Ok(w) && w.buf() == spliced(
                self.buf(),
                self.pos() as int,
                seq![value],
            ) && w.pos() == self.pos() + 1),
    {
        let bytes = [value];
        assert(bytes@ =~= seq![value]);
        self.write_bytes(bytes.as_slice())
    }

    /// Writes the `n <= 16` little-endian bytes of `value`.
    fn write_le(self, value: u128, n: usize) -> (r: Result<Self>)
        requires
            n <= 16,
        ensures
            r matches Ok(w) ==> final(w.buffer)@ == final(self.buffer)@,
            r is Err ==> final(self.buffer)@ == self.buf(),
            self.pos() + n > self.buf().len() ==> r == Err::<Self, ProgramError>(
                ProgramError::InvalidInstructionData,
            ),
            self.pos() + n <= self.buf().len() ==> (r matches Ok(w) && w.buf() == spliced(
                self.buf(),
                self.pos() as int,
                le_bytes(value as nat, n as nat),
            ) && w.pos() == self.pos() + n),
    {
        let bytes = write_le(value, n);
        self.write_bytes(bytes.as_slice())
    }

    pub fn write_u16(self, value: u16) -> (r: Result<Self>)
        ensures
            r matches Ok(w) ==> final(w.buffer)@ == final(self.buffer)@,
            r is Err ==> final(self.buffer)@ == self.buf(),
            self.pos() + 2 > self.buf().len() ==> r == Err::<Self, ProgramError>(
                ProgramError::InvalidInstructionData,
            ),
            self.pos() + 2 <= self.buf().len() ==> (r matches Ok(w) && w.buf() == spliced(
                self.buf(),
                self.pos() as int,
                le_bytes(value as nat, 2),
            ) && w.pos() == self.pos() + 2),
    {
        self.write_le(value as u128, 2)
    }

    pub fn write_u32(self, value: u32) -> (r: Result<Self>)
        ensures
            r matches Ok(w) ==> final(w.buffer)@ == final(self.buffer)@,
            r is Err ==> final(self.buffer)@ == self.buf(),
            self.pos() + 4 > self.buf().len() ==> r == Err::<Self, ProgramError>(
                ProgramError::InvalidInstructionData,
            ),
            self.pos() + 4 <= self.buf().len() ==> (r matches Ok(w) && w.buf() == spliced(
                self.buf(),
                self.pos() as int,
                le_bytes(value as nat, 4),
            ) && w.pos() == self.pos() + 4),
    {
        self.write_le(value as u128, 4)
    }

    pub fn write_u64(self, value: u64) -> (r: Result<Self>)
        ensures
            r matches Ok(w) ==> final(w.buffer)@ == final(self.buffer)@,
            r is Err ==> final(self.buffer)@ == self.buf(),
            self.pos() + 8 > self.buf().len() ==> r == Err::<Self, ProgramError>(
                ProgramError::InvalidInstructionData,
            ),
            self.pos() + 8 <= self.buf().len() ==> (r matches Ok(w) && w.buf() == spliced(
                self.buf(),
                self.pos() as int,
                le_bytes(value as nat, 8),
            ) && w.pos() == self.pos() + 8),
    {
        self.write_le(value as u128, 8)
    }

    pub fn write_u128(self, value: u128) -> (r: Result<Self>)
        ensures
            r matches Ok(w) ==> final(w.buffer)@ == final(self.buffer)@,
            r is Err ==> final(self.buffer)@ == self.buf(),
            self.pos() + 16 > self.buf().len() ==> r == Err::<Self, ProgramError>(
                ProgramError::InvalidInstructionData,
            ),
            self.pos() + 16 <= self.buf().len() ==> (r matches Ok(w) && w.buf() == spliced(
                self.buf(),
                self.pos() as int,
                le_bytes(value as nat, 16),
            ) && w.pos() == self.pos() + 16),
    {
        self.write_le(value, 16)
    }

    /// Writes `1` for true, `0` for false.
    pub fn write_bool(self, value: bool) -> (r: Result<Self>)
        ensures
            r matches Ok(w) ==> final(w.buffer)@ == final(self.buffer)@,
            r is Err ==> final(self.buffer)@ == self.buf(),
            self.pos() + 1 > self.buf().len() ==> r == Err::<Self, ProgramError>(
                ProgramError::InvalidInstructionData,
            ),
            self.pos() + 1 <= self.buf().len() ==> (r matches Ok(w) && w.buf() == spliced(
                self.buf(),
                self.pos() as int,
                seq![if value { 1u8 } else { 0u8 }],
            ) && w.pos() == self.pos() + 1),
    {
        self.write_u8(if value { 1 } else { 0 })
    }

    /// Writes the byte length of `value` as a `u32` (only its low 32 bits
    /// when it is longer), then its UTF-8 bytes.
    pub fn write_string(self, value: &str) -> (r: Result<Self>)
        ensures
            r matches Ok(w) ==> final(w.buffer)@ == final(self.buffer)@,
            r is Err ==> final(self.buffer)@ == if self.pos() + 4 <= self.buf().len() {
                spliced(self.buf(), self.pos() as int, le_bytes(value.spec_bytes().len(), 4))
            } else {
                self.buf()
            },
            self.pos() + 4 + value.spec_bytes().len() > self.buf().len() ==> r
                == Err::<Self, ProgramError>(ProgramError::InvalidInstructionData),
            self.pos() + 4 + value.spec_bytes().len() <= self.buf().len() ==> (r matches Ok(w)
                && w.buf() == spliced(
                self.buf(),
                self.pos() as int,
                le_bytes(value.spec_bytes().len(), 4) + value.spec_bytes(),
            ) && w.pos() == self.pos() + 4 + value.spec_bytes().len()),
    {
        let bytes = value.as_bytes();
        let p = self.position;
        let len = bytes.len();
        let ghost b0 = self.buf();
        let w = self.write_u32(len as u32)?;
        proof {
            lemma_le_bytes_trunc(len as nat, 4);
            lemma_pow256_widths();
            assert((len as u32) as u64 == (len as u64) % 0x1_0000_0000) by (bit_vector);
        }
        let r = w.write_bytes(bytes);
        proof {
            if p + 4 + len <= b0.len() {
                lemma_spliced_concat(b0, p as int, le_bytes(len as nat, 4), bytes@);
            }
        }
        r
    }

    /// Writes a flag byte (1 = present) and, when present, the bytes
    /// `converter` gives for the value.
    pub fn write_option<T, F: FnOnce(&T) -> &[u8]>(self, value: &Option<T>, converter: F) -> (r:
        Result<Self>)
        requires
            value matches Some(v) ==> call_requires(converter, (v,)),
        ensures
            r matches Ok(w) ==> final(w.buffer)@ == final(self.buffer)@,
            r is Err ==> final(self.buffer)@ == if value is Some && self.pos() + 1 <= self.buf().len() {
                spliced(self.buf(), self.pos() as int, seq![1u8])
            } else {
                self.buf()
            },
            self.pos() + 1 > self.buf().len() ==> r == Err::<Self, ProgramError>(
                ProgramError::InvalidInstructionData,
            ),
            value is None && self.pos() + 1 <= self.buf().len() ==> (r matches Ok(w) && w.buf()
                == spliced(self.buf(), self.pos() as int, seq![0u8]) && w.pos() == self.pos() + 1),
            value matches Some(v) ==> (self.pos() + 1 <= self.buf().len() ==> exists|b: &[u8]|
                #[trigger] call_ensures(converter, (v,), b) && written_or_refused(
                    self.buf(),
                    self.pos() as int,
                    seq![1u8] + b@,
                    r,
                )),
            self.pos() + 1 <= self.buf().len() ==> exists|bytes: Seq<u8>|
                #[trigger] option_encoding(value, converter, bytes) && written_or_refused(
                    self.buf(),
                    self.pos() as int,
                    bytes,
                    r,
                ),
    {
        let ghost b0 = self.buf();
        let p = self.position;
        match value {
            Some(inner_value) => {
                let w = self.write_u8(1)?;
                let bytes = converter(inner_value);
                let r = w.write_bytes(bytes);
                proof {
                    if p + 1 + bytes@.len() <= b0.len() {
                        lemma_spliced_concat(b0, p as int, seq![1u8], bytes@);
                    }
                    assert(written_or_refused(b0, p as int, seq![1u8] + bytes@, r));
                    assert(option_encoding(value, converter, seq![1u8] + bytes@));
                }
                r
            },
            None => {
                let r = self.write_u8(0);
                proof {
                    assert(option_encoding(value, converter, seq![0u8]));
                    assert(b0.len() >= p + 1 ==> written_or_refused(b0, p as int, seq![0u8], r));
                }
                r
            },
        }
    }

    /// Writes a value that writes itself, advancing by the size of its type.
    pub fn write_custom<T: ZeroCopySerialize + ZeroCopyDeserialize>(self, data: &T) -> (r: Result<
        Self,
    >)
        ensures
            r matches Ok(w) ==> final(w.buffer)@ == final(self.buffer)@,
            r is Err ==> final(self.buffer)@ == self.buf(),
            self.pos() + vstd::layout::size_of::<T>() > self.buf().len() ==> r
                == Err::<Self, ProgramError>(ProgramError::InvalidInstructionData),
            self.pos() + vstd::layout::size_of::<T>() <= self.buf().len() && data.spec_bytes().len()
                > self.buf().len() - self.pos() ==> r is Err,
            self.pos() + vstd::layout::size_of::<T>() <= self.buf().len() && data.spec_bytes().len()
                <= self.buf().len() - self.pos() ==> (r matches Ok(w) && w.buf() == spliced(
                self.buf(),
                self.pos() as int,
                data.spec_bytes(),
            ) && w.pos() == self.pos() + vstd::layout::size_of::<T>()),
    {
        let ByteWriter { buffer, position } = self;
        if position > buffer.len() || core::mem::size_of::<T>() > buffer.len() - position {
            return Err(ProgramError::InvalidInstructionData);
        }
        let end_pos = position + core::mem::size_of::<T>();
        let ghost old_buf = buffer@;
        let n = buffer.len();
        let mut tail = vstd::slice::slice_to_vec(vstd::slice::slice_subrange(&*buffer, position, n));
        data.serialize_into(tail.as_mut_slice())?;
        let ghost written = tail@;
        assert(written =~= data.spec_bytes() + old_buf.skip(position + data.spec_bytes().len()));
        let mut i: usize = 0;
        while i < tail.len()
            invariant
                n == old_buf.len(),
                position <= n,
                tail@ == written,
                written.len() == n - position,
                i <= written.len(),
                buffer@.len() == n,
                forall|j: int| 0 <= j < position ==> buffer@[j] == old_buf[j],
                forall|j: int| 0 <= j < i ==> buffer@[position + j] == written[j],
                forall|j: int| position + i <= j < n ==> buffer@[j] == old_buf[j],
            decreases written.len() - i,
        {
            buffer[position + i] = tail[i];
            i = i + 1;
        }
        proof {
            let sb = data.spec_bytes();
            let sp = spliced(old_buf, position as int, sb);
            assert(sb.len() <= n - position);
            assert(sp.len() == n);
            assert forall|j: int| 0 <= j < n implies #[trigger] buffer@[j] == sp[j] by {
                if j >= position {
                    assert(buffer@[position + (j - position)] == written[j - position]);
                }
            }
            assert(buffer@ =~= sp);
        }
        Ok(ByteWriter { buffer, position: end_pos })
    }

    /// Writes a flag byte (1 = present) and, when present, the value itself.
    pub fn write_option_custom<T: ZeroCopySerialize + ZeroCopyDeserialize>(self, value: &Option<T>) -> (r:
        Result<Self>)
        ensures
            r matches Ok(w) ==> final(w.buffer)@ == final(self.buffer)@,
            r is Err ==> final(self.buffer)@ == if value is Some && self.pos() + 1 <= self.buf().len() {
                spliced(self.buf(), self.pos() as int, seq![1u8])
            } else {
                self.buf()
            },
            self.pos() + 1 > self.buf().len() ==> r == Err::<Self, ProgramError>(
                ProgramError::InvalidInstructionData,
            ),
            value is None && self.pos() + 1 <= self.buf().len() ==> (r matches Ok(w) && w.buf()
                == spliced(self.buf(), self.pos() as int, seq![0u8]) && w.pos() == self.pos() + 1),
            value matches Some(v) ==> (self.pos() + 1 + vstd::layout::size_of::<T>() <= self.buf().len()
                && v.spec_bytes().len() <= self.buf().len() - self.pos() - 1 ==> (r matches Ok(w)
                && w.buf() == spliced(self.buf(), self.pos() as int, seq![1u8] + v.spec_bytes())
                && w.pos() == self.pos() + 1 + vstd::layout::size_of::<T>())),
            value matches Some(v) ==> (self.pos() + 1 <= self.buf().len() && (self.pos() + 1
                + vstd::layout::size_of::<T>() > self.buf().len() || v.spec_bytes().len()
                > self.buf().len() - self.pos() - 1) ==> r is Err),
    {
        let ghost b0 = self.buf();
        let p = self.position;
        match value {
            Some(inner_value) => {
                let w = self.write_u8(1)?;
                let r = w.write_custom(inner_value);
                proof {
                    if p + 1 + inner_value.spec_bytes().len() <= b0.len() {
                        lemma_spliced_concat(b0, p as int, seq![1u8], inner_value.spec_bytes());
                    }
                }
                r
            },
            None => self.write_u8(0),
        }
    }

    /// Finishes writing.
    /// Writes the 32 bytes of an address.
    pub fn write_pubkey(self, value: &Pubkey) -> (r: Result<Self>)
        ensures
            r matches Ok(w) ==> final(w.buffer)@ == final(self.buffer)@,
            r is Err ==> final(self.buffer)@ == self.buf(),
            self.pos() + 32 > self.buf().len() ==> r == Err::<Self, ProgramError>(
                ProgramError::InvalidInstructionData,
            ),
            self.pos() + 32 <= self.buf().len() ==> (r matches Ok(w) && w.buf() == spliced(
                self.buf(),
                self.pos() as int,
                value@,
            ) && w.pos() == self.pos() + 32),
    {
        self.write_bytes(value.as_slice())
    }

    pub fn complete(self) -> (r: Result<()>)
        ensures
            r is Ok,
    {
        Ok(())
    }

    /// The position of the next write.
    pub fn position(&self) -> (r: usize)
        ensures
            r == self.pos(),
    {
        self.position
    }

    /// Bytes left after the position; a write of `k` bytes fits exactly
    /// when `k` is at most this.
    pub fn remaining(&self) -> (r: usize)
        requires
            self.pos() <= self.buf().len(),
        ensures
            r == self.buf().len() - self.pos(),
    {
        self.buffer.len() - self.position
    }

    /// The bytes written so far (up to the position).
    pub fn as_bytes(&self) -> (r: &[u8])
        requires
            self.pos() <= self.buf().len(),
        ensures
            r@ == self.buf().take(self.pos() as int),
    {
        vstd::slice::slice_subrange(&*self.buffer, 0, self.position)
    }
}

/// `r` is the writer with `bytes` written at `pos` of `buf`, or the refusal
/// for bytes that do not fit.
pub open spec fn written_or_refused<'a>(buf: Seq<u8>, pos: int, bytes: Seq<u8>, r: Result<ByteWriter<'a>>) -> bool {
    if pos + bytes.len() > buf.len() {
        r == Err::<ByteWriter<'a>, ProgramError>(ProgramError::InvalidInstructionData)
    } else {
        r matches Ok(w) && w.buf() == spliced(buf, pos, bytes) && w.pos() == pos + bytes.len()
    }
}

/// `after` is `before` with `bytes` written at its position.
pub open spec fn wrote<'a>(before: ByteWriter<'a>, bytes: Seq<u8>, after: ByteWriter<'a>) -> bool {
    &&& before.pos() + bytes.len() <= before.buf().len()
    &&& after.buf() == spliced(before.buf(), before.pos() as int, bytes)
    &&& after.pos() == before.pos() + bytes.len()
}

/// `writers` are the writers of a chain of successful writes of
/// `encodings`: each is the one before it with the next encoding written.
pub open spec fn write_chain<'a>(writers: Seq<ByteWriter<'a>>, encodings: Seq<Seq<u8>>) -> bool {
    &&& writers.len() == encodings.len() + 1
    &&& forall|i: int| 0 <= i < encodings.len() ==> wrote(writers[i], #[trigger] encodings[i], writers[i + 1])
}

/// Successful writes one after the other lay their bytes end to end: the
/// last writer's buffer is the first one's with the encodings, joined, written
/// at its position; the position has moved by their total length; and the
/// bytes before the first position and after the last are as they were.
pub proof fn lemma_write_chain<'a>(writers: Seq<ByteWriter<'a>>, encodings: Seq<Seq<u8>>)
    requires
        write_chain(writers, encodings),
        writers[0].pos() <= writers[0].buf().len(),
    ensures
        writers.last().buf() == spliced(writers[0].buf(), writers[0].pos() as int, encodings.flatten()),
        writers.last().pos() == writers[0].pos() + encodings.flatten().len(),
        writers.last().pos() <= writers[0].buf().len(),
        writers.last().buf().len() == writers[0].buf().len(),
    decreases encodings.len(),
{
    let b0 = writers[0].buf();
    let p0 = writers[0].pos() as int;
    if encodings.len() == 0 {
        assert(spliced(b0, p0, Seq::<u8>::empty()) =~= b0);
    } else {
        let e0 = encodings[0];
        assert(wrote(writers[0], e0, writers[1]));
        let rest_w = writers.drop_first();
        let rest_e = encodings.drop_first();
        assert forall|i: int| 0 <= i < rest_e.len() implies wrote(rest_w[i], #[trigger] rest_e[i], rest_w[i + 1]) by {
            assert(encodings[i + 1] == rest_e[i]);
        }
        lemma_write_chain(rest_w, rest_e);
        assert(rest_w.last() == writers.last());
        assert(writers[1].buf().len() == b0.len());
        lemma_spliced_concat(b0, p0, e0, rest_e.flatten());
    }
}

/// `core::slice::from_ref`: the one-element slice that views `value`.
#[verifier::external_body]
fn slice_from_ref(value: &u8) -> (r: &[u8])
    ensures
        r@ == seq![*value],
{
    core::slice::from_ref(value)
}

/// A `u8` as its one byte.
pub fn u8_as_bytes(value: &u8) -> (r: &[u8])
    ensures
        r@ == seq![*value],
{
    slice_from_ref(value)
}

/// An address as its 32 bytes.
pub fn pubkey_as_bytes(value: &Pubkey) -> (r: &[u8])
    ensures
        r@ == value@,
{
    value.as_slice()
}

/// A string's UTF-8 bytes (no length prefix).
pub fn string_as_bytes(value: &str) -> (r: &[u8])
    ensures
        r@ == value.spec_bytes(),
{
    value.as_bytes()
}

/// A boolean as one byte: 1 for true, 0 for false.
pub fn bool_as_bytes(value: &bool) -> (r: Vec<u8>)
    ensures
        r@ == seq![if *value { 1u8 } else { 0u8 }],
{
    let mut v = Vec::new();
    v.push(if *value { 1u8 } else { 0u8 });
    v
}

/// A `u16` as its 2 little-endian bytes.
pub fn u16_as_bytes(value: &u16) -> (r: Vec<u8>)
    ensures
        r@ == le_bytes(*value as nat, 2),
{
    write_le(*value as u128, 2)
}

/// A `u32` as its 4 little-endian bytes.
pub fn u32_as_bytes(value: &u32) -> (r: Vec<u8>)
    ensures
        r@ == le_bytes(*value as nat, 4),
{
    write_le(*value as u128, 4)
}

/// A `u64` as its 8 little-endian bytes.
pub fn u64_as_bytes(value: &u64) -> (r: Vec<u8>)
    ensures
        r@ == le_bytes(*value as nat, 8),
{
    write_le(*value as u128, 8)
}

/// A `u128` as its 16 little-endian bytes.
pub fn u128_as_bytes(value: &u128) -> (r: Vec<u8>)
    ensures
        r@ == le_bytes(*value as nat, 16),
{
    write_le(*value, 16)
}

/// The little-endian bytes of each number of `s`, `n` bytes each, in order.
pub open spec fn le_concat(s: Seq<nat>, n: nat) -> Seq<u8>
    decreases s.len(),
{
    if s.len() == 0 {
        Seq::empty()
    } else {
        le_concat(s.drop_last(), n) + le_bytes(s.last(), n)
    }
}

/// Appends the `n`-byte encodings of `values` one after the other.
fn numbers_as_bytes(Ghost(values): Ghost<Seq<nat>>, get: &Vec<u128>, n: usize) -> (r: Vec<u8>)
    requires
        n <= 16,
        get@.len() == values.len(),
        forall|i: int| 0 <= i < values.len() ==> get@[i] as nat == values[i],
    ensures
        r@ == le_concat(values, n as nat),
{
    let mut out: Vec<u8> = Vec::new();
    let mut i: usize = 0;
    while i < get.len()
        invariant
            n <= 16,
            get@.len() == values.len(),
            forall|k: int| 0 <= k < values.len() ==> get@[k] as nat == values[k],
            i <= get@.len(),
            out@ == le_concat(values.take(i as int), n as nat),
        decreases get@.len() - i,
    {
        let b = write_le(get[i], n);
        let mut j: usize = 0;
        let ghost before = out@;
        while j < b.len()
            invariant
                j <= b@.len(),
                out@ == before + b@.take(j as int),
            decreases b@.len() - j,
        {
            out.push(b[j]);
            j = j + 1;
            assert(b@.take(j as int) =~= b@.take(j - 1).push(b@[j - 1]));
        }
        assert(b@.take(b@.len() as int) =~= b@);
        assert(values.take(i + 1).drop_last() =~= values.take(i as int));
        i = i + 1;
    }
    assert(values.take(get@.len() as int) =~= values);
    out
}

/// A slice of `u16`s as their little-endian bytes, one after the other.
pub fn slice_u16_as_bytes(value: &[u16]) -> (r: Vec<u8>)
    ensures
        r@ == le_concat(value@.map_values(|x: u16| x as nat), 2),
{
    let mut wide: Vec<u128> = Vec::new();
    let mut i: usize = 0;
    while i < value.len()
        invariant
            i <= value@.len(),
            wide@.len() == i,
            forall|k: int| 0 <= k < i ==> wide@[k] == value@[k] as u128,
        decreases value@.len() - i,
    {
        wide.push(value[i] as u128);
        i = i + 1;
    }
    numbers_as_bytes(Ghost(value@.map_values(|x: u16| x as nat)), &wide, 2)
}

/// A slice of `u32`s as their little-endian bytes, one after the other.
pub fn slice_u32_as_bytes(value: &[u32]) -> (r: Vec<u8>)
    ensures
        r@ == le_concat(value@.map_values(|x: u32| x as nat), 4),
{
    let mut wide: Vec<u128> = Vec::new();
    let mut i: usize = 0;
    while i < value.len()
        invariant
            i <= value@.len(),
            wide@.len() == i,
            forall|k: int| 0 <= k < i ==> wide@[k] == value@[k] as u128,
        decreases value@.len() - i,
    {
        wide.push(value[i] as u128);
        i = i + 1;
    }
    numbers_as_bytes(Ghost(value@.map_values(|x: u32| x as nat)), &wide, 4)
}

/// A slice of `u64`s as their little-endian bytes, one after the other.
pub fn slice_u64_as_bytes(value: &[u64]) -> (r: Vec<u8>)
    ensures
        r@ == le_concat(value@.map_values(|x: u64| x as nat), 8),
{
    let mut wide: Vec<u128> = Vec::new();
    let mut i: usize = 0;
    while i < value.len()
        invariant
            i <= value@.len(),
            wide@.len() == i,
            forall|k: int| 0 <= k < i ==> wide@[k] == value@[k] as u128,
        decreases value@.len() - i,
    {
        wide.push(value[i] as u128);
        i = i + 1;
    }
    numbers_as_bytes(Ghost(value@.map_values(|x: u64| x as nat)), &wide, 8)
}

/// A slice of `u128`s as their little-endian bytes, one after the other.
pub fn slice_u128_as_bytes(value: &[u128]) -> (r: Vec<u8>)
    ensures
        r@ == le_concat(value@.map_values(|x: u128| x as nat), 16),
{
    let mut wide: Vec<u128> = Vec::new();
    let mut i: usize = 0;
    while i < value.len()
        invariant
            i <= value@.len(),
            wide@.len() == i,
            forall|k: int| 0 <= k < i ==> wide@[k] == value@[k],
        decreases value@.len() - i,
    {
        wide.push(value[i]);
        i = i + 1;
    }
    numbers_as_bytes(Ghost(value@.map_values(|x: u128| x as nat)), &wide, 16)
}

/// `bytes` encodes `value` as an option: a flag byte (1 = present)
/// followed, when present, by bytes that `item` can give for the value.
pub open spec fn option_encoding<T, F: FnOnce(&T) -> &[u8]>(value: &Option<T>, item: F, bytes: Seq<u8>) -> bool {
    match value {
        None => bytes == seq![0u8],
        Some(v) => exists|b: &[u8]| #[trigger] call_ensures(item, (v,), b) && bytes == seq![1u8] + b@,
    }
}

/// An option has one encoding when its item's bytes are determined by the
/// value; so the bytes `option_as_bytes` gives for it are the bytes that
/// `ByteWriter::write_option` writes for it.
pub proof fn lemma_option_encoding_unique<T, F: FnOnce(&T) -> &[u8]>(
    value: &Option<T>,
    item: F,
    a: Seq<u8>,
    b: Seq<u8>,
)
    requires
        option_encoding(value, item, a),
        option_encoding(value, item, b),
        value matches Some(v) ==> forall|x: &[u8], y: &[u8]|
            #[trigger] call_ensures(item, (v,), x) && #[trigger] call_ensures(item, (v,), y) ==> x@ == y@,
    ensures
        a == b,
{
}

/// An optional value as a flag byte (1 = present) followed, when present,
/// by the bytes `item_serializer` gives for it.
pub fn option_as_bytes<T, F: Fn(&T) -> &[u8]>(value: &Option<T>, item_serializer: F) -> (r: Vec<u8>)
    requires
        value matches Some(v) ==> call_requires(item_serializer, (v,)),
    ensures
        option_encoding(value, item_serializer, r@),
        value is None ==> r@ == seq![0u8],
        value matches Some(v) ==> exists|b: &[u8]|
            #[trigger] call_ensures(item_serializer, (v,), b) && r@ == seq![1u8] + b@,
{
    match value {
        Some(inner_value) => {
            let mut bytes: Vec<u8> = Vec::new();
            bytes.push(1u8);
            let b = item_serializer(inner_value);
            bytes.extend_from_slice(b);
            assert(bytes@ =~= seq![1u8] + b@);
            bytes
        },
        None => {
            let mut bytes: Vec<u8> = Vec::new();
            bytes.push(0u8);
            bytes
        },
    }
}

/// `Vec::capacity`: at least the length.
#[verifier::external_body]
fn vec_capacity(v: &Vec<u8>) -> (r: usize)
    ensures
        r >= v@.len(),
{
    v.capacity()
}

/// Writers over growable vectors, for building instruction data.
pub trait ByteWriterVecExt<'a>: Sized {
    /// A writer over `buffer` grown (with zeros) to its capacity, reserving
    /// room for 256 more bytes when its capacity is below 256; so there are
    /// always at least 256 bytes to write into.
    fn from_vec(buffer: &'a mut Vec<u8>) -> (r: ByteWriter<'a>)
        ensures
            r.pos() == 0,
            r.buf().len() >= old(buffer)@.len(),
            r.buf().len() >= 256,
            r.buf().take(old(buffer)@.len() as int) == old(buffer)@,
            forall|i: int| old(buffer)@.len() <= i < r.buf().len() ==> r.buf()[i] == 0,
            final(r.buffer)@ == final(buffer)@,
    ;

    /// Cuts `buffer` at the writer's position.
    fn truncate_buffer(self, buffer: &mut Vec<u8>);
}

impl<'a> ByteWriterVecExt<'a> for ByteWriter<'a> {
    fn from_vec(buffer: &'a mut Vec<u8>) -> (r: ByteWriter<'a>) {
        let ghost original = buffer@;
        let old_len = buffer.len();
        let mut target = vec_capacity(buffer);
        if target < 256 {
            buffer.reserve(256);
            // `reserve` leaves room for at least 256 more bytes, so the new
            // capacity is never below `old_len + 256`.
            target = vec_capacity(buffer);
            if target < old_len + 256 {
                target = old_len + 256;
            }
        }
        buffer.resize(target, 0);
        assert(buffer@.take(original.len() as int) =~= original);
        ByteWriter::new(buffer.as_mut_slice())
    }

    fn truncate_buffer(self, buffer: &mut Vec<u8>)
        ensures
            final(buffer)@ == if self.pos() <= old(buffer)@.len() {
                old(buffer)@.take(self.pos() as int)
            } else {
                old(buffer)@
            },
    {
        buffer.truncate(self.position);
    }
}

/// A number written with `n` little-endian bytes reads back as itself, and
/// the bytes before the write are untouched.
pub proof fn lemma_number_write_read(buf: Seq<u8>, pos: int, x: nat, n: nat)
    requires
        0 <= pos,
        pos + n <= buf.len(),
        x < crate::le::pow256(n),
    ensures
        num_at(spliced(buf, pos, le_bytes(x, n)), pos, n as int) == x,
        spliced(buf, pos, le_bytes(x, n)).take(pos) == buf.take(pos),
        spliced(buf, pos, le_bytes(x, n)).len() == buf.len(),
{
    let w = spliced(buf, pos, le_bytes(x, n));
    assert(w.subrange(pos, pos + n) =~= le_bytes(x, n));
    crate::le::lemma_le_value_of_bytes(x, n);
    vstd::arithmetic::div_mod::lemma_small_mod(x, crate::le::pow256(n));
    assert(w.take(pos) =~= buf.take(pos));
}

/// A boolean written as a byte reads back as itself.
pub proof fn lemma_bool_write_read(buf: Seq<u8>, pos: int, b: bool)
    requires
        0 <= pos < buf.len(),
    ensures
        (spliced(buf, pos, seq![if b { 1u8 } else { 0u8 }])[pos] != 0) == b,
{
}

/// A string written with its length prefix reads back as itself: the prefix
/// gives its byte length and the body decodes to its characters.
pub proof fn lemma_string_write_read(buf: Seq<u8>, pos: int, s: Seq<char>)
    requires
        0 <= pos,
        pos + 4 + encode_utf8(s).len() <= buf.len(),
        encode_utf8(s).len() < 0x1_0000_0000,
    ensures
        num_at(spliced(buf, pos, le_bytes(encode_utf8(s).len(), 4) + encode_utf8(s)), pos, 4)
            == encode_utf8(s).len(),
        string_body(spliced(buf, pos, le_bytes(encode_utf8(s).len(), 4) + encode_utf8(s)), pos)
            == encode_utf8(s),
        valid_utf8(string_body(spliced(buf, pos, le_bytes(encode_utf8(s).len(), 4) + encode_utf8(s)), pos)),
        decode_utf8(string_body(spliced(buf, pos, le_bytes(encode_utf8(s).len(), 4) + encode_utf8(s)), pos))
            == s,
{
    let b = encode_utf8(s);
    let head = le_bytes(b.len(), 4);
    let w = spliced(buf, pos, head + b);
    lemma_pow256_widths();
    assert(w.subrange(pos, pos + 4) =~= head);
    crate::le::lemma_le_value_of_bytes(b.len(), 4);
    vstd::arithmetic::div_mod::lemma_small_mod(b.len(), crate::le::pow256(4));
    assert(string_body(w, pos) =~= b);
    vstd::utf8::encode_utf8_valid_utf8(s);
}

} // verus!
