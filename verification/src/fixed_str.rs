//! NUL-terminated UTF-8 strings in fixed-size byte arrays.

use vstd::prelude::*;
use vstd::string::StringSliceAdditionalSpecFns;
use vstd::utf8::valid_utf8;

verus! {

broadcast use vstd::array::group_array_axioms;

/// Position of the first zero byte of `b`, or its length if it has none.
pub open spec fn nul_pos(b: Seq<u8>) -> nat
    decreases b.len(),
{
    if b.len() == 0 {
        0
    } else if b[0] == 0 {
        0
    } else {
        1 + nul_pos(b.drop_first())
    }
}

/// The bytes of `b` before its first zero byte.
pub open spec fn text_of(b: Seq<u8>) -> Seq<u8> {
    b.take(nul_pos(b) as int)
}

/// `b` with its first `x.len()` bytes replaced by `x` and the byte after them by zero.
pub open spec fn written(b: Seq<u8>, x: Seq<u8>) -> Seq<u8> {
    x + seq![0u8] + b.skip(x.len() as int + 1)
}

/// `i` is the first zero byte of `b`, or its length when it has none.
pub open spec fn is_nul_pos(b: Seq<u8>, i: int) -> bool {
    &&& 0 <= i <= b.len()
    &&& forall|j: int| 0 <= j < i ==> b[j] != 0
    &&& (i == b.len() || b[i] == 0)
}

pub proof fn lemma_nul_pos(b: Seq<u8>, i: int)
    requires
        is_nul_pos(b, i),
    ensures
        nul_pos(b) == i,
    decreases b.len(),
{
    if b.len() > 0 && b[0] != 0 {
        assert(is_nul_pos(b.drop_first(), i - 1));
        lemma_nul_pos(b.drop_first(), i - 1);
    }
}

/// The first zero byte bounds the text: it is at most the length.
pub proof fn lemma_nul_pos_bound(b: Seq<u8>)
    ensures
        nul_pos(b) <= b.len(),
        nul_pos(b) < b.len() ==> b[nul_pos(b) as int] == 0,
        forall|j: int| 0 <= j < nul_pos(b) ==> b[j] != 0,
    decreases b.len(),
{
    if b.len() > 0 && b[0] != 0 {
        lemma_nul_pos_bound(b.drop_first());
        assert forall|j: int| 0 <= j < nul_pos(b) implies b[j] != 0 by {
            if j > 0 {
                assert(b[j] == b.drop_first()[j - 1]);
            }
        }
    }
}

/// Writing bytes without a zero byte, followed by a terminator, makes them the text.
pub proof fn lemma_text_of_written(b: Seq<u8>, x: Seq<u8>)
    requires
        x.len() < b.len(),
        forall|j: int| 0 <= j < x.len() ==> x[j] != 0,
    ensures
        written(b, x).len() == b.len(),
        text_of(written(b, x)) == x,
{
    let w = written(b, x);
    assert(is_nul_pos(w, x.len() as int));
    lemma_nul_pos(w, x.len() as int);
    assert(text_of(w) =~= x);
}

/// Scans `b` for its first zero byte.
fn find_nul(b: &[u8]) -> (r: usize)
    ensures
        r == nul_pos(b@),
{
    let mut i: usize = 0;
    while i < b.len() && b[i] != 0
        invariant
            i <= b@.len(),
            forall|j: int| 0 <= j < i ==> b@[j] != 0,
        decreases b@.len() - i,
    {
        i = i + 1;
    }
    proof {
        lemma_nul_pos(b@, i as int);
    }
    i
}

/// Whether `b` holds a zero byte.
fn has_nul(b: &[u8]) -> (r: bool)
    ensures
        r == (nul_pos(b@) < b@.len()),
{
    find_nul(b) < b.len()
}

/// `core::str::from_utf8`: succeeds exactly on valid UTF-8, and the string it
/// gives has the input as its UTF-8 bytes.
#[verifier::external_body]
fn str_from_utf8(v: &[u8]) -> (r: Option<&str>)
    ensures
        r is Some <==> valid_utf8(v@),
        r matches Some(s) ==> s.spec_bytes() == v@,
{
    core::str::from_utf8(v).ok()
}

/// The text before the first zero byte, as a string slice.
fn text_str(b: &[u8]) -> (r: &str)
    requires
        valid_utf8(text_of(b@)),
    ensures
        r.spec_bytes() == text_of(b@),
{
    let end = find_nul(b);
    proof {
        lemma_nul_pos_bound(b@);
    }
    let t = vstd::slice::slice_subrange(b, 0, end);
    assert(t@ =~= text_of(b@));
    str_from_utf8(t).unwrap()
}

/// A string of at most 15 UTF-8 bytes, NUL-terminated in 16 bytes.
#[derive(Debug, Clone, Copy, PartialEq, Eq)]
pub struct String16([u8; 16]);

impl String16 {
    /// The stored bytes.
    pub closed spec fn bytes(self) -> Seq<u8> {
        self.0@
    }

    /// The bytes of the stored text (before the first zero byte).
    pub open spec fn text(self) -> Seq<u8> {
        text_of(self.bytes())
    }

    pub broadcast proof fn lemma_bytes_len(self)
        ensures
            #[trigger] self.bytes().len() == 16,
    {
    }

    /// The cell holding `x`'s bytes, terminated and padded with zeros.
    pub fn new(x: &str) -> (r: Self)
        requires
            x.spec_bytes().len() < 16,
        ensures
            r.bytes() == written(Seq::new(16, |i: int| 0u8), x.spec_bytes()),
    {
        let mut r = String16([0u8; 16]);
        assert(r.0@ =~= Seq::new(16, |i: int| 0u8));
        r.set(x);
        r
    }

    pub fn get_raw(&self) -> (r: [u8; 16])
        ensures
            r@ == self.bytes(),
    {
        self.0
    }

    /// Replaces the stored bytes; they must hold a zero byte.
    pub fn set_raw(&mut self, x: [u8; 16])
        requires
            nul_pos(x@) < 16,
        ensures
            final(self).bytes() == x@,
    {
        self.0 = x;
    }

    /// The stored text; it must be valid UTF-8.
    pub fn get(&self) -> (r: &str)
        requires
            valid_utf8(self.text()),
        ensures
            r.spec_bytes() == self.text(),
    {
        text_str(self.0.as_slice())
    }

    /// Writes `x` and a terminating zero byte at the start; later bytes stay.
    pub fn set(&mut self, x: &str)
        requires
            x.spec_bytes().len() < 16,
        ensures
            final(self).bytes() == written(old(self).bytes(), x.spec_bytes()),
    {
        let b = x.as_bytes();
        let len = b.len();
        let mut i: usize = 0;
        while i < len
            invariant
                i <= len < 16,
                b@ == x.spec_bytes(),
                len == b@.len(),
                self.0@.len() == 16,
                forall|j: int| 0 <= j < i ==> self.0@[j] == b@[j],
                forall|j: int| i <= j < 16 ==> self.0@[j] == old(self).0@[j],
            decreases len - i,
        {
            self.0[i] = b[i];
            i = i + 1;
        }
        self.0[len] = 0;
        assert(self.0@ =~= written(old(self).bytes(), x.spec_bytes()));
    }
}

/// A string of at most 31 UTF-8 bytes, NUL-terminated in 32 bytes.
#[derive(Debug, Clone, Copy, PartialEq, Eq)]
pub struct String32([u8; 32]);

impl String32 {
    /// The stored bytes.
    pub closed spec fn bytes(self) -> Seq<u8> {
        self.0@
    }

    /// The bytes of the stored text (before the first zero byte).
    pub open spec fn text(self) -> Seq<u8> {
        text_of(self.bytes())
    }

    pub broadcast proof fn lemma_bytes_len(self)
        ensures
            #[trigger] self.bytes().len() == 32,
    {
    }

    /// The cell holding `x`'s bytes, terminated and padded with zeros.
    pub fn new(x: &str) -> (r: Self)
        requires
            x.spec_bytes().len() < 32,
        ensures
            r.bytes() == written(Seq::new(32, |i: int| 0u8), x.spec_bytes()),
    {
        let mut r = String32([0u8; 32]);
        assert(r.0@ =~= Seq::new(32, |i: int| 0u8));
        r.set(x);
        r
    }

    pub fn get_raw(&self) -> (r: [u8; 32])
        ensures
            r@ == self.bytes(),
    {
        self.0
    }

    /// Replaces the stored bytes; they must hold a zero byte.
    pub fn set_raw(&mut self, x: [u8; 32])
        requires
            nul_pos(x@) < 32,
        ensures
            final(self).bytes() == x@,
    {
        self.0 = x;
    }

    /// The stored text; it must be valid UTF-8.
    pub fn get(&self) -> (r: &str)
        requires
            valid_utf8(self.text()),
        ensures
            r.spec_bytes() == self.text(),
    {
        text_str(self.0.as_slice())
    }

    /// Writes `x` and a terminating zero byte at the start; later bytes stay.
    pub fn set(&mut self, x: &str)
        requires
            x.spec_bytes().len() < 32,
        ensures
            final(self).bytes() == written(old(self).bytes(), x.spec_bytes()),
    {
        let b = x.as_bytes();
        let len = b.len();
        let mut i: usize = 0;
        while i < len
            invariant
                i <= len < 32,
                b@ == x.spec_bytes(),
                len == b@.len(),
                self.0@.len() == 32,
                forall|j: int| 0 <= j < i ==> self.0@[j] == b@[j],
                forall|j: int| i <= j < 32 ==> self.0@[j] == old(self).0@[j],
            decreases len - i,
        {
            self.0[i] = b[i];
            i = i + 1;
        }
        self.0[len] = 0;
        assert(self.0@ =~= written(old(self).bytes(), x.spec_bytes()));
    }
}

/// A string of at most 63 UTF-8 bytes, NUL-terminated in 64 bytes.
#[derive(Debug, Clone, Copy, PartialEq, Eq)]
pub struct String64([u8; 64]);

impl String64 {
    /// The stored bytes.
    pub closed spec fn bytes(self) -> Seq<u8> {
        self.0@
    }

    /// The bytes of the stored text (before the first zero byte).
    pub open spec fn text(self) -> Seq<u8> {
        text_of(self.bytes())
    }

    pub broadcast proof fn lemma_bytes_len(self)
        ensures
            #[trigger] self.bytes().len() == 64,
    {
    }

    /// The cell holding `x`'s bytes, terminated and padded with zeros.
    pub fn new(x: &str) -> (r: Self)
        requires
            x.spec_bytes().len() < 64,
        ensures
            r.bytes() == written(Seq::new(64, |i: int| 0u8), x.spec_bytes()),
    {
        let mut r = String64([0u8; 64]);
        assert(r.0@ =~= Seq::new(64, |i: int| 0u8));
        r.set(x);
        r
    }

    pub fn get_raw(&self) -> (r: [u8; 64])
        ensures
            r@ == self.bytes(),
    {
        self.0
    }

    /// Replaces the stored bytes; they must hold a zero byte.
    pub fn set_raw(&mut self, x: [u8; 64])
        requires
            nul_pos(x@) < 64,
        ensures
            final(self).bytes() == x@,
    {
        self.0 = x;
    }

    /// The stored text; it must be valid UTF-8.
    pub fn get(&self) -> (r: &str)
        requires
            valid_utf8(self.text()),
        ensures
            r.spec_bytes() == self.text(),
    {
        text_str(self.0.as_slice())
    }

    /// Writes `x` and a terminating zero byte at the start; later bytes stay.
    pub fn set(&mut self, x: &str)
        requires
            x.spec_bytes().len() < 64,
        ensures
            final(self).bytes() == written(old(self).bytes(), x.spec_bytes()),
    {
        let b = x.as_bytes();
        let len = b.len();
        let mut i: usize = 0;
        while i < len
            invariant
                i <= len < 64,
                b@ == x.spec_bytes(),
                len == b@.len(),
                self.0@.len() == 64,
                forall|j: int| 0 <= j < i ==> self.0@[j] == b@[j],
                forall|j: int| i <= j < 64 ==> self.0@[j] == old(self).0@[j],
            decreases len - i,
        {
            self.0[i] = b[i];
            i = i + 1;
        }
        self.0[len] = 0;
        assert(self.0@ =~= written(old(self).bytes(), x.spec_bytes()));
    }
}

/// A string of at most 4095 UTF-8 bytes, NUL-terminated in 4096 bytes.
#[derive(Debug, Clone, Copy, PartialEq, Eq)]
pub struct String4096([u8; 4096]);

impl String4096 {
    /// The stored bytes.
    pub closed spec fn bytes(self) -> Seq<u8> {
        self.0@
    }

    /// The bytes of the stored text (before the first zero byte).
    pub open spec fn text(self) -> Seq<u8> {
        text_of(self.bytes())
    }

    pub broadcast proof fn lemma_bytes_len(self)
        ensures
            #[trigger] self.bytes().len() == 4096,
    {
    }

    /// The cell holding `x`'s bytes, terminated and padded with zeros.
    pub fn new(x: &str) -> (r: Self)
        requires
            x.spec_bytes().len() < 4096,
        ensures
            r.bytes() == written(Seq::new(4096, |i: int| 0u8), x.spec_bytes()),
    {
        let mut r = String4096([0u8; 4096]);
        assert(r.0@ =~= Seq::new(4096, |i: int| 0u8));
        r.set(x);
        r
    }

    /// The cell holding exactly the bytes `x`, as they arrive in instruction
    /// data (no terminator is required of them).
    pub(crate) fn from_array(x: [u8; 4096]) -> (r: Self)
        ensures
            r.bytes() == x@,
    {
        String4096(x)
    }

    pub proof fn lemma_bytes_injective(self, other: Self)
        requires
            self.bytes() == other.bytes(),
        ensures
            self == other,
    {
        assert(self.0 =~= other.0);
    }

    pub fn get_raw(&self) -> (r: [u8; 4096])
        ensures
            r@ == self.bytes(),
    {
        self.0
    }

    /// Replaces the stored bytes; they must hold a zero byte.
    pub fn set_raw(&mut self, x: [u8; 4096])
        requires
            nul_pos(x@) < 4096,
        ensures
            final(self).bytes() == x@,
    {
        self.0 = x;
    }

    /// The stored text; it must be valid UTF-8.
    pub fn get(&self) -> (r: &str)
        requires
            valid_utf8(self.text()),
        ensures
            r.spec_bytes() == self.text(),
    {
        text_str(self.0.as_slice())
    }

    /// Writes `x` and a terminating zero byte at the start; later bytes stay.
    pub fn set(&mut self, x: &str)
        requires
            x.spec_bytes().len() < 4096,
        ensures
            final(self).bytes() == written(old(self).bytes(), x.spec_bytes()),
    {
        let b = x.as_bytes();
        let len = b.len();
        let mut i: usize = 0;
        while i < len
            invariant
                i <= len < 4096,
                b@ == x.spec_bytes(),
                len == b@.len(),
                self.0@.len() == 4096,
                forall|j: int| 0 <= j < i ==> self.0@[j] == b@[j],
                forall|j: int| i <= j < 4096 ==> self.0@[j] == old(self).0@[j],
            decreases len - i,
        {
            self.0[i] = b[i];
            i = i + 1;
        }
        self.0[len] = 0;
        assert(self.0@ =~= written(old(self).bytes(), x.spec_bytes()));
    }
}

impl Default for String16 {
    fn default() -> (r: Self)
        ensures
            r.bytes() == Seq::new(16, |i: int| 0u8),
    {
        let r = String16([0u8; 16]);
        assert(r.0@ =~= Seq::new(16, |i: int| 0u8));
        r
    }
}

impl Default for String32 {
    fn default() -> (r: Self)
        ensures
            r.bytes() == Seq::new(32, |i: int| 0u8),
    {
        let r = String32([0u8; 32]);
        assert(r.0@ =~= Seq::new(32, |i: int| 0u8));
        r
    }
}

impl Default for String64 {
    fn default() -> (r: Self)
        ensures
            r.bytes() == Seq::new(64, |i: int| 0u8),
    {
        let r = String64([0u8; 64]);
        assert(r.0@ =~= Seq::new(64, |i: int| 0u8));
        r
    }
}

impl Default for String4096 {
    fn default() -> (r: Self)
        ensures
            r.bytes() == Seq::new(4096, |i: int| 0u8),
    {
        let r = String4096([0u8; 4096]);
        assert(r.0@ =~= Seq::new(4096, |i: int| 0u8));
        r
    }
}

} // verus!
