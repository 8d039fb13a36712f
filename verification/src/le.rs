//! Little-endian byte encoding of unsigned integers of up to sixteen bytes.

use vstd::arithmetic::div_mod::{lemma_div_denominator, lemma_mod_breakdown};
use vstd::prelude::*;

verus! {

/// `256` to the power `n`.
pub open spec fn pow256(n: nat) -> nat
    decreases n,
{
    if n == 0 {
        1
    } else {
        256 * pow256((n - 1) as nat)
    }
}

/// The number that the little-endian bytes `s` encode.
pub open spec fn le_value(s: Seq<u8>) -> nat
    decreases s.len(),
{
    if s.len() == 0 {
        0
    } else {
        s[0] as nat + 256 * le_value(s.drop_first())
    }
}

/// The `n` little-endian bytes of `x` (higher bytes of `x` are dropped).
pub open spec fn le_bytes(x: nat, n: nat) -> Seq<u8> {
    Seq::new(n, |i: int| ((x / pow256(i as nat)) % 256) as u8)
}

pub proof fn lemma_pow256_positive(n: nat)
    ensures
        pow256(n) > 0,
    decreases n,
{
    if n > 0 {
        lemma_pow256_positive((n - 1) as nat);
    }
}

pub proof fn lemma_pow256_monotonic(a: nat, b: nat)
    requires
        a <= b,
    ensures
        pow256(a) <= pow256(b),
    decreases b,
{
    if a < b {
        lemma_pow256_monotonic(a, (b - 1) as nat);
        lemma_pow256_positive((b - 1) as nat);
    }
}

/// The powers that bound the fixed-width integer types.
pub proof fn lemma_pow256_widths()
    ensures
        pow256(1) == 0x100,
        pow256(2) == 0x1_0000,
        pow256(4) == 0x1_0000_0000,
        pow256(8) == 0x1_0000_0000_0000_0000,
        pow256(16) == 0x1_0000_0000_0000_0000_0000_0000_0000_0000,
{
    reveal_with_fuel(pow256, 17);
}

/// A little-endian value is below `256^len`.
pub proof fn lemma_le_value_bound(s: Seq<u8>)
    ensures
        le_value(s) < pow256(s.len()),
    decreases s.len(),
{
    if s.len() > 0 {
        lemma_le_value_bound(s.drop_first());
    }
}

/// All-zero bytes encode zero.
pub proof fn lemma_le_value_zeros(s: Seq<u8>)
    requires
        forall|i: int| 0 <= i < s.len() ==> s[i] == 0,
    ensures
        le_value(s) == 0,
    decreases s.len(),
{
    if s.len() > 0 {
        lemma_le_value_zeros(s.drop_first());
    }
}

/// Dividing a little-endian value by `256^i` drops its first `i` bytes.
pub proof fn lemma_le_value_div(s: Seq<u8>, i: nat)
    requires
        i <= s.len(),
    ensures
        le_value(s) / pow256(i) == le_value(s.subrange(i as int, s.len() as int)),
    decreases i,
{
    if i == 0 {
        assert(s.subrange(0, s.len() as int) =~= s);
        assert(le_value(s) / 1 == le_value(s));
    } else {
        let j = (i - 1) as nat;
        lemma_le_value_div(s, j);
        lemma_pow256_positive(j);
        let t = s.subrange(j as int, s.len() as int);
        assert(t.drop_first() =~= s.subrange(i as int, s.len() as int));
        lemma_div_denominator(le_value(s) as int, pow256(j) as int, 256);
        assert(pow256(j) * 256 == pow256(i));
        let r = le_value(t.drop_first());
        let b = t[0] as int;
        assert((b + 256 * r) / 256 == r) by (nonlinear_arith)
            requires
                0 <= b < 256,
                r >= 0,
        ;
    }
}

/// Encoding a little-endian value with as many bytes gives the bytes back.
pub proof fn lemma_le_bytes_of_value(s: Seq<u8>)
    ensures
        le_bytes(le_value(s), s.len()) == s,
{
    assert forall|i: int| 0 <= i < s.len() implies #[trigger] le_bytes(le_value(s), s.len())[i]
        == s[i] by {
        lemma_le_value_div(s, i as nat);
        let t = s.subrange(i, s.len() as int);
        assert(t[0] == s[i]);
    }
    assert(le_bytes(le_value(s), s.len()) =~= s);
}

/// Dropping the first byte of an encoding encodes the quotient by 256.
pub proof fn lemma_le_bytes_drop_first(x: nat, n: nat)
    requires
        n > 0,
    ensures
        le_bytes(x, n).drop_first() == le_bytes(x / 256, (n - 1) as nat),
{
    assert forall|i: int| 0 <= i < n - 1 implies #[trigger] le_bytes(x, n).drop_first()[i]
        == le_bytes(x / 256, (n - 1) as nat)[i] by {
        lemma_pow256_positive(i as nat);
        lemma_div_denominator(x as int, 256, pow256(i as nat) as int);
        assert(pow256((i + 1) as nat) == 256 * pow256(i as nat));
    }
    assert(le_bytes(x, n).drop_first() =~= le_bytes(x / 256, (n - 1) as nat));
}

/// Decoding `n` encoded bytes gives the number modulo `256^n`.
pub proof fn lemma_le_value_of_bytes(x: nat, n: nat)
    ensures
        le_value(le_bytes(x, n)) == x % pow256(n),
    decreases n,
{
    if n == 0 {
        assert(le_bytes(x, 0) =~= Seq::<u8>::empty());
        assert(x % 1 == 0);
    } else {
        let p = pow256((n - 1) as nat);
        lemma_le_bytes_drop_first(x, n);
        lemma_le_value_of_bytes(x / 256, (n - 1) as nat);
        lemma_pow256_positive((n - 1) as nat);
        lemma_mod_breakdown(x as int, 256, p as int);
        assert(pow256(0) == 1);
        assert(x / 1 == x);
        assert(le_bytes(x, n)[0] == (x % 256) as u8);
        assert(pow256(n) == 256 * p);
    }
}

/// Only the low `n` bytes of a number reach its `n`-byte encoding.
pub proof fn lemma_le_bytes_trunc(x: nat, n: nat)
    ensures
        le_bytes(x % pow256(n), n) == le_bytes(x, n),
{
    lemma_le_value_of_bytes(x, n);
    lemma_le_bytes_of_value(le_bytes(x, n));
}

/// Reads the `n`-byte little-endian number at `data[start..start + n]`.
pub fn read_le(data: &[u8], start: usize, n: usize) -> (r: u128)
    requires
        n <= 16,
        start + n <= data@.len(),
    ensures
        r == le_value(data@.subrange(start as int, start + n)),
{
    let mut acc: u128 = 0;
    let mut i: usize = n;
    proof {
        assert(data@.subrange(start + n, start + n) =~= Seq::<u8>::empty());
        lemma_pow256_widths();
    }
    while i > 0
        invariant
            i <= n <= 16,
            start + n <= data.len(),
            pow256(16) == 0x1_0000_0000_0000_0000_0000_0000_0000_0000,
            acc == le_value(data@.subrange(start + i, start + n)),
        decreases i,
    {
        let ghost tail = data@.subrange(start + i, start + n);
        proof {
            lemma_le_value_bound(tail);
            lemma_pow256_monotonic((tail.len() + 1) as nat, 16);
            assert(pow256((tail.len() + 1) as nat) == 256 * pow256(tail.len()));
        }
        let b = data[start + i - 1];
        acc = acc * 256 + b as u128;
        i = i - 1;
        proof {
            let s = data@.subrange(start + i, start + n);
            assert(s.drop_first() =~= tail);
        }
    }
    acc
}

/// The `n` little-endian bytes of `x`.
pub fn write_le(x: u128, n: usize) -> (r: Vec<u8>)
    requires
        n <= 16,
    ensures
        r@ == le_bytes(x as nat, n as nat),
{
    let mut out: Vec<u8> = Vec::new();
    let mut v: u128 = x;
    let mut i: usize = 0;
    assert(pow256(0) == 1);
    assert(x as nat / 1 == x);
    while i < n
        invariant
            i <= n,
            v == x as nat / pow256(i as nat),
            out@ =~= le_bytes(x as nat, i as nat),
        decreases n - i,
    {
        out.push((v % 256) as u8);
        proof {
            lemma_pow256_positive(i as nat);
            lemma_div_denominator(x as int, pow256(i as nat) as int, 256);
            assert(pow256(i as nat) * 256 == pow256((i + 1) as nat));
        }
        v = v / 256;
        i = i + 1;
    }
    out
}

} // verus!
