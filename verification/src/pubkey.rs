//! Account addresses: 32-byte public keys, their byte-wise order, and the
//! well-known program addresses the registry checks against.

use vstd::prelude::*;

verus! {

broadcast use vstd::array::group_array_axioms;

/// An account address.
pub type Pubkey = [u8; 32];

/// Address of the token-2022 program.
pub const TOKEN_2022_PROGRAM_ID: Pubkey = [
    6, 221, 246, 225, 238, 117, 143, 222, 24, 66, 93, 188, 228, 108, 205, 218,
    182, 26, 252, 77, 131, 185, 13, 39, 254, 189, 249, 40, 216, 161, 139, 252,
];

/// Lexicographic order on byte strings, as slices and arrays of bytes are
/// ordered: the first differing byte decides, and a proper prefix comes
/// first.
pub open spec fn lex_le(a: Seq<u8>, b: Seq<u8>) -> bool
    decreases a.len(),
{
    if a.len() == 0 || b.len() == 0 {
        a.len() <= b.len()
    } else if a[0] != b[0] {
        a[0] < b[0]
    } else {
        lex_le(a.drop_first(), b.drop_first())
    }
}

/// Two sequences with a common prefix of length `i` compare as their tails.
pub proof fn lemma_lex_le_skip(a: Seq<u8>, b: Seq<u8>, i: int)
    requires
        0 <= i <= a.len(),
        i <= b.len(),
        a.take(i) == b.take(i),
    ensures
        lex_le(a, b) == lex_le(a.skip(i), b.skip(i)),
    decreases i,
{
    if i > 0 {
        assert(a[0] == a.take(i)[0]);
        assert(b[0] == b.take(i)[0]);
        assert(a.drop_first().take(i - 1) =~= a.take(i).drop_first());
        assert(b.drop_first().take(i - 1) =~= b.take(i).drop_first());
        lemma_lex_le_skip(a.drop_first(), b.drop_first(), i - 1);
        assert(a.drop_first().skip(i - 1) =~= a.skip(i));
        assert(b.drop_first().skip(i - 1) =~= b.skip(i));
    } else {
        assert(a.skip(0) =~= a);
        assert(b.skip(0) =~= b);
    }
}

/// The order is total.
pub proof fn lemma_lex_le_total(a: Seq<u8>, b: Seq<u8>)
    ensures
        lex_le(a, b) || lex_le(b, a),
    decreases a.len(),
{
    if a.len() > 0 && b.len() > 0 && a[0] == b[0] {
        lemma_lex_le_total(a.drop_first(), b.drop_first());
    }
}

/// The order is antisymmetric: keys that precede each other are equal.
pub proof fn lemma_lex_le_antisymmetric(a: Seq<u8>, b: Seq<u8>)
    requires
        lex_le(a, b),
        lex_le(b, a),
    ensures
        a == b,
    decreases a.len(),
{
    if a.len() > 0 && b.len() > 0 {
        lemma_lex_le_antisymmetric(a.drop_first(), b.drop_first());
        assert(a =~= seq![a[0]] + a.drop_first());
        assert(b =~= seq![b[0]] + b.drop_first());
    } else {
        assert(a =~= b);
    }
}

/// The order is transitive.
pub proof fn lemma_lex_le_transitive(a: Seq<u8>, b: Seq<u8>, c: Seq<u8>)
    requires
        lex_le(a, b),
        lex_le(b, c),
    ensures
        lex_le(a, c),
    decreases a.len(),
{
    if a.len() > 0 && b.len() > 0 && c.len() > 0 && a[0] == b[0] && b[0] == c[0] {
        lemma_lex_le_transitive(a.drop_first(), b.drop_first(), c.drop_first());
    }
}

/// Whether two keys are the same address.
pub fn keys_equal(a: &Pubkey, b: &Pubkey) -> (r: bool)
    ensures
        r == (a@ == b@),
{
    let mut i: usize = 0;
    while i < 32
        invariant
            0 <= i <= 32,
            a@.len() == 32,
            b@.len() == 32,
            forall|j: int| 0 <= j < i ==> a@[j] == b@[j],
        decreases 32 - i,
    {
        if a[i] != b[i] {
            return false;
        }
        i = i + 1;
    }
    assert(a@ =~= b@);
    true
}

/// Whether `mint_a` comes no later than `mint_b` in byte order: pass the two
/// mints of a pair in the order in which `mint_a <= mint_b` is expected.
pub fn are_mints_sorted(mint_a: &Pubkey, mint_b: &Pubkey) -> (r: bool)
    ensures
        r == lex_le(mint_a@, mint_b@),
{
    let mut i: usize = 0;
    while i < 32
        invariant
            0 <= i <= 32,
            mint_a@.len() == 32,
            mint_b@.len() == 32,
            mint_a@.take(i as int) == mint_b@.take(i as int),
        decreases 32 - i,
    {
        if mint_a[i] != mint_b[i] {
            proof {
                lemma_lex_le_skip(mint_a@, mint_b@, i as int);
                assert(mint_a@.skip(i as int)[0] == mint_a@[i as int]);
                assert(mint_b@.skip(i as int)[0] == mint_b@[i as int]);
            }
            return mint_a[i] < mint_b[i];
        }
        proof {
            assert(mint_a@.take(i + 1) =~= mint_a@.take(i as int).push(mint_a@[i as int]));
            assert(mint_b@.take(i + 1) =~= mint_b@.take(i as int).push(mint_b@[i as int]));
        }
        i = i + 1;
    }
    proof {
        lemma_lex_le_skip(mint_a@, mint_b@, 32);
        assert(mint_a@.skip(32).len() == 0);
    }
    true
}

/// The two mints of a pair in byte order, the smaller first.
pub fn sort_mints(mint_a: &Pubkey, mint_b: &Pubkey) -> (r: (Pubkey, Pubkey))
    ensures
        r == (if lex_le(mint_a@, mint_b@) {
            (*mint_a, *mint_b)
        } else {
            (*mint_b, *mint_a)
        }),
{
    if are_mints_sorted(mint_a, mint_b) {
        (*mint_a, *mint_b)
    } else {
        (*mint_b, *mint_a)
    }
}

/// Sorting a pair of mints puts them in order and keeps both of them.
pub proof fn lemma_sort_mints_sorted(a: Pubkey, b: Pubkey)
    ensures
        ({
            let r = if lex_le(a@, b@) { (a, b) } else { (b, a) };
            &&& lex_le(r.0@, r.1@)
            &&& ((r.0 == a && r.1 == b) || (r.0 == b && r.1 == a))
        }),
{
    lemma_lex_le_total(a@, b@);
}

/// Sorting a pair of mints does not depend on the order they were given in.
pub proof fn lemma_sort_mints_symmetric(a: Pubkey, b: Pubkey)
    ensures
        (if lex_le(a@, b@) { (a, b) } else { (b, a) }) == (if lex_le(b@, a@) {
            (b, a)
        } else {
            (a, b)
        }),
{
    lemma_lex_le_total(a@, b@);
    if lex_le(a@, b@) && lex_le(b@, a@) {
        lemma_lex_le_antisymmetric(a@, b@);
        assert(a@ == b@);
        assert(a == b);
    }
}

} // verus!
