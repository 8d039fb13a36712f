//! Text helpers of the code generators: edit distance for typo suggestions
//! and case conversion of identifiers.

use vstd::prelude::*;
use vstd::string::{StrSliceExecFns, StringSliceAdditionalSpecFns};

verus! {

broadcast use vstd::string::is_ascii_spec_bytes;

/// The smallest of three numbers.
pub open spec fn min3(a: nat, b: nat, c: nat) -> nat {
    if a <= b && a <= c {
        a
    } else if b <= c {
        b
    } else {
        c
    }
}

/// Levenshtein distance: the least number of single-character deletions,
/// insertions and substitutions that turn `a` into `b`.
pub open spec fn lev(a: Seq<char>, b: Seq<char>) -> nat
    decreases a.len() + b.len(),
{
    if a.len() == 0 {
        b.len()
    } else if b.len() == 0 {
        a.len()
    } else {
        min3(
            lev(a.drop_last(), b) + 1,
            lev(a, b.drop_last()) + 1,
            lev(a.drop_last(), b.drop_last()) + if a.last() == b.last() {
                0nat
            } else {
                1nat
            },
        )
    }
}

/// The distance never exceeds the longer length.
pub proof fn lemma_lev_bound(a: Seq<char>, b: Seq<char>)
    ensures
        lev(a, b) <= if a.len() >= b.len() {
            a.len()
        } else {
            b.len()
        },
    decreases a.len() + b.len(),
{
    if a.len() > 0 && b.len() > 0 {
        lemma_lev_bound(a.drop_last(), b.drop_last());
    }
}

/// A text is at distance zero from itself.
pub proof fn lemma_lev_self(a: Seq<char>)
    ensures
        lev(a, a) == 0,
    decreases a.len(),
{
    if a.len() > 0 {
        lemma_lev_self(a.drop_last());
    }
}

/// Distance zero means equal texts.
pub proof fn lemma_lev_zero(a: Seq<char>, b: Seq<char>)
    requires
        lev(a, b) == 0,
    ensures
        a == b,
    decreases a.len() + b.len(),
{
    if a.len() == 0 || b.len() == 0 {
        assert(a =~= b);
    } else {
        lemma_lev_zero(a.drop_last(), b.drop_last());
        assert(a =~= a.drop_last().push(a.last()));
        assert(b =~= b.drop_last().push(b.last()));
    }
}

/// The distance is symmetric.
pub proof fn lemma_lev_symmetric(a: Seq<char>, b: Seq<char>)
    ensures
        lev(a, b) == lev(b, a),
    decreases a.len() + b.len(),
{
    if a.len() > 0 && b.len() > 0 {
        lemma_lev_symmetric(a.drop_last(), b);
        lemma_lev_symmetric(a, b.drop_last());
        lemma_lev_symmetric(a.drop_last(), b.drop_last());
    }
}

/// The distance is at least the difference of the lengths.
pub proof fn lemma_lev_lower_bound(a: Seq<char>, b: Seq<char>)
    ensures
        lev(a, b) >= if a.len() >= b.len() {
            a.len() - b.len()
        } else {
            b.len() - a.len()
        },
    decreases a.len() + b.len(),
{
    if a.len() > 0 && b.len() > 0 {
        lemma_lev_lower_bound(a.drop_last(), b);
        lemma_lev_lower_bound(a, b.drop_last());
        lemma_lev_lower_bound(a.drop_last(), b.drop_last());
    }
}

/// The laws of the edit distance: it is symmetric, zero exactly between
/// equal texts, at least the difference of the lengths and at most the
/// longer length.
pub proof fn lemma_lev_laws(a: Seq<char>, b: Seq<char>)
    ensures
        lev(a, b) == lev(b, a),
        lev(a, b) == 0 <==> a == b,
        lev(a, b) >= if a.len() >= b.len() {
            a.len() - b.len()
        } else {
            b.len() - a.len()
        },
        lev(a, b) <= if a.len() >= b.len() {
            a.len()
        } else {
            b.len()
        },
{
    lemma_lev_symmetric(a, b);
    lemma_lev_lower_bound(a, b);
    lemma_lev_bound(a, b);
    if lev(a, b) == 0 {
        lemma_lev_zero(a, b);
    }
    if a == b {
        lemma_lev_self(a);
    }
}

proof fn lemma_lev_step(a: Seq<char>, b: Seq<char>, i: int, j: int)
    requires
        1 <= i <= a.len(),
        1 <= j <= b.len(),
    ensures
        lev(a.take(i), b.take(j)) == min3(
            lev(a.take(i - 1), b.take(j)) + 1,
            lev(a.take(i), b.take(j - 1)) + 1,
            lev(a.take(i - 1), b.take(j - 1)) + if a[i - 1] == b[j - 1] {
                0nat
            } else {
                1nat
            },
        ),
{
    assert(a.take(i).drop_last() =~= a.take(i - 1));
    assert(b.take(j).drop_last() =~= b.take(j - 1));
}

/// Every character takes at least one byte of UTF-8.
pub proof fn lemma_utf8_len_at_least(s: Seq<char>)
    ensures
        vstd::utf8::encode_utf8(s).len() >= s.len(),
    decreases s.len(),
{
    if s.len() > 0 {
        lemma_utf8_len_at_least(s.drop_first());
    }
}

/// Edit distance used to suggest corrections of mistyped names. The table
/// is sized by byte length and indexed by character, so both texts must be
/// ASCII unless one of them is empty; with an empty text the distance is
/// the other's length in bytes.
pub fn levenshtein_distance(s1: &str, s2: &str) -> (r: usize)
    requires
        s1@.len() == 0 || s2@.len() == 0 || (vstd::string::is_ascii(s1)
            && vstd::string::is_ascii(s2)),
        s1.spec_bytes().len() + s2.spec_bytes().len() < usize::MAX,
    ensures
        r == if s1@.len() == 0 {
            s2.spec_bytes().len() as nat
        } else if s2@.len() == 0 {
            s1.spec_bytes().len() as nat
        } else {
            lev(s1@, s2@)
        },
{
    let len1 = s1.len();
    let len2 = s2.len();
    proof {
        lemma_utf8_len_at_least(s1@);
        lemma_utf8_len_at_least(s2@);
        if s1@.len() == 0 {
            assert(s1.spec_bytes() =~= Seq::<u8>::empty());
        }
        if s2@.len() == 0 {
            assert(s2.spec_bytes() =~= Seq::<u8>::empty());
        }
    }
    if len1 == 0 {
        return len2;
    }
    if len2 == 0 {
        return len1;
    }
    assert(len1 == s1@.len());
    assert(len2 == s2@.len());
    let ghost a = s1@;
    let ghost b = s2@;
    let mut prev: Vec<usize> = Vec::new();
    let mut j: usize = 0;
    while j <= len2
        invariant
            j <= len2 + 1,
            len1 + len2 < usize::MAX,
            len2 == b.len(),
            prev@.len() == j,
            forall|k: int| 0 <= k < j ==> prev@[k] == lev(a.take(0), b.take(k)),
        decreases len2 + 1 - j,
    {
        assert(a.take(0).len() == 0);
        prev.push(j);
        j = j + 1;
    }
    let mut i: usize = 1;
    while i <= len1
        invariant
            1 <= i <= len1 + 1,
            len1 + len2 < usize::MAX,
            len1 == a.len(),
            len2 == b.len(),
            a == s1@,
            b == s2@,
            prev@.len() == len2 + 1,
            forall|k: int| 0 <= k <= len2 ==> prev@[k] == lev(a.take(i - 1), b.take(k)),
            forall|k: int| 0 <= k <= len2 ==> prev@[k] <= len1 + len2,
        decreases len1 + 1 - i,
    {
        let ci = s1.get_char(i - 1);
        let mut cur: Vec<usize> = Vec::new();
        proof {
            assert(b.take(0).len() == 0);
            assert(a.take(i as int).len() == i);
        }
        cur.push(i);
        let mut j: usize = 1;
        while j <= len2
            invariant
                1 <= i <= len1,
                1 <= j <= len2 + 1,
                len1 + len2 < usize::MAX,
                len1 == a.len(),
                len2 == b.len(),
                a == s1@,
                b == s2@,
                ci == a[i - 1],
                prev@.len() == len2 + 1,
                forall|k: int| 0 <= k <= len2 ==> prev@[k] == lev(a.take(i - 1), b.take(k)),
                forall|k: int| 0 <= k <= len2 ==> prev@[k] <= len1 + len2,
                cur@.len() == j,
                forall|k: int| 0 <= k < j ==> cur@[k] == lev(a.take(i as int), b.take(k)),
                forall|k: int| 0 <= k < j ==> cur@[k] <= len1 + len2,
            decreases len2 + 1 - j,
        {
            let cj = s2.get_char(j - 1);
            let cost: usize = if ci == cj {
                0
            } else {
                1
            };
            let deletion = prev[j] + 1;
            let insertion = cur[j - 1] + 1;
            let substitution = prev[j - 1] + cost;
            let mut best = deletion;
            if insertion < best {
                best = insertion;
            }
            if substitution < best {
                best = substitution;
            }
            proof {
                lemma_lev_step(a, b, i as int, j as int);
                lemma_lev_bound(a.take(i as int), b.take(j as int));
            }
            cur.push(best);
            j = j + 1;
        }
        prev = cur;
        i = i + 1;
    }
    proof {
        assert(a.take(len1 as int) =~= a);
        assert(b.take(len2 as int) =~= b);
    }
    prev[len2]
}

/// `c` with an ASCII capital letter mapped to its small letter.
pub open spec fn ascii_lower(c: char) -> char {
    if 'A' <= c && c <= 'Z' {
        ((c as u32) + 32) as char
    } else {
        c
    }
}

/// `c` with an ASCII small letter mapped to its capital letter.
pub open spec fn ascii_upper(c: char) -> char {
    if 'a' <= c && c <= 'z' {
        ((c as u32) - 32) as char
    } else {
        c
    }
}

/// `s` with ASCII capital letters mapped to small letters.
pub open spec fn ascii_lowercase(s: Seq<char>) -> Seq<char> {
    Seq::new(s.len(), |i: int| ascii_lower(s[i]))
}

/// The ASCII small letter of an ASCII capital letter; other characters
/// unchanged.
pub fn to_ascii_lower(c: char) -> (r: char)
    ensures
        r == ascii_lower(c),
{
    if 'A' <= c && c <= 'Z' {
        let x: u8 = (c as u8) + 32;
        x as char
    } else {
        c
    }
}

/// The ASCII capital letter of an ASCII small letter; other characters
/// unchanged.
pub fn to_ascii_upper(c: char) -> (r: char)
    ensures
        r == ascii_upper(c),
{
    if 'a' <= c && c <= 'z' {
        let x: u8 = (c as u8) - 32;
        x as char
    } else {
        c
    }
}

/// `String` from its characters, by collecting them.
#[verifier::external_body]
pub(crate) fn string_from_chars(chars: &Vec<char>) -> (r: String)
    ensures
        r@ == chars@,
{
    chars.iter().collect()
}

/// The characters of `s`.
pub fn str_chars(s: &str) -> (r: Vec<char>)
    ensures
        r@ == s@,
{
    let n = s.unicode_len();
    let mut out: Vec<char> = Vec::new();
    let mut i: usize = 0;
    while i < n
        invariant
            0 <= i <= n,
            n == s@.len(),
            out@ == s@.take(i as int),
        decreases n - i,
    {
        out.push(s.get_char(i));
        proof {
            assert(s@.take(i + 1) =~= s@.take(i as int).push(s@[i as int]));
        }
        i = i + 1;
    }
    assert(s@.take(n as int) =~= s@);
    out
}

/// Whether two texts are the same.
pub fn str_eq(a: &str, b: &str) -> (r: bool)
    ensures
        r == (a@ == b@),
{
    let n = a.unicode_len();
    if n != b.unicode_len() {
        return false;
    }
    let mut i: usize = 0;
    while i < n
        invariant
            0 <= i <= n,
            n == a@.len(),
            n == b@.len(),
            forall|j: int| 0 <= j < i ==> a@[j] == b@[j],
        decreases n - i,
    {
        if a.get_char(i) != b.get_char(i) {
            return false;
        }
        i = i + 1;
    }
    assert(a@ =~= b@);
    true
}

/// `s` with ASCII capital letters mapped to small letters.
pub fn to_ascii_lowercase(s: &str) -> (r: String)
    ensures
        r@ == ascii_lowercase(s@),
{
    let n = s.unicode_len();
    let mut out: Vec<char> = Vec::new();
    let mut i: usize = 0;
    while i < n
        invariant
            0 <= i <= n,
            n == s@.len(),
            out@ == ascii_lowercase(s@.take(i as int)),
        decreases n - i,
    {
        out.push(to_ascii_lower(s.get_char(i)));
        proof {
            assert(ascii_lowercase(s@.take(i + 1)) =~= ascii_lowercase(s@.take(i as int)).push(
                ascii_lower(s@[i as int]),
            ));
        }
        i = i + 1;
    }
    assert(s@.take(n as int) =~= s@);
    string_from_chars(&out)
}

/// The ASCII lowercase of an ASCII text is ASCII, of the same length.
pub proof fn lemma_ascii_lowercase_ascii(s: Seq<char>)
    requires
        vstd::utf8::is_ascii_chars(s),
    ensures
        vstd::utf8::is_ascii_chars(ascii_lowercase(s)),
        ascii_lowercase(s).len() == s.len(),
{
    assert forall|i| 0 <= i < ascii_lowercase(s).len() implies '\0' <= #[trigger] ascii_lowercase(
        s,
    )[i] <= '\u{7f}' by {
        assert('\0' <= s[i] <= '\u{7f}');
    }
}

/// What `str::to_lowercase` gives for a text: its Unicode lowercase.
pub uninterp spec fn lowercase_of(s: Seq<char>) -> Seq<char>;

/// `str::to_lowercase`. Its result is named by `lowercase_of`: it comes from
/// Unicode's case tables and depends on the text alone; nothing more is
/// claimed of it.
#[verifier::external_body]
fn str_to_lowercase(s: &str) -> (r: String)
    ensures
        r@ == lowercase_of(s@),
{
    s.to_lowercase()
}

/// The lowercase of a text: for an ASCII text, ASCII letters mapped to
/// lowercase (which is what Unicode lowercasing does to ASCII); otherwise
/// its Unicode lowercase.
pub open spec fn lowered(s: Seq<char>) -> Seq<char> {
    if vstd::utf8::is_ascii_chars(s) {
        ascii_lowercase(s)
    } else {
        lowercase_of(s)
    }
}

/// The lowercase of `s`, computed as `lowered` says.
fn to_lowercase(s: &str) -> (r: String)
    ensures
        r@ == lowered(s@),
{
    if s.is_ascii() {
        to_ascii_lowercase(s)
    } else {
        str_to_lowercase(s)
    }
}

/// Whether option `o` matches `input` ignoring case.
pub open spec fn same_ignoring_case(input: Seq<char>, o: Seq<char>) -> bool {
    ascii_lowercase(o) == lowered(input)
}

/// Whether option `o` is within two edits of `input`, ignoring case.
pub open spec fn close_ignoring_case(input: Seq<char>, o: Seq<char>) -> bool {
    lev(lowered(input), ascii_lowercase(o)) <= 2
}

/// Suggests a valid option for a mistyped `input`: the first option equal
/// to it ignoring case, else the first within two edits of it ignoring
/// case, else none. The options are ASCII; the input may be any text when
/// there are no options, and otherwise any text whose lowercase is ASCII.
pub fn suggest_correction<'a>(input: &'a str, valid_options: &'a [&'a str]) -> (r: Option<&'a str>)
    requires
        forall|i: int| 0 <= i < valid_options@.len() ==> vstd::string::is_ascii(#[trigger] valid_options@[i]),
        valid_options@.len() == 0 || vstd::utf8::is_ascii_chars(lowered(input@)),
        forall|i: int|
            0 <= i < valid_options@.len() ==> lowered(input@).len() + (#[trigger] valid_options@[i])@.len()
                < usize::MAX,
    ensures
        r matches Some(o) ==> exists|i: int|
            0 <= i < valid_options@.len() && o == #[trigger] valid_options@[i] && ({
                ||| (same_ignoring_case(input@, o@) && forall|j: int|
                    0 <= j < i ==> !same_ignoring_case(input@, (#[trigger] valid_options@[j])@))
                ||| ((forall|j: int|
                    0 <= j < valid_options@.len() ==> !same_ignoring_case(input@, (#[trigger] valid_options@[j])@))
                    && close_ignoring_case(input@, o@) && forall|j: int|
                    0 <= j < i ==> !close_ignoring_case(input@, (#[trigger] valid_options@[j])@))
            }),
        r is None ==> forall|j: int|
            0 <= j < valid_options@.len() ==> !same_ignoring_case(input@, (#[trigger] valid_options@[j])@)
                && !close_ignoring_case(input@, valid_options@[j]@),
{
    let input_lower = to_lowercase(input);
    let mut i: usize = 0;
    while i < valid_options.len()
        invariant
            0 <= i <= valid_options@.len(),
            input_lower@ == lowered(input@),
            forall|j: int| 0 <= j < i ==> !same_ignoring_case(input@, (#[trigger] valid_options@[j])@),
        decreases valid_options@.len() - i,
    {
        let option = valid_options[i];
        let option_lower = to_ascii_lowercase(option);
        if str_eq(option_lower.as_str(), input_lower.as_str()) {
            assert(same_ignoring_case(input@, valid_options@[i as int]@));
            assert(option == valid_options@[i as int]);
            return Some(option);
        }
        i = i + 1;
    }
    let mut i: usize = 0;
    while i < valid_options.len()
        invariant
            0 <= i <= valid_options@.len(),
            forall|j: int| 0 <= j < valid_options@.len() ==> vstd::string::is_ascii(#[trigger] valid_options@[j]),
            forall|j: int|
                0 <= j < valid_options@.len() ==> lowered(input@).len() + (#[trigger] valid_options@[j])@.len()
                    < usize::MAX,
            input_lower@ == lowered(input@),
            valid_options@.len() == 0 || vstd::utf8::is_ascii_chars(input_lower@),
            forall|j: int|
                0 <= j < valid_options@.len() ==> !same_ignoring_case(input@, (#[trigger] valid_options@[j])@),
            forall|j: int| 0 <= j < i ==> !close_ignoring_case(input@, (#[trigger] valid_options@[j])@),
        decreases valid_options@.len() - i,
    {
        let option = valid_options[i];
        let option_lower = to_ascii_lowercase(option);
        proof {
            assert(vstd::string::is_ascii(valid_options@[i as int]));
            lemma_ascii_lowercase_ascii(option@);
        }
        let a = input_lower.as_str();
        let b = option_lower.as_str();
        proof {
            assert(vstd::string::is_ascii(a));
            assert(vstd::string::is_ascii(b));
            assert(a.spec_bytes().len() == a@.len());
            assert(b.spec_bytes().len() == b@.len());
        }
        let d = levenshtein_distance(a, b);
        proof {
            assert(d == lev(a@, b@));
        }
        if d <= 2 {
            assert(close_ignoring_case(input@, valid_options@[i as int]@));
            assert(option == valid_options@[i as int]);
            return Some(option);
        }
        i = i + 1;
    }
    None
}

/// Whether `c` is white space (the Unicode `White_Space` property, as
/// `char::is_whitespace` tests it).
pub open spec fn is_white_space(c: char) -> bool {
    ||| ('\u{9}' <= c && c <= '\u{d}')
    ||| c == ' '
    ||| c == '\u{85}'
    ||| c == '\u{a0}'
    ||| c == '\u{1680}'
    ||| ('\u{2000}' <= c && c <= '\u{200a}')
    ||| c == '\u{2028}'
    ||| c == '\u{2029}'
    ||| c == '\u{202f}'
    ||| c == '\u{205f}'
    ||| c == '\u{3000}'
}

fn white_space(c: char) -> (r: bool)
    ensures
        r == is_white_space(c),
{
    ('\u{9}' <= c && c <= '\u{d}') || c == ' ' || c == '\u{85}' || c == '\u{a0}' || c
        == '\u{1680}' || ('\u{2000}' <= c && c <= '\u{200a}') || c == '\u{2028}' || c
        == '\u{2029}' || c == '\u{202f}' || c == '\u{205f}' || c == '\u{3000}'
}

/// `s` without its leading white space.
pub open spec fn trim_start(s: Seq<char>) -> Seq<char>
    decreases s.len(),
{
    if s.len() > 0 && is_white_space(s[0]) {
        trim_start(s.drop_first())
    } else {
        s
    }
}

/// `s` without its trailing white space.
pub open spec fn trim_end(s: Seq<char>) -> Seq<char>
    decreases s.len(),
{
    if s.len() > 0 && is_white_space(s.last()) {
        trim_end(s.drop_last())
    } else {
        s
    }
}

/// `s` without leading and trailing white space.
pub open spec fn trim(s: Seq<char>) -> Seq<char> {
    trim_end(trim_start(s))
}

proof fn lemma_trim_start_skip(s: Seq<char>, i: int)
    requires
        0 <= i <= s.len(),
        forall|j: int| 0 <= j < i ==> is_white_space(#[trigger] s[j]),
    ensures
        trim_start(s) == trim_start(s.skip(i)),
    decreases i,
{
    if i > 0 {
        lemma_trim_start_skip(s.drop_first(), i - 1);
        assert(s.drop_first().skip(i - 1) =~= s.skip(i));
    } else {
        assert(s.skip(0) =~= s);
    }
}

proof fn lemma_trim_end_take(s: Seq<char>, k: int)
    requires
        0 <= k <= s.len(),
        forall|j: int| k <= j < s.len() ==> is_white_space(#[trigger] s[j]),
    ensures
        trim_end(s) == trim_end(s.take(k)),
    decreases s.len() - k,
{
    if k < s.len() {
        lemma_trim_end_take(s.drop_last(), k);
        assert(s.drop_last().take(k) =~= s.take(k));
    } else {
        assert(s.take(k) =~= s);
    }
}

/// `s` without leading and trailing white space.
pub fn trim_str(s: &str) -> (r: &str)
    ensures
        r@ == trim(s@),
{
    let n = s.unicode_len();
    let mut lo: usize = 0;
    while lo < n && white_space(s.get_char(lo))
        invariant
            0 <= lo <= n,
            n == s@.len(),
            forall|j: int| 0 <= j < lo ==> is_white_space(#[trigger] s@[j]),
        decreases n - lo,
    {
        lo = lo + 1;
    }
    proof {
        lemma_trim_start_skip(s@, lo as int);
    }
    let ghost t = s@.skip(lo as int);
    assert(trim_start(t) == t);
    let mut hi: usize = n;
    while hi > lo && white_space(s.get_char(hi - 1))
        invariant
            lo <= hi <= n,
            n == s@.len(),
            t == s@.skip(lo as int),
            forall|j: int| hi <= j < n ==> is_white_space(#[trigger] s@[j]),
        decreases hi - lo,
    {
        hi = hi - 1;
    }
    proof {
        assert forall|j: int| hi - lo <= j < t.len() implies is_white_space(#[trigger] t[j]) by {
            assert(t[j] == s@[j + lo]);
        }
        lemma_trim_end_take(t, hi - lo);
        assert(t.take(hi - lo) =~= s@.subrange(lo as int, hi as int));
        if hi > lo {
            assert(t.take(hi - lo).last() == s@[hi - 1]);
        }
    }
    s.substring_char(lo, hi)
}

/// The pieces of `s` between commas, as `str::split(',')` gives them.
pub open spec fn split_commas(s: Seq<char>) -> Seq<Seq<char>>
    decreases s.len(),
{
    if s.len() == 0 {
        seq![Seq::empty()]
    } else {
        let prev = split_commas(s.drop_last());
        if s.last() == ',' {
            prev.push(Seq::empty())
        } else {
            prev.update(prev.len() - 1, prev.last().push(s.last()))
        }
    }
}

proof fn lemma_split_commas_nonempty(s: Seq<char>)
    ensures
        split_commas(s).len() >= 1,
    decreases s.len(),
{
    if s.len() > 0 {
        lemma_split_commas_nonempty(s.drop_last());
    }
}

/// The pieces of `s` between commas, trimmed.
pub open spec fn comma_tokens(s: Seq<char>) -> Seq<Seq<char>> {
    split_commas(s).map_values(|t: Seq<char>| trim(t))
}

/// The pieces of `s` between commas.
pub fn split_str_commas(s: &str) -> (r: Vec<String>)
    ensures
        r@.len() == split_commas(s@).len(),
        forall|k: int| 0 <= k < r@.len() ==> (#[trigger] r@[k])@ == split_commas(s@)[k],
{
    let n = s.unicode_len();
    let mut pieces: Vec<String> = Vec::new();
    let mut current: Vec<char> = Vec::new();
    let mut i: usize = 0;
    while i < n
        invariant
            0 <= i <= n,
            n == s@.len(),
            pieces@.len() + 1 == split_commas(s@.take(i as int)).len(),
            forall|k: int|
                0 <= k < pieces@.len() ==> (#[trigger] pieces@[k])@ == split_commas(
                    s@.take(i as int),
                )[k],
            current@ == split_commas(s@.take(i as int)).last(),
        decreases n - i,
    {
        let c = s.get_char(i);
        proof {
            assert(s@.take(i + 1).drop_last() =~= s@.take(i as int));
            lemma_split_commas_nonempty(s@.take(i as int));
        }
        if c == ',' {
            let piece = string_from_chars(&current);
            pieces.push(piece);
            current = Vec::new();
        } else {
            current.push(c);
        }
        i = i + 1;
    }
    let last = string_from_chars(&current);
    pieces.push(last);
    proof {
        assert(s@.take(n as int) =~= s@);
    }
    pieces
}

/// Trimming keeps ASCII text ASCII and never lengthens it.
pub proof fn lemma_trim_ascii(s: Seq<char>)
    requires
        vstd::utf8::is_ascii_chars(s),
    ensures
        vstd::utf8::is_ascii_chars(trim(s)),
        trim(s).len() <= s.len(),
{
    lemma_trim_start_ascii(s);
    lemma_trim_end_ascii(trim_start(s));
}

proof fn lemma_trim_start_ascii(s: Seq<char>)
    requires
        vstd::utf8::is_ascii_chars(s),
    ensures
        vstd::utf8::is_ascii_chars(trim_start(s)),
        trim_start(s).len() <= s.len(),
    decreases s.len(),
{
    if s.len() > 0 && is_white_space(s[0]) {
        assert forall|i| 0 <= i < s.drop_first().len() implies '\0' <= #[trigger] s.drop_first()[i]
            <= '\u{7f}' by {
            assert(s.drop_first()[i] == s[i + 1]);
        }
        lemma_trim_start_ascii(s.drop_first());
    }
}

proof fn lemma_trim_end_ascii(s: Seq<char>)
    requires
        vstd::utf8::is_ascii_chars(s),
    ensures
        vstd::utf8::is_ascii_chars(trim_end(s)),
        trim_end(s).len() <= s.len(),
    decreases s.len(),
{
    if s.len() > 0 && is_white_space(s.last()) {
        assert forall|i| 0 <= i < s.drop_last().len() implies '\0' <= #[trigger] s.drop_last()[i]
            <= '\u{7f}' by {
            assert(s.drop_last()[i] == s[i]);
        }
        lemma_trim_end_ascii(s.drop_last());
    }
}

/// The pieces between commas of ASCII text are ASCII and no longer than it.
pub proof fn lemma_split_commas_ascii(s: Seq<char>)
    requires
        vstd::utf8::is_ascii_chars(s),
    ensures
        forall|k: int|
            0 <= k < split_commas(s).len() ==> vstd::utf8::is_ascii_chars(
                #[trigger] split_commas(s)[k],
            ) && split_commas(s)[k].len() <= s.len(),
    decreases s.len(),
{
    if s.len() > 0 {
        let p = s.drop_last();
        assert forall|i| 0 <= i < p.len() implies '\0' <= #[trigger] p[i] <= '\u{7f}' by {
            assert(p[i] == s[i]);
        }
        lemma_split_commas_ascii(p);
        lemma_split_commas_nonempty(p);
        let prev = split_commas(p);
        assert('\0' <= s[s.len() - 1] <= '\u{7f}');
        if s.last() != ',' {
            let q = prev.last().push(s.last());
            assert forall|i| 0 <= i < q.len() implies '\0' <= #[trigger] q[i] <= '\u{7f}' by {
                if i < prev.last().len() {
                    assert(q[i] == prev[prev.len() - 1][i]);
                }
            }
        }
    }
}

} // verus!
