//! The decisions of the registry's code generators, on plain descriptions of
//! the declarations they read: account attributes of instruction accounts,
//! flag layouts of optional fields, and the byte-codec call for each field
//! type.

use crate::naming::{
    close_ignoring_case, comma_tokens, lemma_ascii_lowercase_ascii, lemma_split_commas_ascii, lemma_trim_ascii,
    same_ignoring_case, split_commas, split_str_commas, str_eq, suggest_correction, trim_str,
};
use crate::bits::{flag_of, lemma_flag_write_read, with_flag};
use vstd::prelude::*;
use vstd::string::{StrSliceExecFns, StringExecFns};

verus! {

/// The form of an attribute: a bare path, a parenthesized list of tokens
/// (kept as their text), or `name = value`.
pub enum AttrMeta {
    Path,
    List(String),
    NameValue,
}

/// An attribute on a field: its path and its form.
pub struct FieldAttr {
    pub path: String,
    pub meta: AttrMeta,
}

/// Why the `account` attributes of a field were refused.
pub enum AccountAttrError {
    /// A token that is neither `signer` nor `writable`, with the valid
    /// attribute it most likely meant.
    Unknown { token: String, suggestion: Option<&'static str> },
    /// The attribute was written as `account = ...`.
    NameValue,
}

pub open spec fn account_word() -> Seq<char> {
    seq!['a', 'c', 'c', 'o', 'u', 'n', 't']
}

pub open spec fn signer_word() -> Seq<char> {
    seq!['s', 'i', 'g', 'n', 'e', 'r']
}

pub open spec fn writable_word() -> Seq<char> {
    seq!['w', 'r', 'i', 't', 'a', 'b', 'l', 'e']
}

/// What an attribute contributes, in order: each trimmed token of an
/// `account(...)` list, or a refusal (`None`) for `account = ...`; other
/// attributes contribute nothing.
pub open spec fn attr_items(a: FieldAttr) -> Seq<Option<Seq<char>>> {
    if a.path@ != account_word() {
        Seq::empty()
    } else {
        match a.meta {
            AttrMeta::Path => Seq::empty(),
            AttrMeta::NameValue => seq![None],
            AttrMeta::List(c) => comma_tokens(c@).map_values(|t: Seq<char>| Some(t)),
        }
    }
}

/// What all attributes of a field contribute, in order.
pub open spec fn all_items(attrs: Seq<FieldAttr>) -> Seq<Option<Seq<char>>>
    decreases attrs.len(),
{
    if attrs.len() == 0 {
        Seq::empty()
    } else {
        all_items(attrs.drop_last()) + attr_items(attrs.last())
    }
}

/// Whether an item is refused: `account = ...`, or a non-empty token other
/// than `signer` and `writable`.
pub open spec fn bad_item(it: Option<Seq<char>>) -> bool {
    match it {
        None => true,
        Some(t) => t.len() > 0 && t != signer_word() && t != writable_word(),
    }
}

/// The suggestion for a mistyped token: a valid attribute equal to it
/// ignoring case, else one within two edits, `signer` first.
pub open spec fn suggestion_of(t: Seq<char>) -> Option<Seq<char>> {
    if same_ignoring_case(t, signer_word()) {
        Some(signer_word())
    } else if same_ignoring_case(t, writable_word()) {
        Some(writable_word())
    } else if close_ignoring_case(t, signer_word()) {
        Some(signer_word())
    } else if close_ignoring_case(t, writable_word()) {
        Some(writable_word())
    } else {
        None
    }
}

/// Whether `e` is the error that reports item `it`.
pub open spec fn reports(it: Option<Seq<char>>, e: AccountAttrError) -> bool {
    match it {
        None => e is NameValue,
        Some(t) => match e {
            AccountAttrError::Unknown { token, suggestion } => token@ == t && match suggestion {
                Some(s) => suggestion_of(t) == Some(s@),
                None => suggestion_of(t) is None,
            },
            AccountAttrError::NameValue => false,
        },
    }
}

/// Whether the attributes may be read: the texts of `account(...)` lists
/// are ASCII and of a size that leaves room to compare them; other
/// attributes are not read.
pub open spec fn attrs_readable(attrs: Seq<FieldAttr>) -> bool {
    forall|k: int|
        0 <= k < attrs.len() && (#[trigger] attrs[k]).path@ == account_word() ==> match attrs[k].meta {
            AttrMeta::List(c) => vstd::utf8::is_ascii_chars(c@) && c@.len() + 8 < usize::MAX,
            _ => true,
        }
}

fn suggest_attribute(token: &str) -> (r: Option<&'static str>)
    requires
        vstd::string::is_ascii(token),
        token@.len() + 8 < usize::MAX,
    ensures
        match r {
            Some(s) => suggestion_of(token@) == Some(s@),
            None => suggestion_of(token@) is None,
        },
{
    let signer: &'static str = "signer";
    let writable: &'static str = "writable";
    proof {
        reveal_strlit("signer");
        reveal_strlit("writable");
        assert(signer@ == signer_word());
        assert(writable@ == writable_word());
    }
    let options: [&'static str; 2] = [signer, writable];
    let ghost o = options@;
    assert(o[0] == signer);
    assert(o[1] == writable);
    proof {
        lemma_ascii_lowercase_ascii(token@);
    }
    let r = suggest_correction(token, options.as_slice());
    proof {
        if r is None {
            assert(!same_ignoring_case(token@, o[0]@) && !close_ignoring_case(token@, o[0]@));
            assert(!same_ignoring_case(token@, o[1]@) && !close_ignoring_case(token@, o[1]@));
        }
    }
    match r {
        Some(x) => {
            if str_eq(x, signer) {
                proof {
                    if x == o[1] {
                        assert(signer@ != writable@) by {
                            assert(signer@[0] != writable@[0]);
                        }
                    }
                }
                Some(signer)
            } else {
                Some(writable)
            }
        },
        None => None,
    }
}

proof fn lemma_all_items_step(attrs: Seq<FieldAttr>, a: int)
    requires
        0 <= a < attrs.len(),
    ensures
        all_items(attrs.take(a + 1)) == all_items(attrs.take(a)) + attr_items(attrs[a]),
{
    assert(attrs.take(a + 1).drop_last() =~= attrs.take(a));
}

proof fn lemma_all_items_prefix(attrs: Seq<FieldAttr>, a: int)
    requires
        0 <= a <= attrs.len(),
    ensures
        all_items(attrs.take(a)).len() <= all_items(attrs).len(),
        forall|k: int|
            0 <= k < all_items(attrs.take(a)).len() ==> #[trigger] all_items(attrs)[k] == all_items(
                attrs.take(a),
            )[k],
    decreases attrs.len() - a,
{
    if a < attrs.len() {
        lemma_all_items_prefix(attrs, a + 1);
        lemma_all_items_step(attrs, a);
    } else {
        assert(attrs.take(a) =~= attrs);
    }
}

/// Reads the `account` attributes of an instruction account: `signer` and
/// `writable` may be listed; any other non-empty token, and the
/// `account = ...` form, are refused, the first of them giving the error.
/// Attributes with other paths are ignored.
pub fn parse_account_attributes(attrs: &Vec<FieldAttr>) -> (r: Result<(bool, bool), AccountAttrError>)
    requires
        attrs_readable(attrs@),
    ensures
        ({
            let items = all_items(attrs@);
            match r {
                Ok((is_signer, is_writable)) => {
                    &&& forall|k: int| 0 <= k < items.len() ==> !bad_item(#[trigger] items[k])
                    &&& is_signer == items.contains(Some(signer_word()))
                    &&& is_writable == items.contains(Some(writable_word()))
                },
                Err(e) => exists|k: int|
                    0 <= k < items.len() && bad_item(#[trigger] items[k]) && (forall|j: int|
                        0 <= j < k ==> !bad_item(#[trigger] items[j])) && reports(items[k], e),
            }
        }),
{
    let account: &'static str = "account";
    let signer: &'static str = "signer";
    let writable: &'static str = "writable";
    proof {
        reveal_strlit("account");
        reveal_strlit("signer");
        reveal_strlit("writable");
    }
    let mut is_signer = false;
    let mut is_writable = false;
    let mut a: usize = 0;
    while a < attrs.len()
        invariant
            0 <= a <= attrs@.len(),
            attrs_readable(attrs@),
            account@ == account_word(),
            signer@ == signer_word(),
            writable@ == writable_word(),
            forall|k: int|
                0 <= k < all_items(attrs@.take(a as int)).len() ==> !bad_item(
                    #[trigger] all_items(attrs@.take(a as int))[k],
                ),
            is_signer == all_items(attrs@.take(a as int)).contains(Some(signer_word())),
            is_writable == all_items(attrs@.take(a as int)).contains(Some(writable_word())),
        decreases attrs@.len() - a,
    {
        let ghost before = all_items(attrs@.take(a as int));
        proof {
            lemma_all_items_step(attrs@, a as int);
            lemma_all_items_prefix(attrs@, a + 1);
        }
        let ghost after = all_items(attrs@.take(a + 1));
        let attr = &attrs[a];
        if str_eq(attr.path.as_str(), account) {
            match &attr.meta {
                AttrMeta::List(content) => {
                    proof {
                        assert(vstd::utf8::is_ascii_chars(content@));
                    }
                    let pieces = split_str_commas(content.as_str());
                    let ghost tokens = comma_tokens(content@);
                    assert(after == before + tokens.map_values(|t: Seq<char>| Some(t)));
                    let mut t: usize = 0;
                    while t < pieces.len()
                        invariant
                            0 <= t <= pieces@.len(),
                            pieces@.len() == split_commas(content@).len(),
                            forall|k: int|
                                0 <= k < pieces@.len() ==> (#[trigger] pieces@[k])@
                                    == split_commas(content@)[k],
                            tokens == comma_tokens(content@),
                            tokens.len() == pieces@.len(),
                            after == before + tokens.map_values(|t: Seq<char>| Some(t)),
                            all_items(attrs@).len() >= after.len(),
                            forall|k: int| 0 <= k < after.len() ==> #[trigger] all_items(attrs@)[k] == after[k],
                            vstd::utf8::is_ascii_chars(content@),
                            content@.len() + 8 < usize::MAX,
                            signer@ == signer_word(),
                            writable@ == writable_word(),
                            forall|k: int|
                                0 <= k < before.len() ==> !bad_item(#[trigger] before[k]),
                            forall|k: int| 0 <= k < t ==> !bad_item(Some(#[trigger] tokens[k])),
                            is_signer == (before.contains(Some(signer_word())) || exists|k: int|
                                0 <= k < t && #[trigger] tokens[k] == signer_word()),
                            is_writable == (before.contains(Some(writable_word())) || exists|k: int|
                                0 <= k < t && #[trigger] tokens[k] == writable_word()),
                        decreases pieces@.len() - t,
                    {
                        let token = trim_str(pieces[t].as_str());
                        assert(token@ == tokens[t as int]);
                        if token.unicode_len() == 0 {
                        } else if str_eq(token, signer) {
                            is_signer = true;
                        } else if str_eq(token, writable) {
                            is_writable = true;
                        } else {
                            proof {
                                let k = before.len() + t;
                                assert(all_items(attrs@)[k] == Some(tokens[t as int]));
                                assert forall|j: int| 0 <= j < k implies !bad_item(
                                    #[trigger] all_items(attrs@)[j],
                                ) by {
                                    if j >= before.len() {
                                        assert(all_items(attrs@)[j] == Some(tokens[j - before.len()]));
                                    } else {
                                        assert(all_items(attrs@)[j] == before[j]);
                                    }
                                }
                                lemma_split_commas_ascii(content@);
                                assert(vstd::utf8::is_ascii_chars(split_commas(content@)[t as int]));
                                lemma_trim_ascii(split_commas(content@)[t as int]);
                            }
                            let suggestion = suggest_attribute(token);
                            return Err(
                                AccountAttrError::Unknown {
                                    token: String::from_str(token),
                                    suggestion,
                                },
                            );
                        }
                        t = t + 1;
                    }
                    proof {
                        assert forall|k: int| 0 <= k < after.len() implies !bad_item(#[trigger] after[k]) by {
                            if k >= before.len() {
                                assert(after[k] == Some(tokens[k - before.len()]));
                            }
                        }
                        if is_signer && !before.contains(Some(signer_word())) {
                            let k = choose|k: int| 0 <= k < t && #[trigger] tokens[k] == signer_word();
                            assert(after[before.len() + k] == Some(signer_word()));
                        }
                        if after.contains(Some(signer_word())) && !before.contains(Some(signer_word())) {
                            let k = choose|k: int| 0 <= k < after.len() && after[k] == Some(signer_word());
                            if k < before.len() {
                                assert(before[k] == Some(signer_word()));
                            } else {
                                assert(tokens[k - before.len()] == signer_word());
                            }
                        }
                        if is_writable && !before.contains(Some(writable_word())) {
                            let k = choose|k: int| 0 <= k < t && #[trigger] tokens[k] == writable_word();
                            assert(after[before.len() + k] == Some(writable_word()));
                        }
                        if after.contains(Some(writable_word())) && !before.contains(Some(writable_word())) {
                            let k = choose|k: int| 0 <= k < after.len() && after[k] == Some(writable_word());
                            if k < before.len() {
                                assert(before[k] == Some(writable_word()));
                            } else {
                                assert(tokens[k - before.len()] == writable_word());
                            }
                        }
                        if before.contains(Some(signer_word())) {
                            let k = choose|k: int| 0 <= k < before.len() && before[k] == Some(signer_word());
                            assert(after[k] == Some(signer_word()));
                        }
                        if before.contains(Some(writable_word())) {
                            let k = choose|k: int| 0 <= k < before.len() && before[k] == Some(writable_word());
                            assert(after[k] == Some(writable_word()));
                        }
                    }
                },
                AttrMeta::Path => {
                    assert(after =~= before);
                },
                AttrMeta::NameValue => {
                    proof {
                        let k = before.len() as int;
                        assert(after == before.push(None));
                        assert(all_items(attrs@)[k] == None::<Seq<char>>);
                        assert forall|j: int| 0 <= j < k implies !bad_item(#[trigger] all_items(attrs@)[j]) by {
                            assert(all_items(attrs@)[j] == before[j]);
                        }
                    }
                    return Err(AccountAttrError::NameValue);
                },
            }
        } else {
            assert(after =~= before);
        }
        a = a + 1;
    }
    proof {
        assert(attrs@.take(attrs@.len() as int) =~= attrs@);
    }
    Ok((is_signer, is_writable))
}

/// A field of an instruction's account list: its name and attributes.
pub struct AccountField {
    pub name: String,
    pub attrs: Vec<FieldAttr>,
}

/// How an account is passed to an instruction.
pub struct AccountMetaEntry {
    pub name: String,
    pub is_signer: bool,
    pub is_writable: bool,
}

/// Whether no attribute of a field is refused.
pub open spec fn attrs_ok(attrs: Seq<FieldAttr>) -> bool {
    forall|k: int| 0 <= k < all_items(attrs).len() ==> !bad_item(#[trigger] all_items(attrs)[k])
}

/// Whether `e` is the error for the first refused attribute item.
pub open spec fn first_error(attrs: Seq<FieldAttr>, e: AccountAttrError) -> bool {
    let items = all_items(attrs);
    exists|k: int|
        0 <= k < items.len() && bad_item(#[trigger] items[k]) && (forall|j: int|
            0 <= j < k ==> !bad_item(#[trigger] items[j])) && reports(items[k], e)
}

/// The account metas of an account list, one per field in order, with the
/// signer and writable marks its attributes give; the first refused
/// attribute, in field order, gives the error.
pub fn account_metas(fields: &Vec<AccountField>) -> (r: Result<Vec<AccountMetaEntry>, AccountAttrError>)
    requires
        forall|i: int| 0 <= i < fields@.len() ==> attrs_readable((#[trigger] fields@[i]).attrs@),
    ensures
        match r {
            Ok(v) => {
                &&& v@.len() == fields@.len()
                &&& forall|i: int|
                    0 <= i < v@.len() ==> {
                        let items = all_items(fields@[i].attrs@);
                        &&& (#[trigger] v@[i]).name@ == fields@[i].name@
                        &&& attrs_ok(fields@[i].attrs@)
                        &&& v@[i].is_signer == items.contains(Some(signer_word()))
                        &&& v@[i].is_writable == items.contains(Some(writable_word()))
                    }
            },
            Err(e) => exists|i: int|
                0 <= i < fields@.len() && (forall|j: int|
                    0 <= j < i ==> attrs_ok((#[trigger] fields@[j]).attrs@)) && first_error(
                    (#[trigger] fields@[i]).attrs@,
                    e,
                ),
        },
{
    let mut out: Vec<AccountMetaEntry> = Vec::new();
    let mut i: usize = 0;
    while i < fields.len()
        invariant
            0 <= i <= fields@.len(),
            forall|k: int| 0 <= k < fields@.len() ==> attrs_readable((#[trigger] fields@[k]).attrs@),
            out@.len() == i,
            forall|k: int|
                0 <= k < i ==> {
                    let items = all_items(fields@[k].attrs@);
                    &&& (#[trigger] out@[k]).name@ == fields@[k].name@
                    &&& attrs_ok(fields@[k].attrs@)
                    &&& out@[k].is_signer == items.contains(Some(signer_word()))
                    &&& out@[k].is_writable == items.contains(Some(writable_word()))
                },
        decreases fields@.len() - i,
    {
        let field = &fields[i];
        match parse_account_attributes(&field.attrs) {
            Ok((is_signer, is_writable)) => {
                let name = field.name.clone();
                out.push(AccountMetaEntry { name, is_signer, is_writable });
            },
            Err(e) => {
                proof {
                    assert forall|j: int| 0 <= j < i implies attrs_ok((#[trigger] fields@[j]).attrs@) by {
                        assert(out@[j].name@ == fields@[j].name@);
                    }
                }
                return Err(e);
            },
        }
        i = i + 1;
    }
    Ok(out)
}

/// The `optional(...)` attribute on a `flags` field, as read from source.
pub enum OptionalAttr {
    /// There is no `optional` attribute.
    Missing,
    /// The attribute is not a list of comma-separated names.
    Malformed,
    /// The names listed, in order.
    Names(Vec<String>),
}

/// A named field of a struct that derives optional-field flags.
pub struct FlagStructField {
    pub name: String,
    /// Whether the field's type is a path ending in `BitField`.
    pub is_bit_field: bool,
    pub optional: OptionalAttr,
}

/// What a listed flag stands for.
#[derive(Debug, Clone, Copy, PartialEq, Eq, Structural)]
pub enum FlagKind {
    /// A field of the struct: the flag says whether the field is present.
    Field,
    /// A name starting with `_` that is no field: an optional boolean kept in
    /// a second bit, after the presence bit.
    Virtual,
    /// Any other name: a plain flag with public accessors.
    Standalone,
}

/// The bits of one listed flag.
pub struct FlagSlot {
    pub name: String,
    /// Bit that says whether the value is present.
    pub bit: u8,
    /// Bit that holds the value of a virtual boolean.
    pub value_bit: Option<u8>,
    pub kind: FlagKind,
}

/// Why flags could not be derived.
#[derive(Debug, Clone, Copy, PartialEq, Eq, Structural)]
pub enum OptionFlagError {
    NoFlagsField,
    FlagsNotBitField,
    NoOptionalAttribute,
    MalformedOptionalAttribute,
}

/// Whether a name starts with an underscore.
pub open spec fn underscored(name: Seq<char>) -> bool {
    name.len() > 0 && name[0] == '_'
}

/// Bits a listed flag takes: two for a name starting with an underscore.
pub open spec fn flag_width(name: Seq<char>) -> nat {
    if underscored(name) {
        2
    } else {
        1
    }
}

/// The first bit of flag `i`: the widths of the flags before it, added up.
pub open spec fn flag_offset(names: Seq<Seq<char>>, i: int) -> nat
    decreases i,
{
    if i <= 0 {
        0
    } else {
        flag_offset(names, i - 1) + flag_width(names[i - 1])
    }
}

/// What flag `name` stands for among struct fields named `field_names`.
pub open spec fn flag_kind(name: Seq<char>, field_names: Seq<Seq<char>>) -> FlagKind {
    if field_names.contains(name) {
        FlagKind::Field
    } else if underscored(name) {
        FlagKind::Virtual
    } else {
        FlagKind::Standalone
    }
}

/// The names of the fields.
pub open spec fn field_names(fields: Seq<FlagStructField>) -> Seq<Seq<char>> {
    fields.map_values(|f: FlagStructField| f.name@)
}

/// Index of the first field named `flags`, if any.
pub open spec fn flags_field_index(fields: Seq<FlagStructField>) -> Option<int> {
    if exists|i: int| 0 <= i < fields.len() && (#[trigger] fields[i]).name@ == seq!['f', 'l', 'a', 'g', 's'] {
        Some(choose|i: int| 0 <= i < fields.len() && (#[trigger] fields[i]).name@ == seq!['f', 'l', 'a', 'g', 's']
            && forall|j: int| 0 <= j < i ==> (#[trigger] fields[j]).name@ != seq!['f', 'l', 'a', 'g', 's'])
    } else {
        None
    }
}

proof fn lemma_flag_offset_mono(names: Seq<Seq<char>>, i: int, j: int)
    requires
        0 <= i <= j,
    ensures
        flag_offset(names, i) <= flag_offset(names, j),
    decreases j - i,
{
    if i < j {
        lemma_flag_offset_mono(names, i, j - 1);
    }
}

fn find_flags_field(fields: &Vec<FlagStructField>) -> (r: Option<usize>)
    ensures
        match r {
            Some(i) => i < fields@.len() && flags_field_index(fields@) == Some(i as int),
            None => flags_field_index(fields@) is None,
        },
{
    let flags: &'static str = "flags";
    proof {
        reveal_strlit("flags");
    }
    let mut i: usize = 0;
    while i < fields.len()
        invariant
            0 <= i <= fields@.len(),
            flags@ == seq!['f', 'l', 'a', 'g', 's'],
            forall|j: int| 0 <= j < i ==> (#[trigger] fields@[j]).name@ != seq!['f', 'l', 'a', 'g', 's'],
        decreases fields@.len() - i,
    {
        if str_eq(fields[i].name.as_str(), flags) {
            proof {
                let c = choose|k: int| 0 <= k < fields@.len() && (#[trigger] fields@[k]).name@ == seq!['f', 'l', 'a', 'g', 's']
                    && forall|j: int| 0 <= j < k ==> (#[trigger] fields@[j]).name@ != seq!['f', 'l', 'a', 'g', 's'];
                assert(fields@[i as int].name@ == seq!['f', 'l', 'a', 'g', 's']);
                if c < i {
                } else if c > i {
                    assert(fields@[i as int].name@ != seq!['f', 'l', 'a', 'g', 's']);
                }
            }
            return Some(i);
        }
        i = i + 1;
    }
    None
}

fn is_field_name(fields: &Vec<FlagStructField>, name: &str) -> (r: bool)
    ensures
        r == field_names(fields@).contains(name@),
{
    let mut i: usize = 0;
    while i < fields.len()
        invariant
            0 <= i <= fields@.len(),
            forall|j: int| 0 <= j < i ==> (#[trigger] fields@[j]).name@ != name@,
        decreases fields@.len() - i,
    {
        if str_eq(fields[i].name.as_str(), name) {
            assert(field_names(fields@)[i as int] == name@);
            return true;
        }
        i = i + 1;
    }
    proof {
        if field_names(fields@).contains(name@) {
            let k = choose|k: int| 0 <= k < field_names(fields@).len() && field_names(fields@)[k] == name@;
            assert(fields@[k].name@ == name@);
        }
    }
    false
}

/// The flag layout of a struct's optional fields: the `flags` field (the
/// first field so named) must be a `BitField` with an `optional(...)` list;
/// each listed name, in order, gets the next free bit, and a name starting
/// with an underscore that is no field also gets the bit after it for its
/// value.
pub fn option_flag_layout(fields: &Vec<FlagStructField>) -> (r: Result<Vec<FlagSlot>, OptionFlagError>)
    requires
        flags_field_index(fields@) matches Some(f) ==> (fields@[f].is_bit_field ==> match fields@[f].optional {
            OptionalAttr::Names(names) => flag_offset(
                names@.map_values(|n: String| n@),
                names@.len() as int,
            ) <= 255,
            _ => true,
        }),
    ensures
        match flags_field_index(fields@) {
            None => r == Err::<Vec<FlagSlot>, OptionFlagError>(OptionFlagError::NoFlagsField),
            Some(f) => if !fields@[f].is_bit_field {
                r == Err::<Vec<FlagSlot>, OptionFlagError>(OptionFlagError::FlagsNotBitField)
            } else {
                match fields@[f].optional {
                    OptionalAttr::Missing => r == Err::<Vec<FlagSlot>, OptionFlagError>(
                        OptionFlagError::NoOptionalAttribute,
                    ),
                    OptionalAttr::Malformed => r == Err::<Vec<FlagSlot>, OptionFlagError>(
                        OptionFlagError::MalformedOptionalAttribute,
                    ),
                    OptionalAttr::Names(names) => r matches Ok(slots) && {
                        let ns = names@.map_values(|n: String| n@);
                        &&& slots@.len() == names@.len()
                        &&& forall|i: int|
                            0 <= i < slots@.len() ==> {
                                &&& (#[trigger] slots@[i]).name@ == ns[i]
                                &&& slots@[i].bit == flag_offset(ns, i)
                                &&& slots@[i].kind == flag_kind(ns[i], field_names(fields@))
                                &&& slots@[i].value_bit == if slots@[i].kind == FlagKind::Virtual {
                                    Some((flag_offset(ns, i) + 1) as u8)
                                } else {
                                    None
                                }
                            }
                    },
                }
            },
        },
{
    let f = match find_flags_field(fields) {
        Some(f) => f,
        None => return Err(OptionFlagError::NoFlagsField),
    };
    let flags_field = &fields[f];
    if !flags_field.is_bit_field {
        return Err(OptionFlagError::FlagsNotBitField);
    }
    let names = match &flags_field.optional {
        OptionalAttr::Missing => return Err(OptionFlagError::NoOptionalAttribute),
        OptionalAttr::Malformed => return Err(OptionFlagError::MalformedOptionalAttribute),
        OptionalAttr::Names(names) => names,
    };
    let ghost ns = names@.map_values(|n: String| n@);
    assert(fields@[f as int].optional == OptionalAttr::Names(*names));
    let mut slots: Vec<FlagSlot> = Vec::new();
    let mut bit: u8 = 0;
    let mut i: usize = 0;
    while i < names.len()
        invariant
            0 <= i <= names@.len(),
            ns == names@.map_values(|n: String| n@),
            flag_offset(ns, names@.len() as int) <= 255,
            bit == flag_offset(ns, i as int),
            slots@.len() == i,
            forall|k: int|
                0 <= k < i ==> {
                    &&& (#[trigger] slots@[k]).name@ == ns[k]
                    &&& slots@[k].bit == flag_offset(ns, k)
                    &&& slots@[k].kind == flag_kind(ns[k], field_names(fields@))
                    &&& slots@[k].value_bit == if slots@[k].kind == FlagKind::Virtual {
                        Some((flag_offset(ns, k) + 1) as u8)
                    } else {
                        None
                    }
                },
        decreases names@.len() - i,
    {
        let name = &names[i];
        proof {
            lemma_flag_offset_mono(ns, i + 1, names@.len() as int);
            assert(ns[i as int] == name@);
        }
        let n = name.as_str();
        let starts_underscore = n.unicode_len() > 0 && n.get_char(0) == '_';
        let width: u8 = if starts_underscore {
            2
        } else {
            1
        };
        let kind = if is_field_name(fields, n) {
            FlagKind::Field
        } else if starts_underscore {
            FlagKind::Virtual
        } else {
            FlagKind::Standalone
        };
        let value_bit = match kind {
            FlagKind::Virtual => Some(bit + 1),
            _ => None,
        };
        slots.push(FlagSlot { name: name.clone(), bit, value_bit, kind });
        bit = bit + width;
        i = i + 1;
    }
    Ok(slots)
}

/// Listed flags never share a bit: every bit a flag takes (its presence bit
/// and, for a virtual boolean, its value bit) lies before the first bit of
/// any later flag.
pub proof fn lemma_flag_bits_disjoint(names: Seq<Seq<char>>, i: int, j: int)
    requires
        0 <= i < j,
    ensures
        flag_offset(names, i) + flag_width(names[i]) <= flag_offset(names, j),
        flag_offset(names, i) < flag_offset(names, j),
    decreases j - i,
{
    if j > i + 1 {
        lemma_flag_bits_disjoint(names, i, j - 1);
    }
}

/// What the generated getter of flag `i` reads from the flag byte `raw`:
/// `None` when the flag's presence bit is clear; otherwise, for a virtual
/// boolean, `Some` of its value bit, and for any other flag `Some(true)`
/// (a field's value is then the field itself).
pub open spec fn flag_slot_read(names: Seq<Seq<char>>, field_names: Seq<Seq<char>>, i: int, raw: u8) -> Option<bool> {
    let bit = flag_offset(names, i) as u8;
    if !flag_of(raw, bit) {
        None
    } else if flag_kind(names[i], field_names) == FlagKind::Virtual {
        Some(flag_of(raw, (bit + 1) as u8))
    } else {
        Some(true)
    }
}

/// The flag byte after the generated setter of flag `i` is given `v`: the
/// presence bit set exactly when `v` is `Some`, and for a virtual boolean
/// given `Some(b)` the value bit set to `b`.
pub open spec fn flag_slot_write(
    names: Seq<Seq<char>>,
    field_names: Seq<Seq<char>>,
    i: int,
    raw: u8,
    v: Option<bool>,
) -> u8 {
    let bit = flag_offset(names, i) as u8;
    match v {
        None => with_flag(raw, bit, false),
        Some(b) => if flag_kind(names[i], field_names) == FlagKind::Virtual {
            with_flag(with_flag(raw, bit, true), (bit + 1) as u8, b)
        } else {
            with_flag(raw, bit, true)
        },
    }
}

/// The accessors of a flag layout that fits in the flag byte behave as
/// optional values: after a flag's setter is given `v`, its getter gives `v`
/// back (for a flag that is no virtual boolean, presence is all it holds),
/// and every other listed flag reads as it did before.
pub proof fn lemma_flag_accessors(
    names: Seq<Seq<char>>,
    field_names: Seq<Seq<char>>,
    i: int,
    j: int,
    raw: u8,
    v: Option<bool>,
)
    requires
        0 <= i < names.len(),
        0 <= j < names.len(),
        flag_offset(names, names.len() as int) <= 8,
    ensures
        flag_slot_read(names, field_names, i, flag_slot_write(names, field_names, i, raw, v)) == match v {
            None => None,
            Some(b) => Some(if flag_kind(names[i], field_names) == FlagKind::Virtual {
                b
            } else {
                true
            }),
        },
        j != i ==> flag_slot_read(names, field_names, j, flag_slot_write(names, field_names, i, raw, v))
            == flag_slot_read(names, field_names, j, raw),
{
    let oi = flag_offset(names, i);
    let oj = flag_offset(names, j);
    lemma_flag_offset_mono(names, i + 1, names.len() as int);
    lemma_flag_offset_mono(names, j + 1, names.len() as int);
    let bi = oi as u8;
    let bj = oj as u8;
    let virt_i = flag_kind(names[i], field_names) == FlagKind::Virtual;
    let virt_j = flag_kind(names[j], field_names) == FlagKind::Virtual;
    assert(virt_i ==> underscored(names[i]));
    assert(virt_j ==> underscored(names[j]));
    assert(virt_i ==> oi + 1 < 8);
    assert(virt_j ==> oj + 1 < 8);
    let mid = with_flag(raw, bi, true);
    // the setter's own bits
    lemma_flag_write_read(raw, bi, bi, false);
    lemma_flag_write_read(raw, bi, bi, true);
    if virt_i {
        match v {
            Some(b) => {
                lemma_flag_write_read(mid, (bi + 1) as u8, bi, b);
                lemma_flag_write_read(mid, (bi + 1) as u8, (bi + 1) as u8, b);
            },
            None => {},
        }
    }
    if j != i {
        if i < j {
            lemma_flag_bits_disjoint(names, i, j);
        } else {
            lemma_flag_bits_disjoint(names, j, i);
        }
        // the other flag's presence bit
        lemma_flag_write_read(raw, bi, bj, false);
        lemma_flag_write_read(raw, bi, bj, true);
        if virt_i {
            match v {
                Some(b) => {
                    lemma_flag_write_read(mid, (bi + 1) as u8, bj, b);
                },
                None => {},
            }
        }
        if virt_j {
            // and its value bit
            let vj = (bj + 1) as u8;
            lemma_flag_write_read(raw, bi, vj, false);
            lemma_flag_write_read(raw, bi, vj, true);
            if virt_i {
                match v {
                    Some(b) => {
                        lemma_flag_write_read(mid, (bi + 1) as u8, vj, b);
                    },
                    None => {},
                }
            }
        }
    }
}

/// What the generated getter of a flag that stands for a field reads: the
/// field's value (held in `values` under the field's name) when the flag's
/// presence bit is set, else `None`.
pub open spec fn flag_field_get<V>(names: Seq<Seq<char>>, i: int, raw: u8, values: Map<Seq<char>, V>) -> Option<V> {
    if flag_of(raw, flag_offset(names, i) as u8) {
        Some(values[names[i]])
    } else {
        None
    }
}

/// The flag byte and field values after the generated setter of a flag that
/// stands for a field is given `v`: `Some(x)` sets the presence bit and
/// stores `x` in the field; `None` clears the bit and leaves the field as it
/// was.
pub open spec fn flag_field_set<V>(
    names: Seq<Seq<char>>,
    i: int,
    raw: u8,
    values: Map<Seq<char>, V>,
    v: Option<V>,
) -> (u8, Map<Seq<char>, V>) {
    let bit = flag_offset(names, i) as u8;
    match v {
        None => (with_flag(raw, bit, false), values),
        Some(x) => (with_flag(raw, bit, true), values.insert(names[i], x)),
    }
}

/// The accessors of a flag that stands for a field behave as an optional
/// field: after the setter is given `v`, the getter gives `v` back; `None`
/// leaves the field's value as it was; every other field keeps its value,
/// and every other listed flag reads as it did before.
pub proof fn lemma_flag_field_accessors<V>(
    names: Seq<Seq<char>>,
    field_names: Seq<Seq<char>>,
    i: int,
    j: int,
    raw: u8,
    values: Map<Seq<char>, V>,
    v: Option<V>,
)
    requires
        0 <= i < names.len(),
        0 <= j < names.len(),
        flag_kind(names[i], field_names) == FlagKind::Field,
        flag_offset(names, names.len() as int) <= 8,
    ensures
        ({
            let (raw2, values2) = flag_field_set(names, i, raw, values, v);
            &&& flag_field_get(names, i, raw2, values2) == v
            &&& v is None ==> values2 == values
            &&& forall|n: Seq<char>| n != names[i] ==> #[trigger] values2.index(n) == values.index(n)
                && values2.contains_key(n) == values.contains_key(n)
            &&& j != i ==> flag_slot_read(names, field_names, j, raw2) == flag_slot_read(
                names,
                field_names,
                j,
                raw,
            )
            &&& j != i && names[j] != names[i] ==> flag_field_get(names, j, raw2, values2)
                == flag_field_get(names, j, raw, values)
        }),
{
    let bit = flag_offset(names, i) as u8;
    lemma_flag_offset_mono(names, i + 1, names.len() as int);
    lemma_flag_offset_mono(names, j + 1, names.len() as int);
    lemma_flag_write_read(raw, bit, bit, false);
    lemma_flag_write_read(raw, bit, bit, true);
    let b = match v {
        None => false,
        Some(_) => true,
    };
    lemma_flag_accessors(names, field_names, i, j, raw, if b { Some(true) } else { None });
    if j != i {
        if i < j {
            lemma_flag_bits_disjoint(names, i, j);
        } else {
            lemma_flag_bits_disjoint(names, j, i);
        }
        lemma_flag_write_read(raw, bit, flag_offset(names, j) as u8, b);
    }
}

/// The type of a field, as the code generators see it.
pub enum TypeShape {
    /// A path type: the name of its last segment and that segment's
    /// arguments.
    Path { name: String, args: TypeArgs },
    /// An array type `[T; N]`.
    Array { elem: Box<TypeShape> },
    /// Any other type (reference, tuple, slice, ...).
    Other,
}

/// The arguments of the last segment of a path type.
pub enum TypeArgs {
    /// No angle brackets.
    Bare,
    /// Angle brackets whose first argument is not a type (or that are empty).
    NoType,
    /// Angle brackets whose first argument is this type.
    First(Box<TypeShape>),
}

/// The parser function that reads one value of a type.
#[derive(Debug, PartialEq, Eq)]
pub enum Parser {
    ToBool,
    ToU8,
    ToU16,
    ToU32,
    ToU64,
    ToU128,
    ToPubkey,
    ToString,
    /// The named type's own deserializer.
    Custom(String),
}

/// The reader call that decodes a field.
#[derive(Debug, PartialEq, Eq)]
pub enum ReadCall {
    Bool,
    U8,
    U16,
    U32,
    U64,
    U128,
    Pubkey,
    String,
    Option(Parser),
    VecFixed(Parser),
    Array(Parser),
    Custom,
}

/// Why no reader call could be chosen.
#[derive(Debug, Clone, Copy, PartialEq, Eq, Structural)]
pub enum ReadCallError {
    OptionWithoutTypeParameter,
    OptionWithoutAngleBrackets,
    VecWithoutTypeParameter,
    VecWithoutAngleBrackets,
    UnsupportedParserType,
}

/// The parser for values of type `t`.
pub open spec fn parser_of(t: TypeShape) -> Result<Parser, ReadCallError> {
    match t {
        TypeShape::Path { name, args } => {
            let n = name@;
            if n == "bool"@ {
                Ok(Parser::ToBool)
            } else if n == "u8"@ {
                Ok(Parser::ToU8)
            } else if n == "u16"@ {
                Ok(Parser::ToU16)
            } else if n == "u32"@ {
                Ok(Parser::ToU32)
            } else if n == "u64"@ {
                Ok(Parser::ToU64)
            } else if n == "u128"@ {
                Ok(Parser::ToU128)
            } else if n == "Pubkey"@ {
                Ok(Parser::ToPubkey)
            } else if n == "String"@ {
                Ok(Parser::ToString)
            } else {
                Ok(Parser::Custom(name))
            }
        },
        _ => Err(ReadCallError::UnsupportedParserType),
    }
}

/// Picks the parser for values of a type: the built-in one of a primitive,
/// an address or a string, else the named type's own.
pub fn get_parser_function(ty: &TypeShape) -> (r: Result<Parser, ReadCallError>)
    ensures
        r == parser_of(*ty),
{
    match ty {
        TypeShape::Path { name, args: _ } => {
            let n = name.as_str();
            if str_eq(n, "bool") {
                Ok(Parser::ToBool)
            } else if str_eq(n, "u8") {
                Ok(Parser::ToU8)
            } else if str_eq(n, "u16") {
                Ok(Parser::ToU16)
            } else if str_eq(n, "u32") {
                Ok(Parser::ToU32)
            } else if str_eq(n, "u64") {
                Ok(Parser::ToU64)
            } else if str_eq(n, "u128") {
                Ok(Parser::ToU128)
            } else if str_eq(n, "Pubkey") {
                Ok(Parser::ToPubkey)
            } else if str_eq(n, "String") {
                Ok(Parser::ToString)
            } else {
                Ok(Parser::Custom(name.clone()))
            }
        },
        _ => Err(ReadCallError::UnsupportedParserType),
    }
}

/// The reader call for a field of type `t`.
pub open spec fn read_call_of(t: TypeShape) -> Result<ReadCall, ReadCallError> {
    match t {
        TypeShape::Path { name, args } => {
            let n = name@;
            if n == "bool"@ {
                Ok(ReadCall::Bool)
            } else if n == "u8"@ {
                Ok(ReadCall::U8)
            } else if n == "u16"@ {
                Ok(ReadCall::U16)
            } else if n == "u32"@ {
                Ok(ReadCall::U32)
            } else if n == "u64"@ {
                Ok(ReadCall::U64)
            } else if n == "u128"@ {
                Ok(ReadCall::U128)
            } else if n == "Pubkey"@ {
                Ok(ReadCall::Pubkey)
            } else if n == "String"@ {
                Ok(ReadCall::String)
            } else if n == "Option"@ {
                match args {
                    TypeArgs::First(inner) => match parser_of(*inner) {
                        Ok(p) => Ok(ReadCall::Option(p)),
                        Err(e) => Err(e),
                    },
                    TypeArgs::NoType => Err(ReadCallError::OptionWithoutTypeParameter),
                    TypeArgs::Bare => Err(ReadCallError::OptionWithoutAngleBrackets),
                }
            } else if n == "Vec"@ {
                match args {
                    TypeArgs::First(inner) => match parser_of(*inner) {
                        Ok(p) => Ok(ReadCall::VecFixed(p)),
                        Err(e) => Err(e),
                    },
                    TypeArgs::NoType => Err(ReadCallError::VecWithoutTypeParameter),
                    TypeArgs::Bare => Err(ReadCallError::VecWithoutAngleBrackets),
                }
            } else {
                Ok(ReadCall::Custom)
            }
        },
        TypeShape::Array { elem } => match parser_of(*elem) {
            Ok(p) => Ok(ReadCall::Array(p)),
            Err(e) => Err(e),
        },
        TypeShape::Other => Ok(ReadCall::Custom),
    }
}

/// Picks the reader call that decodes a field: primitives, addresses and
/// strings have their own; options, fixed vectors and arrays read their
/// items with the item type's parser; anything else decodes itself.
pub fn generate_read_call(field_type: &TypeShape) -> (r: Result<ReadCall, ReadCallError>)
    ensures
        r == read_call_of(*field_type),
{
    match field_type {
        TypeShape::Path { name, args } => {
            let n = name.as_str();
            if str_eq(n, "bool") {
                Ok(ReadCall::Bool)
            } else if str_eq(n, "u8") {
                Ok(ReadCall::U8)
            } else if str_eq(n, "u16") {
                Ok(ReadCall::U16)
            } else if str_eq(n, "u32") {
                Ok(ReadCall::U32)
            } else if str_eq(n, "u64") {
                Ok(ReadCall::U64)
            } else if str_eq(n, "u128") {
                Ok(ReadCall::U128)
            } else if str_eq(n, "Pubkey") {
                Ok(ReadCall::Pubkey)
            } else if str_eq(n, "String") {
                Ok(ReadCall::String)
            } else if str_eq(n, "Option") {
                match args {
                    TypeArgs::First(inner) => match get_parser_function(inner) {
                        Ok(p) => Ok(ReadCall::Option(p)),
                        Err(e) => Err(e),
                    },
                    TypeArgs::NoType => Err(ReadCallError::OptionWithoutTypeParameter),
                    TypeArgs::Bare => Err(ReadCallError::OptionWithoutAngleBrackets),
                }
            } else if str_eq(n, "Vec") {
                match args {
                    TypeArgs::First(inner) => match get_parser_function(inner) {
                        Ok(p) => Ok(ReadCall::VecFixed(p)),
                        Err(e) => Err(e),
                    },
                    TypeArgs::NoType => Err(ReadCallError::VecWithoutTypeParameter),
                    TypeArgs::Bare => Err(ReadCallError::VecWithoutAngleBrackets),
                }
            } else {
                Ok(ReadCall::Custom)
            }
        },
        TypeShape::Array { elem } => match get_parser_function(elem) {
            Ok(p) => Ok(ReadCall::Array(p)),
            Err(e) => Err(e),
        },
        TypeShape::Other => Ok(ReadCall::Custom),
    }
}

/// A primitive value type that the writer encodes itself.
#[derive(Debug, Clone, Copy, PartialEq, Eq, Structural)]
pub enum Primitive {
    U8,
    U16,
    U32,
    U64,
    U128,
    Bool,
}

/// The writer call that encodes an optional field.
#[derive(Debug, Clone, Copy, PartialEq, Eq, Structural)]
pub enum OptionWrite {
    /// An optional address, written through its byte view.
    Pubkey,
    /// An optional string, written through its bytes.
    String,
    /// An optional primitive, written by the writer's own method.
    Primitive(Primitive),
    /// Any other optional value, which encodes itself.
    Custom,
}

/// The writer call that encodes a field.
#[derive(Debug, Clone, Copy, PartialEq, Eq, Structural)]
pub enum WriteCall {
    Primitive(Primitive),
    String,
    Pubkey,
    Option(OptionWrite),
    Custom,
}

/// The primitive named `n`, if any.
pub open spec fn primitive_of(n: Seq<char>) -> Option<Primitive> {
    if n == "u8"@ {
        Some(Primitive::U8)
    } else if n == "u16"@ {
        Some(Primitive::U16)
    } else if n == "u32"@ {
        Some(Primitive::U32)
    } else if n == "u64"@ {
        Some(Primitive::U64)
    } else if n == "u128"@ {
        Some(Primitive::U128)
    } else if n == "bool"@ {
        Some(Primitive::Bool)
    } else {
        None
    }
}

fn primitive_named(n: &str) -> (r: Option<Primitive>)
    ensures
        r == primitive_of(n@),
{
    if str_eq(n, "u8") {
        Some(Primitive::U8)
    } else if str_eq(n, "u16") {
        Some(Primitive::U16)
    } else if str_eq(n, "u32") {
        Some(Primitive::U32)
    } else if str_eq(n, "u64") {
        Some(Primitive::U64)
    } else if str_eq(n, "u128") {
        Some(Primitive::U128)
    } else if str_eq(n, "bool") {
        Some(Primitive::Bool)
    } else {
        None
    }
}

/// The writer call for an optional field whose value has type `t`.
pub open spec fn option_write_of(t: TypeShape) -> OptionWrite {
    match t {
        TypeShape::Path { name, args } => if name@ == "Pubkey"@ {
            OptionWrite::Pubkey
        } else if name@ == "String"@ {
            OptionWrite::String
        } else {
            match primitive_of(name@) {
                Some(p) => OptionWrite::Primitive(p),
                None => OptionWrite::Custom,
            }
        },
        _ => OptionWrite::Custom,
    }
}

/// Picks the writer call for an optional field with values of `inner_type`.
pub fn generate_option_write_call(inner_type: &TypeShape) -> (r: OptionWrite)
    ensures
        r == option_write_of(*inner_type),
{
    match inner_type {
        TypeShape::Path { name, args: _ } => {
            let n = name.as_str();
            if str_eq(n, "Pubkey") {
                OptionWrite::Pubkey
            } else if str_eq(n, "String") {
                OptionWrite::String
            } else {
                match primitive_named(n) {
                    Some(p) => OptionWrite::Primitive(p),
                    None => OptionWrite::Custom,
                }
            }
        },
        _ => OptionWrite::Custom,
    }
}

/// The writer call for a field of type `t`.
pub open spec fn write_call_of(t: TypeShape) -> WriteCall {
    match t {
        TypeShape::Path { name, args } => match primitive_of(name@) {
            Some(p) => WriteCall::Primitive(p),
            None => if name@ == "String"@ {
                WriteCall::String
            } else if name@ == "Pubkey"@ {
                WriteCall::Pubkey
            } else if name@ == "Option"@ && args is First {
                WriteCall::Option(option_write_of(*args->First_0))
            } else {
                WriteCall::Custom
            },
        },
        _ => WriteCall::Custom,
    }
}

/// The number of bytes of a primitive field type, by its name: `bool` and
/// `u8` take one, `u16` two, `u32` four, `u64` eight, `u128` sixteen.
pub open spec fn primitive_name_bytes(n: Seq<char>) -> Option<nat> {
    if n == "bool"@ || n == "u8"@ {
        Some(1)
    } else if n == "u16"@ {
        Some(2)
    } else if n == "u32"@ {
        Some(4)
    } else if n == "u64"@ {
        Some(8)
    } else if n == "u128"@ {
        Some(16)
    } else {
        None
    }
}

/// The number of bytes a reader call of a primitive consumes.
pub open spec fn read_call_bytes(rc: ReadCall) -> Option<nat> {
    match rc {
        ReadCall::Bool => Some(1),
        ReadCall::U8 => Some(1),
        ReadCall::U16 => Some(2),
        ReadCall::U32 => Some(4),
        ReadCall::U64 => Some(8),
        ReadCall::U128 => Some(16),
        _ => None,
    }
}

/// The number of bytes a writer call of a primitive produces.
pub open spec fn primitive_bytes(p: Primitive) -> nat {
    match p {
        Primitive::Bool => 1,
        Primitive::U8 => 1,
        Primitive::U16 => 2,
        Primitive::U32 => 4,
        Primitive::U64 => 8,
        Primitive::U128 => 16,
    }
}

/// A field of a primitive type is read and written as that very type: the
/// reader call consumes, and the writer call produces, exactly as many bytes
/// as the type has, and a `bool` field (and only a `bool` field) is read and
/// written as a boolean; so a derived decoder reads back, field by field,
/// what the derived encoder wrote.
pub proof fn lemma_primitive_field_calls(name: String, args: TypeArgs)
    requires
        primitive_name_bytes(name@) is Some,
    ensures
        ({
            let t = TypeShape::Path { name, args };
            &&& read_call_of(t) matches Ok(rc) && read_call_bytes(rc) == primitive_name_bytes(name@)
                && (rc == ReadCall::Bool <==> name@ == "bool"@)
            &&& write_call_of(t) matches WriteCall::Primitive(p) && primitive_bytes(p)
                == primitive_name_bytes(name@)->Some_0 && (p == Primitive::Bool <==> name@ == "bool"@)
        }),
{
    reveal_strlit("bool");
    reveal_strlit("u8");
    reveal_strlit("u16");
    reveal_strlit("u32");
    reveal_strlit("u64");
    reveal_strlit("u128");
    assert("bool"@.len() == 4 && "u8"@.len() == 2 && "u16"@.len() == 3 && "u32"@.len() == 3);
    assert("u64"@.len() == 3 && "u128"@.len() == 4);
    assert("u16"@[1] != "u32"@[1] && "u16"@[1] != "u64"@[1] && "u32"@[1] != "u64"@[1]);
    assert("bool"@[0] != "u128"@[0]);
}

/// Picks the writer call that encodes a field: primitives, strings and
/// addresses have their own, an `Option` with a type argument is written
/// as an option of that type, and anything else encodes itself.
pub fn generate_write_call(field_type: &TypeShape) -> (r: WriteCall)
    ensures
        r == write_call_of(*field_type),
{
    match field_type {
        TypeShape::Path { name, args } => {
            let n = name.as_str();
            match primitive_named(n) {
                Some(p) => WriteCall::Primitive(p),
                None => {
                    if str_eq(n, "String") {
                        WriteCall::String
                    } else if str_eq(n, "Pubkey") {
                        WriteCall::Pubkey
                    } else if str_eq(n, "Option") {
                        match args {
                            TypeArgs::First(inner) => WriteCall::Option(
                                generate_option_write_call(inner),
                            ),
                            _ => WriteCall::Custom,
                        }
                    } else {
                        WriteCall::Custom
                    }
                },
            }
        },
        _ => WriteCall::Custom,
    }
}

/// How a test encoder writes an optional field.
#[derive(Debug, Clone, Copy, PartialEq, Eq, Structural)]
pub enum TestOptionWrite {
    /// `u32` through `u32_as_bytes`.
    U32AsBytes,
    /// `u8` as a one-byte array.
    ByteArray,
    /// `u16`, `u64`, `u128` through their little-endian bytes.
    LeBytes,
    /// `bool` as one byte.
    BoolByte,
    /// An address through its byte view.
    PubkeyRef,
    /// A string through its bytes.
    StringBytes,
    /// Anything else, which encodes itself.
    Custom,
}

/// How a test encoder writes a field.
#[derive(Debug, Clone, Copy, PartialEq, Eq, Structural)]
pub enum TestWriteCall {
    Primitive(Primitive),
    String,
    Pubkey,
    Option(TestOptionWrite),
    /// Any other field, written as an optional custom value.
    OptionCustom,
}

/// How a test encoder writes an optional field with values of type `t`.
pub open spec fn test_option_write_of(t: TypeShape) -> TestOptionWrite {
    match t {
        TypeShape::Path { name, args } => {
            let n = name@;
            if n == "u32"@ {
                TestOptionWrite::U32AsBytes
            } else if n == "u8"@ {
                TestOptionWrite::ByteArray
            } else if n == "u16"@ || n == "u64"@ || n == "u128"@ {
                TestOptionWrite::LeBytes
            } else if n == "bool"@ {
                TestOptionWrite::BoolByte
            } else if n == "Pubkey"@ {
                TestOptionWrite::PubkeyRef
            } else if n == "String"@ {
                TestOptionWrite::StringBytes
            } else {
                TestOptionWrite::Custom
            }
        },
        _ => TestOptionWrite::Custom,
    }
}

/// Picks how a test encoder writes an optional field of `inner_type`.
pub fn generate_test_option_write_call(inner_type: &TypeShape) -> (r: TestOptionWrite)
    ensures
        r == test_option_write_of(*inner_type),
{
    match inner_type {
        TypeShape::Path { name, args: _ } => {
            let n = name.as_str();
            if str_eq(n, "u32") {
                TestOptionWrite::U32AsBytes
            } else if str_eq(n, "u8") {
                TestOptionWrite::ByteArray
            } else if str_eq(n, "u16") || str_eq(n, "u64") || str_eq(n, "u128") {
                TestOptionWrite::LeBytes
            } else if str_eq(n, "bool") {
                TestOptionWrite::BoolByte
            } else if str_eq(n, "Pubkey") {
                TestOptionWrite::PubkeyRef
            } else if str_eq(n, "String") {
                TestOptionWrite::StringBytes
            } else {
                TestOptionWrite::Custom
            }
        },
        _ => TestOptionWrite::Custom,
    }
}

/// How a test encoder writes a field of type `t`.
pub open spec fn test_write_call_of(t: TypeShape) -> TestWriteCall {
    match t {
        TypeShape::Path { name, args } => match primitive_of(name@) {
            Some(p) => TestWriteCall::Primitive(p),
            None => if name@ == "String"@ {
                TestWriteCall::String
            } else if name@ == "Pubkey"@ {
                TestWriteCall::Pubkey
            } else if name@ == "Option"@ && args is First {
                TestWriteCall::Option(test_option_write_of(*args->First_0))
            } else {
                TestWriteCall::OptionCustom
            },
        },
        _ => TestWriteCall::OptionCustom,
    }
}

/// Picks how a test encoder writes a field; fields of other types are
/// written as optional custom values.
pub fn generate_test_write_call(field_type: &TypeShape) -> (r: TestWriteCall)
    ensures
        r == test_write_call_of(*field_type),
{
    match field_type {
        TypeShape::Path { name, args } => {
            let n = name.as_str();
            match primitive_named(n) {
                Some(p) => TestWriteCall::Primitive(p),
                None => {
                    if str_eq(n, "String") {
                        TestWriteCall::String
                    } else if str_eq(n, "Pubkey") {
                        TestWriteCall::Pubkey
                    } else if str_eq(n, "Option") {
                        match args {
                            TypeArgs::First(inner) => TestWriteCall::Option(
                                generate_test_option_write_call(inner),
                            ),
                            _ => TestWriteCall::OptionCustom,
                        }
                    } else {
                        TestWriteCall::OptionCustom
                    }
                },
            }
        },
        _ => TestWriteCall::OptionCustom,
    }
}

/// The declared type of a field of an account list.
pub enum AccountFieldType {
    /// A reference to this type.
    Reference(TypeShape),
    /// Anything that is not a reference.
    Value,
}

/// A field of an account list: its name and declared type.
pub struct AccountListField {
    pub name: String,
    pub ty: AccountFieldType,
}

/// Why an account list cannot be read from an account slice.
#[derive(Debug, Clone, Copy, PartialEq, Eq, Structural)]
pub enum TryFromError {
    /// A field is a reference to a path type other than `AccountInfo`.
    NotAccountInfo,
    /// A field is a reference to a type that is not a path.
    NotAPath,
    /// A field is not a reference.
    NotAReference,
}

/// Whether a field's type is rejected, and why.
pub open spec fn field_type_error(t: AccountFieldType) -> Option<TryFromError> {
    match t {
        AccountFieldType::Reference(TypeShape::Path { name, args }) => if name@ == "AccountInfo"@ {
            None
        } else {
            Some(TryFromError::NotAccountInfo)
        },
        AccountFieldType::Reference(_) => Some(TryFromError::NotAPath),
        AccountFieldType::Value => Some(TryFromError::NotAReference),
    }
}

/// The names an account list binds, in order, when every field is a
/// reference to `AccountInfo`; otherwise the error for the first field that
/// is not. The list is then read from a slice of exactly that many accounts
/// (see `check_account_count`).
pub fn account_try_from_fields(fields: &Vec<AccountListField>) -> (r: Result<Vec<String>, TryFromError>)
    ensures
        match r {
            Ok(names) => {
                &&& names@.len() == fields@.len()
                &&& forall|i: int| 0 <= i < fields@.len() ==> field_type_error((#[trigger] fields@[i]).ty) is None
                &&& forall|i: int| 0 <= i < names@.len() ==> (#[trigger] names@[i])@ == fields@[i].name@
            },
            Err(e) => exists|i: int|
                0 <= i < fields@.len() && field_type_error((#[trigger] fields@[i]).ty) == Some(e)
                    && forall|j: int| 0 <= j < i ==> field_type_error((#[trigger] fields@[j]).ty) is None,
        },
{
    let mut names: Vec<String> = Vec::new();
    let mut i: usize = 0;
    while i < fields.len()
        invariant
            0 <= i <= fields@.len(),
            names@.len() == i,
            forall|k: int| 0 <= k < i ==> field_type_error((#[trigger] fields@[k]).ty) is None,
            forall|k: int| 0 <= k < i ==> (#[trigger] names@[k])@ == fields@[k].name@,
        decreases fields@.len() - i,
    {
        let field = &fields[i];
        let err = match &field.ty {
            AccountFieldType::Reference(TypeShape::Path { name, args: _ }) => {
                if str_eq(name.as_str(), "AccountInfo") {
                    None
                } else {
                    Some(TryFromError::NotAccountInfo)
                }
            },
            AccountFieldType::Reference(_) => Some(TryFromError::NotAPath),
            AccountFieldType::Value => Some(TryFromError::NotAReference),
        };
        assert(err == field_type_error(fields@[i as int].ty));
        match err {
            Some(e) => {
                return Err(e);
            },
            None => {},
        }
        names.push(field.name.clone());
        i = i + 1;
    }
    Ok(names)
}

/// The discriminant of a variant of a wrapped enum, as Rust assigns it: the
/// expression the variant was declared with, else one more than the
/// variant before it, the first variant being zero.
#[derive(Debug, PartialEq, Eq)]
pub enum VariantDiscriminant {
    /// The expression the variant was declared with, as written.
    Explicit(String),
    /// No variant up to this one was declared with a discriminant: its
    /// position.
    Index(usize),
    /// `steps` variants after the last one declared with a discriminant,
    /// whose expression is `base`: that value plus `steps`.
    AfterExplicit { base: String, steps: usize },
}

/// A variant of an enum to wrap: its name and the text of its explicit
/// discriminant, if it has one.
pub struct EnumVariant {
    pub name: String,
    pub discriminant: Option<String>,
}

/// What the wrapper of an enum consists of.
pub struct EnumWrapperPlan {
    /// The enum's name followed by `Enum`.
    pub wrapper_name: String,
    /// The integer type the wrapper stores (the enum's `repr`, else `u8`).
    pub underlying_type: String,
    /// Whether the wrapper also derives `CodamaType`.
    pub derives_codama_type: bool,
    /// Value and variant of each arm that turns the stored integer back into
    /// the enum; other values give the enum's default.
    pub arms: Vec<(VariantDiscriminant, String)>,
}

/// The discriminant of variant `v`, given the discriminant of the variant
/// before it (`None` for the first variant).
pub open spec fn next_discriminant(v: EnumVariant, previous: Option<VariantDiscriminant>) -> VariantDiscriminant {
    match v.discriminant {
        Some(e) => VariantDiscriminant::Explicit(e),
        None => match previous {
            None => VariantDiscriminant::Index(0),
            Some(VariantDiscriminant::Index(k)) => VariantDiscriminant::Index((k + 1) as usize),
            Some(VariantDiscriminant::Explicit(e)) => VariantDiscriminant::AfterExplicit { base: e, steps: 1 },
            Some(VariantDiscriminant::AfterExplicit { base, steps }) => VariantDiscriminant::AfterExplicit {
                base,
                steps: (steps + 1) as usize,
            },
        },
    }
}

/// The discriminant of variant `i` of `variants`.
pub open spec fn discriminant_of(variants: Seq<EnumVariant>, i: int) -> VariantDiscriminant
    decreases i,
{
    if i <= 0 {
        next_discriminant(variants[0], None)
    } else {
        next_discriminant(variants[i], Some(discriminant_of(variants, i - 1)))
    }
}

/// Counting never runs past the variant's position.
proof fn lemma_discriminant_count(variants: Seq<EnumVariant>, i: int)
    requires
        0 <= i < usize::MAX,
    ensures
        discriminant_of(variants, i) matches VariantDiscriminant::Index(k) ==> k == i,
        discriminant_of(variants, i) matches VariantDiscriminant::AfterExplicit { steps, .. } ==> 1 <= steps <= i,
    decreases i,
{
    if i > 0 {
        lemma_discriminant_count(variants, i - 1);
    }
}

/// The discriminant of a variant: the one it was declared with, else the
/// one after `previous` (the discriminant of the variant before it), or
/// zero for the first variant.
pub fn get_variant_discriminant(variant: &EnumVariant, previous: Option<&VariantDiscriminant>) -> (r:
    VariantDiscriminant)
    requires
        previous matches Some(VariantDiscriminant::Index(k)) ==> k < usize::MAX,
        previous matches Some(VariantDiscriminant::AfterExplicit { steps, .. }) ==> steps < usize::MAX,
    ensures
        r == next_discriminant(
            *variant,
            match previous {
                Some(d) => Some(*d),
                None => None,
            },
        ),
{
    match &variant.discriminant {
        Some(e) => VariantDiscriminant::Explicit(e.clone()),
        None => match previous {
            None => VariantDiscriminant::Index(0),
            Some(VariantDiscriminant::Index(k)) => VariantDiscriminant::Index(*k + 1),
            Some(VariantDiscriminant::Explicit(e)) => VariantDiscriminant::AfterExplicit {
                base: e.clone(),
                steps: 1,
            },
            Some(VariantDiscriminant::AfterExplicit { base, steps }) => VariantDiscriminant::AfterExplicit {
                base: base.clone(),
                steps: *steps + 1,
            },
        },
    }
}

/// The number a discriminant stands for, given the value `eval` gives each
/// explicit discriminant expression.
pub open spec fn discriminant_value(d: VariantDiscriminant, eval: spec_fn(Seq<char>) -> int) -> int {
    match d {
        VariantDiscriminant::Explicit(e) => eval(e@),
        VariantDiscriminant::Index(k) => k as int,
        VariantDiscriminant::AfterExplicit { base, steps } => eval(base@) + steps,
    }
}

/// The variant the wrapper's getter gives for the stored number `raw`: that
/// of the first arm whose discriminant stands for `raw`; `None` (the enum's
/// default) when there is none.
pub open spec fn arm_for(
    arms: Seq<(VariantDiscriminant, String)>,
    raw: int,
    eval: spec_fn(Seq<char>) -> int,
) -> Option<Seq<char>>
    decreases arms.len(),
{
    if arms.len() == 0 {
        None
    } else if discriminant_value(arms[0].0, eval) == raw {
        Some(arms[0].1@)
    } else {
        arm_for(arms.drop_first(), raw, eval)
    }
}

proof fn lemma_arm_for_first(
    arms: Seq<(VariantDiscriminant, String)>,
    raw: int,
    eval: spec_fn(Seq<char>) -> int,
    i: int,
)
    requires
        0 <= i < arms.len(),
        discriminant_value(arms[i].0, eval) == raw,
        forall|j: int| 0 <= j < i ==> discriminant_value((#[trigger] arms[j]).0, eval) != raw,
    ensures
        arm_for(arms, raw, eval) == Some(arms[i].1@),
    decreases i,
{
    if i > 0 {
        assert(discriminant_value(arms[0].0, eval) != raw);
        assert forall|j: int| 0 <= j < i - 1 implies discriminant_value(
            (#[trigger] arms.drop_first()[j]).0,
            eval,
        ) != raw by {
            assert(arms.drop_first()[j] == arms[j + 1]);
        }
        lemma_arm_for_first(arms.drop_first(), raw, eval, i - 1);
    }
}

proof fn lemma_arm_for_none(arms: Seq<(VariantDiscriminant, String)>, raw: int, eval: spec_fn(Seq<char>) -> int)
    requires
        forall|j: int| 0 <= j < arms.len() ==> discriminant_value((#[trigger] arms[j]).0, eval) != raw,
    ensures
        arm_for(arms, raw, eval) is None,
    decreases arms.len(),
{
    if arms.len() > 0 {
        assert(discriminant_value(arms[0].0, eval) != raw);
        assert forall|j: int| 0 <= j < arms.len() - 1 implies discriminant_value(
            (#[trigger] arms.drop_first()[j]).0,
            eval,
        ) != raw by {
            assert(arms.drop_first()[j] == arms[j + 1]);
        }
        lemma_arm_for_none(arms.drop_first(), raw, eval);
    }
}

/// The wrapper round trip: whatever the declared expressions evaluate to
/// (`eval`), a variant declared without a discriminant stands for one more
/// than the variant before it (zero for the first); and when the variants'
/// numbers are distinct, as Rust requires of an enum, the getter gives back
/// for each variant's number that very variant, and for a number that is
/// no variant's, the enum's default.
pub proof fn lemma_enum_wrapper_round_trip(
    variants: Seq<EnumVariant>,
    arms: Seq<(VariantDiscriminant, String)>,
    eval: spec_fn(Seq<char>) -> int,
    i: int,
    raw: int,
)
    requires
        variants.len() < usize::MAX,
        arms.len() == variants.len(),
        forall|k: int|
            0 <= k < variants.len() ==> (#[trigger] arms[k]).0 == discriminant_of(variants, k)
                && arms[k].1@ == variants[k].name@,
        forall|k: int, l: int|
            0 <= k < l < variants.len() ==> discriminant_value(#[trigger] discriminant_of(variants, k), eval)
                != discriminant_value(#[trigger] discriminant_of(variants, l), eval),
        0 <= i < variants.len(),
    ensures
        variants[i].discriminant is None ==> discriminant_value(discriminant_of(variants, i), eval) == if i
            == 0 {
            0
        } else {
            discriminant_value(discriminant_of(variants, i - 1), eval) + 1
        },
        arm_for(arms, discriminant_value(discriminant_of(variants, i), eval), eval) == Some(variants[i].name@),
        (forall|k: int|
            0 <= k < variants.len() ==> discriminant_value(#[trigger] discriminant_of(variants, k), eval) != raw)
            ==> arm_for(arms, raw, eval) is None,
{
    lemma_discriminant_count(variants, i);
    if i > 0 {
        lemma_discriminant_count(variants, i - 1);
    }
    let v = discriminant_value(discriminant_of(variants, i), eval);
    assert(arms[i].0 == discriminant_of(variants, i));
    assert forall|j: int| 0 <= j < i implies discriminant_value((#[trigger] arms[j]).0, eval) != v by {
        assert(arms[j].0 == discriminant_of(variants, j));
    }
    lemma_arm_for_first(arms, v, eval, i);
    if forall|k: int|
        0 <= k < variants.len() ==> discriminant_value(#[trigger] discriminant_of(variants, k), eval) != raw {
        assert forall|j: int| 0 <= j < arms.len() implies discriminant_value((#[trigger] arms[j]).0, eval)
            != raw by {
            assert(arms[j].0 == discriminant_of(variants, j));
        }
        lemma_arm_for_none(arms, raw, eval);
    }
}

/// Whether `t` occurs in `s`.
pub open spec fn contains_text(s: Seq<char>, t: Seq<char>) -> bool {
    exists|i: int| 0 <= i <= s.len() - t.len() && #[trigger] s.subrange(i, i + t.len()) == t
}

/// Whether `t` occurs in `s`.
pub fn str_contains(s: &str, t: &str) -> (r: bool)
    ensures
        r == contains_text(s@, t@),
{
    let n = s.unicode_len();
    let m = t.unicode_len();
    if m > n {
        return false;
    }
    if m == 0 {
        assert(s@.subrange(0, 0 + t@.len() as int) =~= t@);
        return true;
    }
    let mut i: usize = 0;
    while i <= n - m
        invariant
            1 <= m <= n,
            n == s@.len(),
            m == t@.len(),
            0 <= i <= n - m + 1,
            forall|k: int| 0 <= k < i ==> #[trigger] s@.subrange(k, k + m) != t@,
        decreases n - m + 1 - i,
    {
        if str_eq(s.substring_char(i, i + m), t) {
            return true;
        }
        i = i + 1;
    }
    false
}

/// Plans the wrapper of an enum: the name, the stored integer type, whether
/// `CodamaType` is derived too (when the enum's first `derive` list
/// mentions it), and one arm per variant in order, with the discriminant
/// Rust gives that variant.
pub fn derive_enum_wrapper(
    enum_name: &str,
    repr: Option<&str>,
    derive_text: Option<&str>,
    variants: &Vec<EnumVariant>,
) -> (r: EnumWrapperPlan)
    ensures
        r.wrapper_name@ == enum_name@ + "Enum"@,
        r.underlying_type@ == match repr {
            Some(t) => t@,
            None => "u8"@,
        },
        r.derives_codama_type == match derive_text {
            Some(d) => contains_text(d@, "CodamaType"@),
            None => false,
        },
        r.arms@.len() == variants@.len(),
        forall|i: int|
            0 <= i < variants@.len() ==> (#[trigger] r.arms@[i]).0 == discriminant_of(variants@, i)
                && r.arms@[i].1@ == variants@[i].name@,
{
    let wrapper_name = String::from_str(enum_name).concat("Enum");
    let underlying_type = match repr {
        Some(t) => String::from_str(t),
        None => String::from_str("u8"),
    };
    let derives_codama_type = match derive_text {
        Some(d) => str_contains(d, "CodamaType"),
        None => false,
    };
    let mut arms: Vec<(VariantDiscriminant, String)> = Vec::new();
    let mut i: usize = 0;
    while i < variants.len()
        invariant
            0 <= i <= variants@.len(),
            arms@.len() == i,
            forall|k: int|
                0 <= k < i ==> (#[trigger] arms@[k]).0 == discriminant_of(variants@, k)
                    && arms@[k].1@ == variants@[k].name@,
        decreases variants@.len() - i,
    {
        let d = if i == 0 {
            get_variant_discriminant(&variants[i], None)
        } else {
            proof {
                lemma_discriminant_count(variants@, i - 1);
                assert(arms@[i - 1].0 == discriminant_of(variants@, i - 1));
            }
            get_variant_discriminant(&variants[i], Some(&arms[i - 1].0))
        };
        arms.push((d, variants[i].name.clone()));
        i = i + 1;
    }
    EnumWrapperPlan { wrapper_name, underlying_type, derives_codama_type, arms }
}

/// Whether a type is `BitField`: a path type whose last segment is so named.
pub fn is_bitfield_type(ty: &TypeShape) -> (r: bool)
    ensures
        r == (shape_name_of(*ty) == Some("BitField"@)),
{
    match ty {
        TypeShape::Path { name, args: _ } => str_eq(name.as_str(), "BitField"),
        _ => false,
    }
}

/// The name of a path type's last segment; `None` for other types.
pub open spec fn shape_name_of(t: TypeShape) -> Option<Seq<char>> {
    match t {
        TypeShape::Path { name, args } => Some(name@),
        _ => None,
    }
}

/// A named field of a struct.
pub struct NamedField {
    pub name: String,
    pub ty: TypeShape,
}

/// The fields of a struct.
pub enum StructFields {
    Named(Vec<NamedField>),
    Unnamed,
    Unit,
}

/// Why a codec could not be derived for a struct.
#[derive(Debug, Clone, Copy, PartialEq, Eq, Structural)]
pub enum DeriveCodecError {
    /// The struct's fields have no names.
    UnnamedFields,
    /// A field's type has no reader call.
    Read(ReadCallError),
}

/// The writer call of each named field, in order; a unit struct writes
/// nothing.
pub fn zero_copy_serialize_plan(fields: &StructFields) -> (r: Result<Vec<WriteCall>, DeriveCodecError>)
    ensures
        match *fields {
            StructFields::Named(v) => r matches Ok(calls) && calls@.len() == v@.len() && forall|i: int|
                0 <= i < v@.len() ==> #[trigger] calls@[i] == write_call_of(v@[i].ty),
            StructFields::Unnamed => r == Err::<Vec<WriteCall>, DeriveCodecError>(
                DeriveCodecError::UnnamedFields,
            ),
            StructFields::Unit => r matches Ok(calls) && calls@.len() == 0,
        },
{
    match fields {
        StructFields::Named(v) => {
            let mut calls: Vec<WriteCall> = Vec::new();
            let mut i: usize = 0;
            while i < v.len()
                invariant
                    0 <= i <= v@.len(),
                    calls@.len() == i,
                    forall|k: int| 0 <= k < i ==> #[trigger] calls@[k] == write_call_of(v@[k].ty),
                decreases v@.len() - i,
            {
                calls.push(generate_write_call(&v[i].ty));
                i = i + 1;
            }
            Ok(calls)
        },
        StructFields::Unnamed => Err(DeriveCodecError::UnnamedFields),
        StructFields::Unit => Ok(Vec::new()),
    }
}

/// How a test encoder writes each named field, in order, after the
/// instruction's discriminator byte.
pub fn test_serialize_plan(fields: &StructFields) -> (r: Result<Vec<TestWriteCall>, DeriveCodecError>)
    ensures
        match *fields {
            StructFields::Named(v) => r matches Ok(calls) && calls@.len() == v@.len() && forall|i: int|
                0 <= i < v@.len() ==> #[trigger] calls@[i] == test_write_call_of(v@[i].ty),
            StructFields::Unnamed => r == Err::<Vec<TestWriteCall>, DeriveCodecError>(
                DeriveCodecError::UnnamedFields,
            ),
            StructFields::Unit => r matches Ok(calls) && calls@.len() == 0,
        },
{
    match fields {
        StructFields::Named(v) => {
            let mut calls: Vec<TestWriteCall> = Vec::new();
            let mut i: usize = 0;
            while i < v.len()
                invariant
                    0 <= i <= v@.len(),
                    calls@.len() == i,
                    forall|k: int| 0 <= k < i ==> #[trigger] calls@[k] == test_write_call_of(v@[k].ty),
                decreases v@.len() - i,
            {
                calls.push(generate_test_write_call(&v[i].ty));
                i = i + 1;
            }
            Ok(calls)
        },
        StructFields::Unnamed => Err(DeriveCodecError::UnnamedFields),
        StructFields::Unit => Ok(Vec::new()),
    }
}

/// Field `i` is the first of `fields` whose type has no reader call, and
/// `e` says why.
pub open spec fn first_read_error_at(fields: Seq<NamedField>, i: int, e: ReadCallError) -> bool {
    &&& 0 <= i < fields.len()
    &&& read_call_of(fields[i].ty) == Err::<ReadCall, ReadCallError>(e)
    &&& forall|j: int| 0 <= j < i ==> read_call_of(#[trigger] fields[j].ty) is Ok
}

/// The reader call of each named field, in order; the first field without
/// one gives the error, and a unit struct reads nothing.
pub fn zero_copy_deserialize_plan(fields: &StructFields) -> (r: Result<Vec<ReadCall>, DeriveCodecError>)
    ensures
        match *fields {
            StructFields::Named(v) => match r {
                Ok(calls) => calls@.len() == v@.len() && forall|i: int|
                    0 <= i < v@.len() ==> read_call_of(v@[i].ty) == Ok::<ReadCall, ReadCallError>(
                        #[trigger] calls@[i],
                    ),
                Err(err) => err is Read && exists|i: int| #[trigger] first_read_error_at(v@, i, err->Read_0),
            },
            StructFields::Unnamed => r == Err::<Vec<ReadCall>, DeriveCodecError>(
                DeriveCodecError::UnnamedFields,
            ),
            StructFields::Unit => r matches Ok(calls) && calls@.len() == 0,
        },
{
    match fields {
        StructFields::Named(v) => {
            let mut calls: Vec<ReadCall> = Vec::new();
            let mut i: usize = 0;
            while i < v.len()
                invariant
                    *fields == StructFields::Named(*v),
                    0 <= i <= v@.len(),
                    calls@.len() == i,
                    forall|k: int|
                        0 <= k < i ==> read_call_of(v@[k].ty) == Ok::<ReadCall, ReadCallError>(
                            #[trigger] calls@[k],
                        ),
                decreases v@.len() - i,
            {
                match generate_read_call(&v[i].ty) {
                    Ok(c) => calls.push(c),
                    Err(e) => {
                        proof {
                            assert forall|j: int| 0 <= j < i implies read_call_of(#[trigger] v@[j].ty) is Ok by {
                                assert(read_call_of(v@[j].ty) == Ok::<ReadCall, ReadCallError>(calls@[j]));
                            }
                            assert(read_call_of(v@[i as int].ty) == Err::<ReadCall, ReadCallError>(e));
                            assert(first_read_error_at(v@, i as int, e));
                        }
                        return Err(DeriveCodecError::Read(e));
                    },
                }
                i = i + 1;
            }
            Ok(calls)
        },
        StructFields::Unnamed => Err(DeriveCodecError::UnnamedFields),
        StructFields::Unit => Ok(Vec::new()),
    }
}

} // verus!
