//! TypeScript bindings of the registry's types: interface names and field
//! types, encoders and decoders, and enums of wrapped variants.

use crate::codegen::{shape_name_of, NamedField, StructFields, TypeArgs, TypeShape};
use crate::naming::{ascii_upper, str_eq, string_from_chars, to_ascii_upper};
use crate::types::{Uint128, Uint16, Uint32, Uint64};
use vstd::prelude::*;
use vstd::string::{StrSliceExecFns, StringExecFns};

verus! {

/// `snake` in camel case: underscores dropped, and the ASCII letter after
/// an underscore made capital.
pub open spec fn camel_from(s: Seq<char>, capitalize: bool) -> Seq<char>
    decreases s.len(),
{
    if s.len() == 0 {
        Seq::empty()
    } else if s[0] == '_' {
        camel_from(s.drop_first(), true)
    } else {
        seq![if capitalize { ascii_upper(s[0]) } else { s[0] }] + camel_from(s.drop_first(), false)
    }
}

proof fn lemma_camel_step(s: Seq<char>, i: int, capitalize: bool)
    requires
        0 <= i < s.len(),
    ensures
        camel_from(s.skip(i), capitalize) == if s[i] == '_' {
            camel_from(s.skip(i + 1), true)
        } else {
            seq![if capitalize { ascii_upper(s[i]) } else { s[i] }] + camel_from(s.skip(i + 1), false)
        },
{
    assert(s.skip(i).drop_first() =~= s.skip(i + 1));
    assert(s.skip(i)[0] == s[i]);
}

/// Camel case drops every underscore.
pub proof fn lemma_camel_has_no_underscore(s: Seq<char>, capitalize: bool)
    ensures
        forall|i: int| 0 <= i < camel_from(s, capitalize).len() ==> camel_from(s, capitalize)[i] != '_',
    decreases s.len(),
{
    if s.len() > 0 {
        lemma_camel_has_no_underscore(s.drop_first(), false);
        lemma_camel_has_no_underscore(s.drop_first(), true);
        if s[0] == '_' {
            assert(camel_from(s, capitalize) == camel_from(s.drop_first(), true));
        } else {
            let x = if capitalize { ascii_upper(s[0]) } else { s[0] };
            let rest = camel_from(s.drop_first(), false);
            assert(camel_from(s, capitalize) == seq![x] + rest);
            assert(x != '_') by {
                if capitalize && 'a' <= s[0] && s[0] <= 'z' {
                    assert((s[0] as u32) - 32 != 95);
                }
            }
            assert forall|i: int| 0 <= i < camel_from(s, capitalize).len() implies camel_from(
                s,
                capitalize,
            )[i] != '_' by {
                if i > 0 {
                    assert(camel_from(s, capitalize)[i] == rest[i - 1]);
                }
            }
        }
    }
}

/// A snake-case name in camel case (`rotation_timeout` to
/// `rotationTimeout`).
pub fn snake_to_camel(snake_str: &str) -> (r: String)
    ensures
        r@ == camel_from(snake_str@, false),
{
    let n = snake_str.unicode_len();
    let mut camel: Vec<char> = Vec::new();
    let mut capitalize_next = false;
    let mut i: usize = 0;
    proof {
        assert(snake_str@.skip(0) =~= snake_str@);
    }
    while i < n
        invariant
            0 <= i <= n,
            n == snake_str@.len(),
            camel@ + camel_from(snake_str@.skip(i as int), capitalize_next) == camel_from(
                snake_str@,
                false,
            ),
        decreases n - i,
    {
        let ch = snake_str.get_char(i);
        proof {
            lemma_camel_step(snake_str@, i as int, capitalize_next);
        }
        if ch == '_' {
            capitalize_next = true;
        } else if capitalize_next {
            let up = to_ascii_upper(ch);
            proof {
                assert(camel@.push(up) + camel_from(snake_str@.skip(i + 1), false) =~= camel@ + (seq![
                    up,
                ] + camel_from(snake_str@.skip(i + 1), false)));
            }
            camel.push(up);
            capitalize_next = false;
        } else {
            proof {
                assert(camel@.push(ch) + camel_from(snake_str@.skip(i + 1), false) =~= camel@ + (seq![
                    ch,
                ] + camel_from(snake_str@.skip(i + 1), false)));
            }
            camel.push(ch);
        }
        i = i + 1;
    }
    proof {
        assert(camel_from(snake_str@.skip(n as int), capitalize_next) =~= Seq::<char>::empty());
        assert(camel@ + Seq::<char>::empty() =~= camel@);
    }
    string_from_chars(&camel)
}

/// The type names that have their own TypeScript representation.
pub open spec fn builtin_names() -> Seq<Seq<char>> {
    seq![
        "Pubkey"@, "u8"@, "u16"@, "u32"@, "u64"@, "u128"@, "Uint16"@, "Uint32"@, "Uint64"@,
        "Uint128"@, "BitField"@, "String16"@, "String32"@, "String64"@, "String4096"@,
        "Address"@, "number"@, "bigint"@, "string"@, "boolean"@,
    ]
}

/// Whether a type is a struct of the project, which gets its own interface
/// and codecs: any type not among the built-in names.
pub fn is_custom_struct(name: &str) -> (r: bool)
    ensures
        r == !builtin_names().contains(name@),
{
    let names: [&str; 20] = [
        "Pubkey", "u8", "u16", "u32", "u64", "u128", "Uint16", "Uint32", "Uint64", "Uint128",
        "BitField", "String16", "String32", "String64", "String4096", "Address", "number",
        "bigint", "string", "boolean",
    ];
    let ghost b = builtin_names();
    assert(names@.len() == 20);
    assert(forall|k: int| 0 <= k < 20 ==> (#[trigger] names@[k])@ == b[k]) by {
        assert(names@[0]@ == b[0]);
        assert(names@[1]@ == b[1]);
        assert(names@[2]@ == b[2]);
        assert(names@[3]@ == b[3]);
        assert(names@[4]@ == b[4]);
        assert(names@[5]@ == b[5]);
        assert(names@[6]@ == b[6]);
        assert(names@[7]@ == b[7]);
        assert(names@[8]@ == b[8]);
        assert(names@[9]@ == b[9]);
        assert(names@[10]@ == b[10]);
        assert(names@[11]@ == b[11]);
        assert(names@[12]@ == b[12]);
        assert(names@[13]@ == b[13]);
        assert(names@[14]@ == b[14]);
        assert(names@[15]@ == b[15]);
        assert(names@[16]@ == b[16]);
        assert(names@[17]@ == b[17]);
        assert(names@[18]@ == b[18]);
        assert(names@[19]@ == b[19]);
    }
    let mut i: usize = 0;
    while i < 20
        invariant
            0 <= i <= 20,
            names@.len() == 20,
            b == builtin_names(),
            b.len() == 20,
            forall|k: int| 0 <= k < 20 ==> (#[trigger] names@[k])@ == b[k],
            forall|k: int| 0 <= k < i ==> b[k] != name@,
        decreases 20 - i,
    {
        if str_eq(name, names[i]) {
            assert(b[i as int] == name@);
            return false;
        }
        i = i + 1;
    }
    proof {
        if b.contains(name@) {
            let k = choose|k: int| 0 <= k < b.len() && b[k] == name@;
            assert(b[k] != name@);
        }
    }
    true
}

/// Whether a name is one of the built-in fixed-size cells written through
/// a `T`-prefixed TypeScript class.
pub open spec fn cell_type(n: Seq<char>) -> bool {
    ||| n == "Uint16"@
    ||| n == "Uint32"@
    ||| n == "Uint64"@
    ||| n == "Uint128"@
    ||| n == "String16"@
    ||| n == "String32"@
    ||| n == "String64"@
    ||| n == "String4096"@
}

/// The TypeScript type of a field whose type has the given name.
pub open spec fn ts_type_text(t: Option<Seq<char>>) -> Seq<char> {
    match t {
        Some(n) => if n == "Pubkey"@ {
            "Address"@
        } else if n == "u8"@ || n == "Uint16"@ || n == "Uint32"@ {
            "number"@
        } else if n == "Uint64"@ || n == "Uint128"@ {
            "bigint"@
        } else if n == "String16"@ || n == "String32"@ || n == "String64"@ || n == "String4096"@ {
            "string"@
        } else if n == "BitField"@ {
            "boolean"@
        } else if !builtin_names().contains(n) {
            "I"@ + n
        } else {
            n
        },
        None => "unknown"@,
    }
}

/// The number of bytes of an integer field type: `u8` and the
/// little-endian integer cells; `None` for other names.
pub open spec fn integer_bytes(n: Seq<char>) -> Option<nat> {
    if n == "u8"@ {
        Some(1)
    } else if n == "Uint16"@ {
        Some(2)
    } else if n == "Uint32"@ {
        Some(4)
    } else if n == "Uint64"@ {
        Some(8)
    } else if n == "Uint128"@ {
        Some(16)
    } else {
        None
    }
}

/// A TypeScript `number` holds integers exactly only up to 53 bits, so an
/// integer field is typed `number` when every value of its type fits in 53
/// bits and `bigint` otherwise (the type its cell's decoder returns). The
/// widths are those of the cells' own layouts.
pub proof fn lemma_ts_integer_types(n: Seq<char>)
    requires
        integer_bytes(n) is Some,
    ensures
        ts_type_text(Some(n)) == if 8 * integer_bytes(n)->Some_0 <= 53 {
            "number"@
        } else {
            "bigint"@
        },
        n == "Uint16"@ ==> forall|c: Uint16| #[trigger] c.bytes().len() == integer_bytes(n)->Some_0,
        n == "Uint32"@ ==> forall|c: Uint32| #[trigger] c.bytes().len() == integer_bytes(n)->Some_0,
        n == "Uint64"@ ==> forall|c: Uint64| #[trigger] c.bytes().len() == integer_bytes(n)->Some_0,
        n == "Uint128"@ ==> forall|c: Uint128| #[trigger] c.bytes().len() == integer_bytes(n)->Some_0,
{
    reveal_strlit("u8");
    reveal_strlit("Uint16");
    reveal_strlit("Uint32");
    reveal_strlit("Uint64");
    reveal_strlit("Uint128");
    reveal_strlit("Pubkey");
    reveal_strlit("number");
    reveal_strlit("bigint");
    assert("u8"@.len() == 2 && "Uint16"@.len() == 6 && "Uint32"@.len() == 6 && "Uint64"@.len() == 6);
    assert("Uint128"@.len() == 7 && "Pubkey"@.len() == 6);
    assert("Uint16"@[4] != "Uint32"@[4] && "Uint16"@[4] != "Uint64"@[4] && "Uint32"@[4] != "Uint64"@[4]);
    assert("Pubkey"@[0] != "Uint16"@[0]);
    assert("Uint16"@ != "u8"@ && "Uint32"@ != "u8"@ && "Uint64"@ != "u8"@ && "Uint128"@ != "u8"@);
    assert("Uint32"@ != "Uint16"@ && "Uint64"@ != "Uint16"@ && "Uint64"@ != "Uint32"@);
    assert("Uint128"@ != "Uint16"@ && "Uint128"@ != "Uint32"@ && "Uint128"@ != "Uint64"@);
    assert("u8"@ != "Pubkey"@ && "Uint16"@ != "Pubkey"@ && "Uint32"@ != "Pubkey"@);
    assert("Uint64"@ != "Pubkey"@ && "Uint128"@ != "Pubkey"@);
    assert forall|c: Uint16| #[trigger] c.bytes().len() == 2 by {
        c.lemma_bytes_len();
    }
    assert forall|c: Uint32| #[trigger] c.bytes().len() == 4 by {
        c.lemma_bytes_len();
    }
    assert forall|c: Uint64| #[trigger] c.bytes().len() == 8 by {
        c.lemma_bytes_len();
    }
    assert forall|c: Uint128| #[trigger] c.bytes().len() == 16 by {
        c.lemma_bytes_len();
    }
}

fn name_in(n: &str, a: &str, b: &str) -> (r: bool)
    ensures
        r == (n@ == a@ || n@ == b@),
{
    str_eq(n, a) || str_eq(n, b)
}

fn is_cell_type(n: &str) -> (r: bool)
    ensures
        r == cell_type(n@),
{
    str_eq(n, "Uint16") || str_eq(n, "Uint32") || str_eq(n, "Uint64") || str_eq(n, "Uint128")
        || str_eq(n, "String16") || str_eq(n, "String32") || str_eq(n, "String64") || str_eq(
        n,
        "String4096",
    )
}

/// The TypeScript type of a field: addresses, numbers, big integers,
/// strings and booleans for the built-in types, the `I`-prefixed interface
/// of a project struct, the name itself otherwise, `unknown` for types that
/// are not paths.
pub fn rust_type_to_ts_type(ty: &TypeShape) -> (r: String)
    ensures
        r@ == ts_type_text(shape_name_of(*ty)),
{
    match ty {
        TypeShape::Path { name, args: _ } => {
            let n = name.as_str();
            if str_eq(n, "Pubkey") {
                String::from_str("Address")
            } else if str_eq(n, "u8") || name_in(n, "Uint16", "Uint32") {
                String::from_str("number")
            } else if name_in(n, "Uint64", "Uint128") {
                String::from_str("bigint")
            } else if name_in(n, "String16", "String32") || name_in(n, "String64", "String4096") {
                String::from_str("string")
            } else if str_eq(n, "BitField") {
                String::from_str("boolean")
            } else if is_custom_struct(n) {
                String::from_str("I").concat(n)
            } else {
                String::from_str(n)
            }
        },
        _ => String::from_str("unknown"),
    }
}

/// The expression that encodes field `f` of a value `x`.
pub open spec fn encoder_text(t: Option<Seq<char>>, f: Seq<char>) -> Seq<char> {
    match t {
        Some(n) => if n == "Pubkey"@ {
            "x?."@ + f + " || DEFAULT_ADDRESS"@
        } else if n == "u8"@ {
            "x?."@ + f + " || 0"@
        } else if n == "BitField"@ {
            "new TBitField({ flag: x?."@ + f + " || false }).getRaw()"@
        } else if cell_type(n) {
            "new T"@ + n + "(x?."@ + f + ").getRaw()"@
        } else if !builtin_names().contains(n) {
            "enc"@ + n + "(x?."@ + f + ")"@
        } else {
            "x?."@ + f
        },
        None => "x?."@ + f,
    }
}

/// The expression that decodes field `f` of a value `x`.
pub open spec fn decoder_text(t: Option<Seq<char>>, f: Seq<char>) -> Seq<char> {
    match t {
        Some(n) => if n == "Pubkey"@ {
            "x?."@ + f + " || DEFAULT_ADDRESS"@
        } else if n == "u8"@ {
            "x?."@ + f + " || 0"@
        } else if n == "BitField"@ {
            "new TBitField({ value: x?."@ + f + " || 0 }).get()"@
        } else if cell_type(n) {
            "new T"@ + n + "(x?."@ + f + ").get()"@
        } else if !builtin_names().contains(n) {
            "dec"@ + n + "(x?."@ + f + ")"@
        } else {
            "x?."@ + f
        },
        None => "x?."@ + f,
    }
}

/// The expression that encodes a field named `field_name` of type `ty`.
pub fn generate_field_encoder(ty: &TypeShape, field_name: &str) -> (r: String)
    ensures
        r@ == encoder_text(shape_name_of(*ty), field_name@),
{
    match ty {
        TypeShape::Path { name, args: _ } => {
            let n = name.as_str();
            if str_eq(n, "Pubkey") {
                String::from_str("x?.").concat(field_name).concat(" || DEFAULT_ADDRESS")
            } else if str_eq(n, "u8") {
                String::from_str("x?.").concat(field_name).concat(" || 0")
            } else if str_eq(n, "BitField") {
                String::from_str("new TBitField({ flag: x?.").concat(field_name).concat(
                    " || false }).getRaw()",
                )
            } else if is_cell_type(n) {
                String::from_str("new T").concat(n).concat("(x?.").concat(field_name).concat(
                    ").getRaw()",
                )
            } else if is_custom_struct(n) {
                String::from_str("enc").concat(n).concat("(x?.").concat(field_name).concat(")")
            } else {
                String::from_str("x?.").concat(field_name)
            }
        },
        _ => String::from_str("x?.").concat(field_name),
    }
}

/// The expression that decodes a field named `field_name` of type `ty`.
pub fn generate_field_decoder(ty: &TypeShape, field_name: &str) -> (r: String)
    ensures
        r@ == decoder_text(shape_name_of(*ty), field_name@),
{
    match ty {
        TypeShape::Path { name, args: _ } => {
            let n = name.as_str();
            if str_eq(n, "Pubkey") {
                String::from_str("x?.").concat(field_name).concat(" || DEFAULT_ADDRESS")
            } else if str_eq(n, "u8") {
                String::from_str("x?.").concat(field_name).concat(" || 0")
            } else if str_eq(n, "BitField") {
                String::from_str("new TBitField({ value: x?.").concat(field_name).concat(
                    " || 0 }).get()",
                )
            } else if is_cell_type(n) {
                String::from_str("new T").concat(n).concat("(x?.").concat(field_name).concat(
                    ").get()",
                )
            } else if is_custom_struct(n) {
                String::from_str("dec").concat(n).concat("(x?.").concat(field_name).concat(")")
            } else {
                String::from_str("x?.").concat(field_name)
            }
        },
        _ => String::from_str("x?.").concat(field_name),
    }
}

/// A field by its name and the name of its type (`None` if the type is no
/// path).
pub open spec fn field_view(f: NamedField) -> (Seq<char>, Option<Seq<char>>) {
    (f.name@, shape_name_of(f.ty))
}

/// The fields that get a line in the bindings: the named ones.
pub open spec fn fields_view(fields: StructFields) -> Seq<(Seq<char>, Option<Seq<char>>)> {
    match fields {
        StructFields::Named(v) => v@.map_values(|f: NamedField| field_view(f)),
        _ => Seq::empty(),
    }
}

/// One line per field of the interface: the camel-case name and its type.
pub open spec fn interface_lines(fs: Seq<(Seq<char>, Option<Seq<char>>)>) -> Seq<char>
    decreases fs.len(),
{
    if fs.len() == 0 {
        Seq::empty()
    } else {
        let f = fs.last();
        interface_lines(fs.drop_last()) + "  "@ + camel_from(f.0, false) + ": "@ + ts_type_text(f.1)
            + ";\n"@
    }
}

/// One line per field of the encoder.
pub open spec fn encoder_lines(fs: Seq<(Seq<char>, Option<Seq<char>>)>) -> Seq<char>
    decreases fs.len(),
{
    if fs.len() == 0 {
        Seq::empty()
    } else {
        let f = fs.last();
        let c = camel_from(f.0, false);
        encoder_lines(fs.drop_last()) + "    "@ + c + ": "@ + encoder_text(f.1, c) + ",\n"@
    }
}

/// One line per field of the decoder.
pub open spec fn decoder_lines(fs: Seq<(Seq<char>, Option<Seq<char>>)>) -> Seq<char>
    decreases fs.len(),
{
    if fs.len() == 0 {
        Seq::empty()
    } else {
        let f = fs.last();
        let c = camel_from(f.0, false);
        decoder_lines(fs.drop_last()) + "    "@ + c + ": "@ + decoder_text(f.1, c) + ",\n"@
    }
}

/// The bindings of struct `s`: the `I`-prefixed interface, then the
/// encoder `enc` and the decoder `dec` between it and the raw layout.
#[verifier::opaque]
pub open spec fn interface_text(s: Seq<char>, fs: Seq<(Seq<char>, Option<Seq<char>>)>) -> Seq<char> {
    "export interface I"@ + s + " {\n"@ + interface_lines(fs) + "}\n\n"@
        + "export function enc"@ + s + "(x?: I"@ + s + "): "@ + s + " {\n"@ + "  return {\n"@
        + encoder_lines(fs) + "  };\n}\n\n"@
        + "export function dec"@ + s + "(x?: "@ + s + "): I"@ + s + " {\n"@ + "  return {\n"@
        + decoder_lines(fs) + "  };\n}\n\n"@
}

/// The bindings of a struct: its interface, encoder and decoder.
pub fn generate_interface_and_codecs(struct_name: &str, fields: &StructFields) -> (r: String)
    ensures
        r@ == interface_text(struct_name@, fields_view(*fields)),
{
    let ghost fs = fields_view(*fields);
    let empty: Vec<NamedField> = Vec::new();
    let named = match fields {
        StructFields::Named(v) => v,
        _ => &empty,
    };
    assert(fs == named@.map_values(|f: NamedField| field_view(f)));
    let mut output = String::from_str("export interface I");
    output.append(struct_name);
    output.append(" {\n");
    let ghost start = output@;
    let mut i: usize = 0;
    while i < named.len()
        invariant
            0 <= i <= named@.len(),
            fs == named@.map_values(|f: NamedField| field_view(f)),
            output@ == start + interface_lines(fs.take(i as int)),
        decreases named@.len() - i,
    {
        let field = &named[i];
        let ts_type = rust_type_to_ts_type(&field.ty);
        let ts_field_name = snake_to_camel(field.name.as_str());
        output.append("  ");
        output.append(ts_field_name.as_str());
        output.append(": ");
        output.append(ts_type.as_str());
        output.append(";\n");
        proof {
            assert(fs.take(i + 1).drop_last() =~= fs.take(i as int));
            assert(fs.take(i + 1).last() == field_view(named@[i as int]));
            assert(output@ =~= start + interface_lines(fs.take(i + 1)));
        }
        i = i + 1;
    }
    proof {
        assert(fs.take(named@.len() as int) =~= fs);
    }
    output.append("}\n\n");
    output.append("export function enc");
    output.append(struct_name);
    output.append("(x?: I");
    output.append(struct_name);
    output.append("): ");
    output.append(struct_name);
    output.append(" {\n");
    output.append("  return {\n");
    let ghost start2 = output@;
    let mut i: usize = 0;
    while i < named.len()
        invariant
            0 <= i <= named@.len(),
            fs == named@.map_values(|f: NamedField| field_view(f)),
            output@ == start2 + encoder_lines(fs.take(i as int)),
        decreases named@.len() - i,
    {
        let field = &named[i];
        let ts_field_name = snake_to_camel(field.name.as_str());
        let encoder_expr = generate_field_encoder(&field.ty, ts_field_name.as_str());
        output.append("    ");
        output.append(ts_field_name.as_str());
        output.append(": ");
        output.append(encoder_expr.as_str());
        output.append(",\n");
        proof {
            assert(fs.take(i + 1).drop_last() =~= fs.take(i as int));
            assert(fs.take(i + 1).last() == field_view(named@[i as int]));
            assert(output@ =~= start2 + encoder_lines(fs.take(i + 1)));
        }
        i = i + 1;
    }
    output.append("  };\n}\n\n");
    output.append("export function dec");
    output.append(struct_name);
    output.append("(x?: ");
    output.append(struct_name);
    output.append("): I");
    output.append(struct_name);
    output.append(" {\n");
    output.append("  return {\n");
    let ghost start3 = output@;
    let mut i: usize = 0;
    while i < named.len()
        invariant
            0 <= i <= named@.len(),
            fs == named@.map_values(|f: NamedField| field_view(f)),
            output@ == start3 + decoder_lines(fs.take(i as int)),
        decreases named@.len() - i,
    {
        let field = &named[i];
        let ts_field_name = snake_to_camel(field.name.as_str());
        let decoder_expr = generate_field_decoder(&field.ty, ts_field_name.as_str());
        output.append("    ");
        output.append(ts_field_name.as_str());
        output.append(": ");
        output.append(decoder_expr.as_str());
        output.append(",\n");
        proof {
            assert(fs.take(i + 1).drop_last() =~= fs.take(i as int));
            assert(fs.take(i + 1).last() == field_view(named@[i as int]));
            assert(output@ =~= start3 + decoder_lines(fs.take(i + 1)));
        }
        i = i + 1;
    }
    output.append("  };\n}\n\n");
    proof {
        reveal(interface_text);
        assert(output@ =~= interface_text(struct_name@, fs));
    }
    output
}

/// What `char::to_uppercase` yields for `c`.
pub uninterp spec fn char_uppercase(c: char) -> Seq<char>;

/// `char::to_uppercase`, collected into a string: the Unicode upper case of
/// `c` (one or more characters). Its contract names the result and states
/// nothing more of it.
#[verifier::external_body]
fn uppercase_of(c: char) -> (r: String)
    ensures
        r@ == char_uppercase(c),
{
    c.to_uppercase().collect::<String>()
}

/// `snake` in Pascal case: underscores dropped, and the first character of
/// each word made upper case.
pub open spec fn pascal_from(s: Seq<char>, word_start: bool) -> Seq<char>
    decreases s.len(),
{
    if s.len() == 0 {
        Seq::empty()
    } else if s[0] == '_' {
        pascal_from(s.drop_first(), true)
    } else {
        (if word_start {
            char_uppercase(s[0])
        } else {
            seq![s[0]]
        }) + pascal_from(s.drop_first(), false)
    }
}

/// A snake-case name in Pascal case (`is_open` to `IsOpen`).
pub fn snake_to_pascal(snake: &str) -> (r: String)
    ensures
        r@ == pascal_from(snake@, true),
{
    let n = snake.unicode_len();
    let mut out = String::new();
    let mut word_start = true;
    let mut i: usize = 0;
    proof {
        assert(snake@.skip(0) =~= snake@);
    }
    while i < n
        invariant
            0 <= i <= n,
            n == snake@.len(),
            out@ + pascal_from(snake@.skip(i as int), word_start) == pascal_from(snake@, true),
        decreases n - i,
    {
        let ch = snake.get_char(i);
        proof {
            assert(snake@.skip(i as int).drop_first() =~= snake@.skip(i + 1));
            assert(snake@.skip(i as int)[0] == snake@[i as int]);
        }
        if ch == '_' {
            word_start = true;
        } else {
            let piece = if word_start {
                uppercase_of(ch)
            } else {
                let v: Vec<char> = vec![ch];
                assert(v@ =~= seq![ch]);
                string_from_chars(&v)
            };
            proof {
                assert(out@ + piece@ + pascal_from(snake@.skip(i + 1), false) =~= out@ + (piece@
                    + pascal_from(snake@.skip(i + 1), false)));
            }
            out.append(piece.as_str());
            word_start = false;
        }
        i = i + 1;
    }
    proof {
        assert(pascal_from(snake@.skip(n as int), word_start) =~= Seq::<char>::empty());
        assert(out@ + Seq::<char>::empty() =~= out@);
    }
    out
}

/// One line per variant of the enum.
pub open spec fn enum_lines(names: Seq<Seq<char>>) -> Seq<char>
    decreases names.len(),
{
    if names.len() == 0 {
        Seq::empty()
    } else {
        enum_lines(names.drop_last()) + "  "@ + pascal_from(names.last(), true) + ",\n"@
    }
}

/// The TypeScript enum of a wrapped enum, its variants named after the
/// snake-case names listed for it, in Pascal case.
pub fn generate_enum_from_wrapper(enum_name: &str, enum_fields: &Vec<String>) -> (r: String)
    ensures
        r@ == "export enum "@ + enum_name@ + " {\n"@ + enum_lines(
            enum_fields@.map_values(|f: String| f@),
        ) + "}\n\n"@,
{
    let ghost names = enum_fields@.map_values(|f: String| f@);
    let mut result = String::from_str("export enum ");
    result.append(enum_name);
    result.append(" {\n");
    let ghost start = result@;
    let mut i: usize = 0;
    while i < enum_fields.len()
        invariant
            0 <= i <= enum_fields@.len(),
            names == enum_fields@.map_values(|f: String| f@),
            result@ == start + enum_lines(names.take(i as int)),
        decreases enum_fields@.len() - i,
    {
        let field = snake_to_pascal(enum_fields[i].as_str());
        result.append("  ");
        result.append(field.as_str());
        result.append(",\n");
        proof {
            assert(names.take(i + 1).drop_last() =~= names.take(i as int));
            assert(names.take(i + 1).last() == enum_fields@[i as int]@);
            assert(result@ =~= start + enum_lines(names.take(i + 1)));
        }
        i = i + 1;
    }
    proof {
        assert(names.take(enum_fields@.len() as int) =~= names);
    }
    result.append("}\n\n");
    result
}

/// An attribute of a struct as the bindings generator reads it: whether it
/// is a `derive(...)` list and, when its list parses as paths, each path's
/// name if it is a single identifier.
pub struct DeriveAttr {
    pub is_derive_list: bool,
    pub paths: Option<Vec<Option<String>>>,
}

/// Whether a path names `EnumWrapper`.
pub open spec fn names_enum_wrapper(p: Option<String>) -> bool {
    match p {
        Some(s) => s@ == "EnumWrapper"@,
        None => false,
    }
}

/// Whether an attribute is a `derive` list that names `EnumWrapper`.
pub open spec fn attr_derives_wrapper(a: DeriveAttr) -> bool {
    a.is_derive_list && match a.paths {
        Some(ps) => exists|j: int| 0 <= j < ps@.len() && names_enum_wrapper(#[trigger] ps@[j]),
        None => false,
    }
}

/// Whether the attributes derive `EnumWrapper`.
pub open spec fn derives_enum_wrapper(attrs: Seq<DeriveAttr>) -> bool {
    exists|i: int| 0 <= i < attrs.len() && attr_derives_wrapper(#[trigger] attrs[i])
}

/// Whether a struct derives `EnumWrapper`: some `derive` list of it names
/// `EnumWrapper` by a single identifier.
pub fn has_enum_wrapper_derive(attrs: &Vec<DeriveAttr>) -> (r: bool)
    ensures
        r == derives_enum_wrapper(attrs@),
{
    let mut i: usize = 0;
    while i < attrs.len()
        invariant
            0 <= i <= attrs@.len(),
            forall|k: int| 0 <= k < i ==> !attr_derives_wrapper(#[trigger] attrs@[k]),
        decreases attrs@.len() - i,
    {
        let attr = &attrs[i];
        if attr.is_derive_list {
            match &attr.paths {
                Some(ps) => {
                    let mut j: usize = 0;
                    while j < ps.len()
                        invariant
                            0 <= j <= ps@.len(),
                            0 <= i < attrs@.len(),
                            attrs@[i as int].is_derive_list,
                            attrs@[i as int].paths == Some(*ps),
                            forall|k: int| 0 <= k < i ==> !attr_derives_wrapper(#[trigger] attrs@[k]),
                            forall|m: int| 0 <= m < j ==> !names_enum_wrapper(#[trigger] ps@[m]),
                        decreases ps@.len() - j,
                    {
                        match &ps[j] {
                            Some(p) => {
                                if str_eq(p.as_str(), "EnumWrapper") {
                                    assert(names_enum_wrapper(ps@[j as int]));
                                    let ghost q = attrs@[i as int].paths->Some_0;
                                    assert(q@ == ps@);
                                    assert(names_enum_wrapper(q@[j as int]));
                                    assert(attr_derives_wrapper(attrs@[i as int]));
                                    return true;
                                }
                            },
                            None => {},
                        }
                        j = j + 1;
                    }
                },
                None => {},
            }
        }
        i = i + 1;
    }
    false
}

/// A struct for which bindings are generated.
pub struct TsDecl {
    pub name: String,
    pub attrs: Vec<DeriveAttr>,
    pub fields: StructFields,
    /// Variant names listed for a wrapped enum.
    pub enum_fields: Vec<String>,
}

/// The bindings of a struct: the enum of a wrapped enum, else its
/// interface and codecs.
pub fn generate_typescript_code(decl: &TsDecl) -> (r: String)
    ensures
        r@ == if derives_enum_wrapper(decl.attrs@) {
            "export enum "@ + decl.name@ + " {\n"@ + enum_lines(
                decl.enum_fields@.map_values(|f: String| f@),
            ) + "}\n\n"@
        } else {
            interface_text(decl.name@, fields_view(decl.fields))
        },
{
    if has_enum_wrapper_derive(&decl.attrs) {
        generate_enum_from_wrapper(decl.name.as_str(), &decl.enum_fields)
    } else {
        generate_interface_and_codecs(decl.name.as_str(), &decl.fields)
    }
}

/// The bindings of each of the registry's types: the built-in cells, the
/// common types and the accounts, in that order.
pub open spec fn registry_ts_parts() -> Seq<Seq<char>> {
    seq![
        interface_text("BitField"@, Seq::empty()),
        interface_text("Uint16"@, Seq::empty()),
        interface_text("Uint32"@, Seq::empty()),
        interface_text("Uint64"@, Seq::empty()),
        interface_text("Uint128"@, Seq::empty()),
        interface_text("String16"@, Seq::empty()),
        interface_text("String32"@, Seq::empty()),
        interface_text("String64"@, Seq::empty()),
        interface_text("String4096"@, Seq::empty()),
        interface_text("AssetItem"@, seq![("amount"@, Some("Uint64"@)), ("asset"@, Some("Pubkey"@))]),
        interface_text("Range"@, seq![("min"@, Some("Uint32"@)), ("max"@, Some("Uint32"@))]),
        interface_text("Bump"@, seq![("config"@, Some("u8"@)), ("user_counter"@, Some("u8"@)), ("rotation_state"@, Some("u8"@))]),
        interface_text("Config"@, seq![("admin"@, Some("Pubkey"@)), ("is_paused"@, Some("BitField"@)), ("rotation_timeout"@, Some("Uint32"@)), ("registration_fee"@, Some("AssetItem"@)), ("data_size_range"@, Some("Range"@))]),
        interface_text("UserCounter"@, seq![("last_user_id"@, Some("Uint32"@))]),
        interface_text("RotationState"@, seq![("owner"@, Some("Pubkey"@)), ("new_owner"@, Some("Pubkey"@)), ("expiration_date"@, Some("Uint64"@))]),
        interface_text("UserId"@, seq![("flags"@, Some("BitField"@)), ("id"@, Some("Uint32"@)), ("account_bump"@, Some("u8"@)), ("rotation_state_bump"@, Some("u8"@))]),
        interface_text("UserAccount"@, seq![("data"@, None), ("nonce"@, Some("Uint64"@)), ("max_size"@, Some("Uint32"@))]),
    ]
}

/// Texts joined in order.
pub open spec fn concat_all(parts: Seq<Seq<char>>) -> Seq<char>
    decreases parts.len(),
{
    if parts.len() == 0 {
        Seq::empty()
    } else {
        concat_all(parts.drop_last()) + parts.last()
    }
}

fn path_field(name: &str, ty: &str) -> (r: NamedField)
    ensures
        field_view(r) == (name@, Some(ty@)),
{
    NamedField {
        name: String::from_str(name),
        ty: TypeShape::Path { name: String::from_str(ty), args: TypeArgs::Bare },
    }
}

fn array_field(name: &str) -> (r: NamedField)
    ensures
        field_view(r) == (name@, None::<Seq<char>>),
{
    let elem = TypeShape::Path { name: String::from_str("u8"), args: TypeArgs::Bare };
    NamedField { name: String::from_str(name), ty: TypeShape::Array { elem: Box::new(elem) } }
}

fn bindings_bit_field() -> (r: String)
    ensures
        r@ == interface_text("BitField"@, Seq::empty()),
{
    generate_interface_and_codecs("BitField", &StructFields::Unnamed)
}

fn bindings_uint16() -> (r: String)
    ensures
        r@ == interface_text("Uint16"@, Seq::empty()),
{
    generate_interface_and_codecs("Uint16", &StructFields::Unnamed)
}

fn bindings_uint32() -> (r: String)
    ensures
        r@ == interface_text("Uint32"@, Seq::empty()),
{
    generate_interface_and_codecs("Uint32", &StructFields::Unnamed)
}

fn bindings_uint64() -> (r: String)
    ensures
        r@ == interface_text("Uint64"@, Seq::empty()),
{
    generate_interface_and_codecs("Uint64", &StructFields::Unnamed)
}

fn bindings_uint128() -> (r: String)
    ensures
        r@ == interface_text("Uint128"@, Seq::empty()),
{
    generate_interface_and_codecs("Uint128", &StructFields::Unnamed)
}

fn bindings_string16() -> (r: String)
    ensures
        r@ == interface_text("String16"@, Seq::empty()),
{
    generate_interface_and_codecs("String16", &StructFields::Unnamed)
}

fn bindings_string32() -> (r: String)
    ensures
        r@ == interface_text("String32"@, Seq::empty()),
{
    generate_interface_and_codecs("String32", &StructFields::Unnamed)
}

fn bindings_string64() -> (r: String)
    ensures
        r@ == interface_text("String64"@, Seq::empty()),
{
    generate_interface_and_codecs("String64", &StructFields::Unnamed)
}

fn bindings_string4096() -> (r: String)
    ensures
        r@ == interface_text("String4096"@, Seq::empty()),
{
    generate_interface_and_codecs("String4096", &StructFields::Unnamed)
}

fn bindings_asset_item() -> (r: String)
    ensures
        r@ == interface_text("AssetItem"@, seq![("amount"@, Some("Uint64"@)), ("asset"@, Some("Pubkey"@))]),
{
    let mut fields: Vec<NamedField> = Vec::new();
    fields.push(path_field("amount", "Uint64"));
    fields.push(path_field("asset", "Pubkey"));
    let fields = StructFields::Named(fields);
    assert(fields_view(fields) =~= seq![("amount"@, Some("Uint64"@)), ("asset"@, Some("Pubkey"@))]);
    generate_interface_and_codecs("AssetItem", &fields)
}

fn bindings_range() -> (r: String)
    ensures
        r@ == interface_text("Range"@, seq![("min"@, Some("Uint32"@)), ("max"@, Some("Uint32"@))]),
{
    let mut fields: Vec<NamedField> = Vec::new();
    fields.push(path_field("min", "Uint32"));
    fields.push(path_field("max", "Uint32"));
    let fields = StructFields::Named(fields);
    assert(fields_view(fields) =~= seq![("min"@, Some("Uint32"@)), ("max"@, Some("Uint32"@))]);
    generate_interface_and_codecs("Range", &fields)
}

fn bindings_bump() -> (r: String)
    ensures
        r@ == interface_text("Bump"@, seq![("config"@, Some("u8"@)), ("user_counter"@, Some("u8"@)), ("rotation_state"@, Some("u8"@))]),
{
    let mut fields: Vec<NamedField> = Vec::new();
    fields.push(path_field("config", "u8"));
    fields.push(path_field("user_counter", "u8"));
    fields.push(path_field("rotation_state", "u8"));
    let fields = StructFields::Named(fields);
    assert(fields_view(fields) =~= seq![("config"@, Some("u8"@)), ("user_counter"@, Some("u8"@)), ("rotation_state"@, Some("u8"@))]);
    generate_interface_and_codecs("Bump", &fields)
}

fn bindings_config() -> (r: String)
    ensures
        r@ == interface_text("Config"@, seq![("admin"@, Some("Pubkey"@)), ("is_paused"@, Some("BitField"@)), ("rotation_timeout"@, Some("Uint32"@)), ("registration_fee"@, Some("AssetItem"@)), ("data_size_range"@, Some("Range"@))]),
{
    let mut fields: Vec<NamedField> = Vec::new();
    fields.push(path_field("admin", "Pubkey"));
    fields.push(path_field("is_paused", "BitField"));
    fields.push(path_field("rotation_timeout", "Uint32"));
    fields.push(path_field("registration_fee", "AssetItem"));
    fields.push(path_field("data_size_range", "Range"));
    let fields = StructFields::Named(fields);
    assert(fields_view(fields) =~= seq![("admin"@, Some("Pubkey"@)), ("is_paused"@, Some("BitField"@)), ("rotation_timeout"@, Some("Uint32"@)), ("registration_fee"@, Some("AssetItem"@)), ("data_size_range"@, Some("Range"@))]);
    generate_interface_and_codecs("Config", &fields)
}

fn bindings_user_counter() -> (r: String)
    ensures
        r@ == interface_text("UserCounter"@, seq![("last_user_id"@, Some("Uint32"@))]),
{
    let mut fields: Vec<NamedField> = Vec::new();
    fields.push(path_field("last_user_id", "Uint32"));
    let fields = StructFields::Named(fields);
    assert(fields_view(fields) =~= seq![("last_user_id"@, Some("Uint32"@))]);
    generate_interface_and_codecs("UserCounter", &fields)
}

fn bindings_rotation_state() -> (r: String)
    ensures
        r@ == interface_text("RotationState"@, seq![("owner"@, Some("Pubkey"@)), ("new_owner"@, Some("Pubkey"@)), ("expiration_date"@, Some("Uint64"@))]),
{
    let mut fields: Vec<NamedField> = Vec::new();
    fields.push(path_field("owner", "Pubkey"));
    fields.push(path_field("new_owner", "Pubkey"));
    fields.push(path_field("expiration_date", "Uint64"));
    let fields = StructFields::Named(fields);
    assert(fields_view(fields) =~= seq![("owner"@, Some("Pubkey"@)), ("new_owner"@, Some("Pubkey"@)), ("expiration_date"@, Some("Uint64"@))]);
    generate_interface_and_codecs("RotationState", &fields)
}

fn bindings_user_id() -> (r: String)
    ensures
        r@ == interface_text("UserId"@, seq![("flags"@, Some("BitField"@)), ("id"@, Some("Uint32"@)), ("account_bump"@, Some("u8"@)), ("rotation_state_bump"@, Some("u8"@))]),
{
    let mut fields: Vec<NamedField> = Vec::new();
    fields.push(path_field("flags", "BitField"));
    fields.push(path_field("id", "Uint32"));
    fields.push(path_field("account_bump", "u8"));
    fields.push(path_field("rotation_state_bump", "u8"));
    let fields = StructFields::Named(fields);
    assert(fields_view(fields) =~= seq![("flags"@, Some("BitField"@)), ("id"@, Some("Uint32"@)), ("account_bump"@, Some("u8"@)), ("rotation_state_bump"@, Some("u8"@))]);
    generate_interface_and_codecs("UserId", &fields)
}

fn bindings_user_account() -> (r: String)
    ensures
        r@ == interface_text("UserAccount"@, seq![("data"@, None), ("nonce"@, Some("Uint64"@)), ("max_size"@, Some("Uint32"@))]),
{
    let mut fields: Vec<NamedField> = Vec::new();
    fields.push(array_field("data"));
    fields.push(path_field("nonce", "Uint64"));
    fields.push(path_field("max_size", "Uint32"));
    let fields = StructFields::Named(fields);
    assert(fields_view(fields) =~= seq![("data"@, None), ("nonce"@, Some("Uint64"@)), ("max_size"@, Some("Uint32"@))]);
    generate_interface_and_codecs("UserAccount", &fields)
}

/// The TypeScript bindings of all the registry's types, concatenated.
#[verifier::rlimit(50)]
pub fn get_all_typescript_interfaces() -> (r: String)
    ensures
        r@ == concat_all(registry_ts_parts()),
{
    let mut parts: Vec<String> = Vec::new();
    parts.push(bindings_bit_field());
    parts.push(bindings_uint16());
    parts.push(bindings_uint32());
    parts.push(bindings_uint64());
    parts.push(bindings_uint128());
    parts.push(bindings_string16());
    parts.push(bindings_string32());
    parts.push(bindings_string64());
    parts.push(bindings_string4096());
    parts.push(bindings_asset_item());
    parts.push(bindings_range());
    parts.push(bindings_bump());
    parts.push(bindings_config());
    parts.push(bindings_user_counter());
    parts.push(bindings_rotation_state());
    parts.push(bindings_user_id());
    parts.push(bindings_user_account());
    let ghost ps = registry_ts_parts();
    proof {
        assert(parts@.len() == ps.len());
        assert forall|k: int| 0 <= k < ps.len() implies (#[trigger] parts@[k])@ == ps[k] by {
            if k == 0 { assert(parts@[0]@ == ps[0]); }
            else if k == 1 { assert(parts@[1]@ == ps[1]); }
            else if k == 2 { assert(parts@[2]@ == ps[2]); }
            else if k == 3 { assert(parts@[3]@ == ps[3]); }
            else if k == 4 { assert(parts@[4]@ == ps[4]); }
            else if k == 5 { assert(parts@[5]@ == ps[5]); }
            else if k == 6 { assert(parts@[6]@ == ps[6]); }
            else if k == 7 { assert(parts@[7]@ == ps[7]); }
            else if k == 8 { assert(parts@[8]@ == ps[8]); }
            else if k == 9 { assert(parts@[9]@ == ps[9]); }
            else if k == 10 { assert(parts@[10]@ == ps[10]); }
            else if k == 11 { assert(parts@[11]@ == ps[11]); }
            else if k == 12 { assert(parts@[12]@ == ps[12]); }
            else if k == 13 { assert(parts@[13]@ == ps[13]); }
            else if k == 14 { assert(parts@[14]@ == ps[14]); }
            else if k == 15 { assert(parts@[15]@ == ps[15]); }
            else { assert(parts@[16]@ == ps[16]); }
        }
    }
    let mut output = String::new();
    let mut i: usize = 0;
    while i < parts.len()
        invariant
            0 <= i <= parts@.len(),
            parts@.len() == ps.len(),
            ps == registry_ts_parts(),
            forall|k: int| 0 <= k < ps.len() ==> (#[trigger] parts@[k])@ == ps[k],
            output@ == concat_all(ps.take(i as int)),
        decreases parts@.len() - i,
    {
        output.append(parts[i].as_str());
        proof {
            assert(ps.take(i + 1).drop_last() =~= ps.take(i as int));
        }
        i = i + 1;
    }
    proof {
        assert(ps.take(ps.len() as int) =~= ps);
    }
    output
}

} // verus!
