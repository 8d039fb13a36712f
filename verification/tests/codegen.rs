use registry::codegen::{
    account_metas, account_try_from_fields, derive_enum_wrapper, generate_option_write_call,
    generate_read_call, generate_test_option_write_call, generate_test_write_call,
    generate_write_call, get_parser_function, get_variant_discriminant, is_bitfield_type,
    option_flag_layout, parse_account_attributes, AccountAttrError, AccountField,
    AccountFieldType, AccountListField, AttrMeta, DeriveCodecError, EnumVariant, FieldAttr, FlagKind,
    FlagStructField, NamedField, OptionFlagError, OptionWrite, OptionalAttr, Parser, Primitive, ReadCall,
    ReadCallError, StructFields, TestOptionWrite, TestWriteCall, TryFromError, TypeArgs, TypeShape,
    VariantDiscriminant, WriteCall, test_serialize_plan, zero_copy_deserialize_plan,
    zero_copy_serialize_plan,
};
use registry::naming::{levenshtein_distance, str_chars, suggest_correction, trim_str};

fn attr(path: &str, meta: AttrMeta) -> FieldAttr {
    FieldAttr { path: path.to_string(), meta }
}

fn list(tokens: &str) -> FieldAttr {
    attr("account", AttrMeta::List(tokens.to_string()))
}

fn path(name: &str) -> TypeShape {
    TypeShape::Path { name: name.to_string(), args: TypeArgs::Bare }
}

fn generic(name: &str, inner: TypeShape) -> TypeShape {
    TypeShape::Path { name: name.to_string(), args: TypeArgs::First(Box::new(inner)) }
}

#[test]
fn levenshtein_examples() {
    assert_eq!(levenshtein_distance("kitten", "sitting"), 3);
    assert_eq!(levenshtein_distance("signer", "signer"), 0);
    assert_eq!(levenshtein_distance("", "abc"), 3);
    assert_eq!(levenshtein_distance("abcd", ""), 4);
    assert_eq!(levenshtein_distance("writable", "writeable"), 1);
    assert_eq!(levenshtein_distance("flaw", "lawn"), 2);
    assert_eq!(levenshtein_distance("ab", "ba"), levenshtein_distance("ba", "ab"));
    // with an empty text the distance is the other's length in bytes
    assert_eq!(levenshtein_distance("", "é"), 2);
}

#[test]
fn suggestions_prefer_case_insensitive_matches() {
    let options = ["signer", "writable"];
    assert_eq!(suggest_correction("SIGNER", &options), Some("signer"));
    assert_eq!(suggest_correction("writeable", &options), Some("writable"));
    assert_eq!(suggest_correction("singer", &options), Some("signer"));
    assert_eq!(suggest_correction("mutable", &options), None);
    assert_eq!(suggest_correction("", &options), None);
}

#[test]
fn text_helpers() {
    assert_eq!(trim_str("  signer \t"), "signer");
    assert_eq!(trim_str("   "), "");
    assert_eq!(str_chars("añb"), vec!['a', 'ñ', 'b']);
}

#[test]
fn account_attributes_are_read() {
    assert_eq!(
        parse_account_attributes(&vec![list("signer, writable")]).ok(),
        Some((true, true))
    );
    assert_eq!(parse_account_attributes(&vec![list("writable")]).ok(), Some((false, true)));
    assert_eq!(
        parse_account_attributes(&vec![attr("account", AttrMeta::Path), attr("doc", AttrMeta::NameValue)]).ok(),
        Some((false, false))
    );
    assert_eq!(parse_account_attributes(&vec![list("signer,,")]).ok(), Some((true, false)));
    assert_eq!(parse_account_attributes(&vec![]).ok(), Some((false, false)));
}

#[test]
fn unknown_account_attributes_are_refused_with_a_suggestion() {
    match parse_account_attributes(&vec![list("signer, writeable")]) {
        Err(AccountAttrError::Unknown { token, suggestion }) => {
            assert_eq!(token, "writeable");
            assert_eq!(suggestion, Some("writable"));
        },
        _ => panic!("expected an unknown attribute"),
    }
    match parse_account_attributes(&vec![list("payer")]) {
        Err(AccountAttrError::Unknown { token, suggestion }) => {
            assert_eq!(token, "payer");
            assert_eq!(suggestion, None);
        },
        _ => panic!("expected an unknown attribute"),
    }
    assert!(matches!(
        parse_account_attributes(&vec![attr("account", AttrMeta::NameValue), list("nope")]),
        Err(AccountAttrError::NameValue)
    ));
}

#[test]
fn account_metas_per_field() {
    let fields = vec![
        AccountField { name: "sender".to_string(), attrs: vec![list("signer, writable")] },
        AccountField { name: "config".to_string(), attrs: vec![list("writable")] },
        AccountField { name: "system_program".to_string(), attrs: vec![] },
    ];
    let metas = account_metas(&fields).ok().unwrap();
    assert_eq!(metas.len(), 3);
    assert_eq!(metas[0].name, "sender");
    assert!(metas[0].is_signer && metas[0].is_writable);
    assert!(!metas[1].is_signer && metas[1].is_writable);
    assert!(!metas[2].is_signer && !metas[2].is_writable);
    let bad = vec![
        AccountField { name: "a".to_string(), attrs: vec![list("signr")] },
        AccountField { name: "b".to_string(), attrs: vec![list("x")] },
    ];
    match account_metas(&bad) {
        Err(AccountAttrError::Unknown { token, suggestion }) => {
            assert_eq!(token, "signr");
            assert_eq!(suggestion, Some("signer"));
        },
        _ => panic!("expected the first field's error"),
    }
}

#[test]
fn option_flags_take_consecutive_bits() {
    let names = ["_is_paused", "admin", "rotation_timeout", "registration_fee_amount", "data_size_range"];
    let fields = vec![
        FlagStructField {
            name: "flags".to_string(),
            is_bit_field: true,
            optional: OptionalAttr::Names(names.iter().map(|n| n.to_string()).collect()),
        },
        FlagStructField { name: "admin".to_string(), is_bit_field: false, optional: OptionalAttr::Missing },
        FlagStructField { name: "rotation_timeout".to_string(), is_bit_field: false, optional: OptionalAttr::Missing },
        FlagStructField { name: "registration_fee_amount".to_string(), is_bit_field: false, optional: OptionalAttr::Missing },
        FlagStructField { name: "data_size_range".to_string(), is_bit_field: false, optional: OptionalAttr::Missing },
    ];
    let slots = option_flag_layout(&fields).ok().unwrap();
    assert_eq!(slots.len(), 5);
    assert_eq!(slots[0].bit, 0);
    assert_eq!(slots[0].value_bit, Some(1));
    assert_eq!(slots[0].kind, FlagKind::Virtual);
    assert_eq!(slots[1].bit, 2);
    assert_eq!(slots[1].kind, FlagKind::Field);
    assert_eq!(slots[4].bit, 5);
    assert_eq!(slots[4].value_bit, None);
    let user_id = vec![FlagStructField {
        name: "flags".to_string(),
        is_bit_field: true,
        optional: OptionalAttr::Names(vec!["is_open".to_string(), "is_activated".to_string()]),
    }];
    let slots = option_flag_layout(&user_id).ok().unwrap();
    assert_eq!((slots[0].bit, slots[1].bit), (0, 1));
    assert_eq!(slots[1].kind, FlagKind::Standalone);
}

#[test]
fn option_flag_errors() {
    let none = vec![FlagStructField { name: "x".to_string(), is_bit_field: true, optional: OptionalAttr::Missing }];
    assert_eq!(option_flag_layout(&none).err(), Some(OptionFlagError::NoFlagsField));
    let wrong = vec![FlagStructField { name: "flags".to_string(), is_bit_field: false, optional: OptionalAttr::Missing }];
    assert_eq!(option_flag_layout(&wrong).err(), Some(OptionFlagError::FlagsNotBitField));
    let bare = vec![FlagStructField { name: "flags".to_string(), is_bit_field: true, optional: OptionalAttr::Missing }];
    assert_eq!(option_flag_layout(&bare).err(), Some(OptionFlagError::NoOptionalAttribute));
    let bad = vec![FlagStructField { name: "flags".to_string(), is_bit_field: true, optional: OptionalAttr::Malformed }];
    assert_eq!(option_flag_layout(&bad).err(), Some(OptionFlagError::MalformedOptionalAttribute));
    assert!(is_bitfield_type(&path("BitField")));
    assert!(!is_bitfield_type(&path("u8")));
    assert!(!is_bitfield_type(&TypeShape::Other));
}

#[test]
fn reader_calls_by_field_type() {
    assert_eq!(generate_read_call(&path("u32")), Ok(ReadCall::U32));
    assert_eq!(generate_read_call(&path("Pubkey")), Ok(ReadCall::Pubkey));
    assert_eq!(generate_read_call(&generic("Option", path("u64"))), Ok(ReadCall::Option(Parser::ToU64)));
    assert_eq!(
        generate_read_call(&generic("Vec", path("Range"))),
        Ok(ReadCall::VecFixed(Parser::Custom("Range".to_string())))
    );
    assert_eq!(
        generate_read_call(&TypeShape::Array { elem: Box::new(path("u8")) }),
        Ok(ReadCall::Array(Parser::ToU8))
    );
    assert_eq!(generate_read_call(&path("Config")), Ok(ReadCall::Custom));
    assert_eq!(generate_read_call(&TypeShape::Other), Ok(ReadCall::Custom));
    assert_eq!(
        generate_read_call(&TypeShape::Path { name: "Option".to_string(), args: TypeArgs::Bare }),
        Err(ReadCallError::OptionWithoutAngleBrackets)
    );
    assert_eq!(
        generate_read_call(&TypeShape::Path { name: "Vec".to_string(), args: TypeArgs::NoType }),
        Err(ReadCallError::VecWithoutTypeParameter)
    );
    assert_eq!(
        generate_read_call(&generic("Option", TypeShape::Other)),
        Err(ReadCallError::UnsupportedParserType)
    );
    assert_eq!(get_parser_function(&path("String")), Ok(Parser::ToString));
}

#[test]
fn writer_calls_by_field_type() {
    assert_eq!(generate_write_call(&path("u16")), WriteCall::Primitive(Primitive::U16));
    assert_eq!(generate_write_call(&path("String")), WriteCall::String);
    assert_eq!(
        generate_write_call(&generic("Option", path("bool"))),
        WriteCall::Option(OptionWrite::Primitive(Primitive::Bool))
    );
    assert_eq!(generate_write_call(&generic("Option", path("Pubkey"))), WriteCall::Option(OptionWrite::Pubkey));
    assert_eq!(generate_write_call(&path("Option")), WriteCall::Custom);
    assert_eq!(generate_option_write_call(&path("AssetItem")), OptionWrite::Custom);
    assert_eq!(generate_test_write_call(&path("u8")), TestWriteCall::Primitive(Primitive::U8));
    assert_eq!(generate_test_write_call(&path("Range")), TestWriteCall::OptionCustom);
    assert_eq!(
        generate_test_write_call(&generic("Option", path("u32"))),
        TestWriteCall::Option(TestOptionWrite::U32AsBytes)
    );
    assert_eq!(generate_test_option_write_call(&path("u64")), TestOptionWrite::LeBytes);
    assert_eq!(generate_test_option_write_call(&path("bool")), TestOptionWrite::BoolByte);
}

#[test]
fn account_lists_bind_account_infos() {
    let fields = vec![
        AccountListField { name: "sender".to_string(), ty: AccountFieldType::Reference(path("AccountInfo")) },
        AccountListField { name: "config".to_string(), ty: AccountFieldType::Reference(path("AccountInfo")) },
    ];
    assert_eq!(account_try_from_fields(&fields).ok(), Some(vec!["sender".to_string(), "config".to_string()]));
    let bad = vec![
        AccountListField { name: "a".to_string(), ty: AccountFieldType::Reference(path("AccountInfo")) },
        AccountListField { name: "b".to_string(), ty: AccountFieldType::Reference(path("Pubkey")) },
        AccountListField { name: "c".to_string(), ty: AccountFieldType::Value },
    ];
    assert_eq!(account_try_from_fields(&bad).err(), Some(TryFromError::NotAccountInfo));
    let value = vec![AccountListField { name: "c".to_string(), ty: AccountFieldType::Value }];
    assert_eq!(account_try_from_fields(&value).err(), Some(TryFromError::NotAReference));
}

#[test]
fn enum_wrapper_plan() {
    let variants = vec![
        EnumVariant { name: "First".to_string(), discriminant: None },
        EnumVariant { name: "Second".to_string(), discriminant: Some("5".to_string()) },
        EnumVariant { name: "Third".to_string(), discriminant: None },
    ];
    let plan = derive_enum_wrapper("Color", None, Some("derive (CodamaType , Default)"), &variants);
    assert_eq!(plan.wrapper_name, "ColorEnum");
    assert_eq!(plan.underlying_type, "u8");
    assert!(plan.derives_codama_type);
    assert_eq!(plan.arms.len(), 3);
    assert_eq!(plan.arms[0].0, VariantDiscriminant::Index(0));
    assert_eq!(plan.arms[1].0, VariantDiscriminant::Explicit("5".to_string()));
    // an implicit variant after an explicit one counts on from it
    assert_eq!(
        plan.arms[2].0,
        VariantDiscriminant::AfterExplicit { base: "5".to_string(), steps: 1 }
    );
    assert_eq!(plan.arms[2].1, "Third");
    let plan = derive_enum_wrapper("Mode", Some("u16"), None, &vec![]);
    assert_eq!(plan.underlying_type, "u16");
    assert!(!plan.derives_codama_type);
    assert_eq!(get_variant_discriminant(&variants[1], None), VariantDiscriminant::Explicit("5".to_string()));
    assert_eq!(get_variant_discriminant(&variants[0], None), VariantDiscriminant::Index(0));
    assert_eq!(
        get_variant_discriminant(&variants[0], Some(&VariantDiscriminant::Index(3))),
        VariantDiscriminant::Index(4)
    );
    assert_eq!(
        get_variant_discriminant(
            &variants[2],
            Some(&VariantDiscriminant::AfterExplicit { base: "5".to_string(), steps: 2 })
        ),
        VariantDiscriminant::AfterExplicit { base: "5".to_string(), steps: 3 }
    );
    let implicit = vec![
        EnumVariant { name: "A".to_string(), discriminant: None },
        EnumVariant { name: "B".to_string(), discriminant: None },
    ];
    let plan = derive_enum_wrapper("Two", None, None, &implicit);
    assert_eq!(plan.arms[1].0, VariantDiscriminant::Index(1));
}

fn named(name: &str, ty: TypeShape) -> NamedField {
    NamedField { name: name.to_string(), ty }
}

#[test]
fn codec_plans_follow_the_fields_in_order() {
    let fields = StructFields::Named(vec![
        named("start", path("u32")),
        named("owner", path("Pubkey")),
        named("label", generic("Option", path("String"))),
    ]);
    assert_eq!(
        zero_copy_serialize_plan(&fields),
        Ok(vec![
            WriteCall::Primitive(Primitive::U32),
            WriteCall::Pubkey,
            WriteCall::Option(OptionWrite::String),
        ])
    );
    assert_eq!(
        test_serialize_plan(&fields),
        Ok(vec![
            TestWriteCall::Primitive(Primitive::U32),
            TestWriteCall::Pubkey,
            TestWriteCall::Option(TestOptionWrite::StringBytes),
        ])
    );
    assert_eq!(
        zero_copy_deserialize_plan(&fields),
        Ok(vec![ReadCall::U32, ReadCall::Pubkey, ReadCall::Option(Parser::ToString)])
    );
}

#[test]
fn codec_plans_on_unit_and_tuple_structs() {
    assert_eq!(zero_copy_serialize_plan(&StructFields::Unit), Ok(vec![]));
    assert_eq!(test_serialize_plan(&StructFields::Unit), Ok(vec![]));
    assert_eq!(zero_copy_deserialize_plan(&StructFields::Unit), Ok(vec![]));
    assert_eq!(zero_copy_serialize_plan(&StructFields::Unnamed), Err(DeriveCodecError::UnnamedFields));
    assert_eq!(test_serialize_plan(&StructFields::Unnamed), Err(DeriveCodecError::UnnamedFields));
    assert_eq!(zero_copy_deserialize_plan(&StructFields::Unnamed), Err(DeriveCodecError::UnnamedFields));
}

#[test]
fn deserialize_plan_reports_the_first_unreadable_field() {
    let fields = StructFields::Named(vec![
        named("a", path("u8")),
        named("b", TypeShape::Path { name: "Vec".to_string(), args: TypeArgs::NoType }),
        named("c", TypeShape::Path { name: "Option".to_string(), args: TypeArgs::Bare }),
    ]);
    assert_eq!(
        zero_copy_deserialize_plan(&fields),
        Err(DeriveCodecError::Read(ReadCallError::VecWithoutTypeParameter))
    );
}

#[test]
fn suggestion_lowercases_beyond_ascii() {
    // the Kelvin sign lowercases to an ASCII `k`
    assert_eq!(suggest_correction("\u{212A}", &["x", "k"]), Some("k"));
    assert_eq!(suggest_correction("SIGNER", &["signer", "writable"]), Some("signer"));
    // with no options there is nothing to suggest, whatever the input
    assert_eq!(suggest_correction("é", &[]), None);
    assert_eq!(suggest_correction("owner", &["signer", "writable"]), None);
    assert_eq!(suggest_correction("writeable", &["signer", "writable"]), Some("writable"));
}
