use registry::codegen::{NamedField, StructFields, TypeArgs, TypeShape};
use registry::ts::{
    generate_enum_from_wrapper, generate_field_decoder, generate_field_encoder,
    generate_interface_and_codecs, generate_typescript_code, get_all_typescript_interfaces,
    has_enum_wrapper_derive, is_custom_struct, rust_type_to_ts_type, snake_to_camel,
    snake_to_pascal, DeriveAttr, TsDecl,
};

fn path(name: &str) -> TypeShape {
    TypeShape::Path { name: name.to_string(), args: TypeArgs::Bare }
}

#[test]
fn case_conversions() {
    assert_eq!(snake_to_camel("rotation_timeout"), "rotationTimeout");
    assert_eq!(snake_to_camel("a__b"), "aB");
    assert_eq!(snake_to_camel("_x"), "X");
    assert_eq!(snake_to_camel("plain"), "plain");
    assert_eq!(snake_to_pascal("is_open"), "IsOpen");
    assert_eq!(snake_to_pascal("already"), "Already");
}

#[test]
fn typescript_types() {
    assert_eq!(rust_type_to_ts_type(&path("Pubkey")), "Address");
    assert_eq!(rust_type_to_ts_type(&path("Uint32")), "number");
    assert_eq!(rust_type_to_ts_type(&path("Uint128")), "bigint");
    assert_eq!(rust_type_to_ts_type(&path("String64")), "string");
    assert_eq!(rust_type_to_ts_type(&path("BitField")), "boolean");
    assert_eq!(rust_type_to_ts_type(&path("Range")), "IRange");
    assert_eq!(rust_type_to_ts_type(&path("u64")), "u64");
    assert_eq!(rust_type_to_ts_type(&TypeShape::Other), "unknown");
    assert!(is_custom_struct("AssetItem"));
    assert!(!is_custom_struct("boolean"));
}

#[test]
fn field_codecs() {
    assert_eq!(generate_field_encoder(&path("Pubkey"), "admin"), "x?.admin || DEFAULT_ADDRESS");
    assert_eq!(
        generate_field_encoder(&path("BitField"), "isPaused"),
        "new TBitField({ flag: x?.isPaused || false }).getRaw()"
    );
    assert_eq!(generate_field_encoder(&path("Uint32"), "min"), "new TUint32(x?.min).getRaw()");
    assert_eq!(generate_field_encoder(&path("Range"), "r"), "encRange(x?.r)");
    assert_eq!(generate_field_decoder(&path("u8"), "bump"), "x?.bump || 0");
    assert_eq!(
        generate_field_decoder(&path("BitField"), "flags"),
        "new TBitField({ value: x?.flags || 0 }).get()"
    );
    assert_eq!(generate_field_decoder(&path("String16"), "s"), "new TString16(x?.s).get()");
    assert_eq!(generate_field_decoder(&path("AssetItem"), "fee"), "decAssetItem(x?.fee)");
    assert_eq!(generate_field_decoder(&TypeShape::Other, "data"), "x?.data");
}

#[test]
fn interface_of_a_struct() {
    let fields = StructFields::Named(vec![
        NamedField { name: "min".to_string(), ty: path("Uint32") },
        NamedField { name: "max_size".to_string(), ty: path("Uint32") },
    ]);
    let expected = "export interface IRange {\n  min: number;\n  maxSize: number;\n}\n\n\
export function encRange(x?: IRange): Range {\n  return {\n    min: new TUint32(x?.min).getRaw(),\n    maxSize: new TUint32(x?.maxSize).getRaw(),\n  };\n}\n\n\
export function decRange(x?: Range): IRange {\n  return {\n    min: new TUint32(x?.min).get(),\n    maxSize: new TUint32(x?.maxSize).get(),\n  };\n}\n\n";
    assert_eq!(generate_interface_and_codecs("Range", &fields), expected);
    let tuple = generate_interface_and_codecs("Uint16", &StructFields::Unnamed);
    assert!(tuple.starts_with("export interface IUint16 {\n}\n\n"));
}

#[test]
fn enum_bindings() {
    let text = generate_enum_from_wrapper("Status", &vec!["is_open".to_string(), "closed".to_string()]);
    assert_eq!(text, "export enum Status {\n  IsOpen,\n  Closed,\n}\n\n");
    let attrs = vec![DeriveAttr {
        is_derive_list: true,
        paths: Some(vec![Some("Default".to_string()), None, Some("EnumWrapper".to_string())]),
    }];
    assert!(has_enum_wrapper_derive(&attrs));
    assert!(!has_enum_wrapper_derive(&vec![DeriveAttr { is_derive_list: false, paths: Some(vec![Some("EnumWrapper".to_string())]) }]));
    let decl = TsDecl {
        name: "Status".to_string(),
        attrs,
        fields: StructFields::Unnamed,
        enum_fields: vec!["open".to_string()],
    };
    assert_eq!(generate_typescript_code(&decl), "export enum Status {\n  Open,\n}\n\n");
}

#[test]
fn all_bindings_cover_the_registry_types() {
    let all = get_all_typescript_interfaces();
    assert!(all.starts_with("export interface IBitField {\n}\n\n"));
    assert!(all.contains("export interface IConfig {\n  admin: Address;\n  isPaused: boolean;\n  rotationTimeout: number;\n  registrationFee: IAssetItem;\n  dataSizeRange: IRange;\n}\n\n"));
    assert!(all.contains("    data: x?.data,\n"));
    assert!(all.contains("export function decUserAccount(x?: UserAccount): IUserAccount {\n"));
    assert!(all.ends_with("  };\n}\n\n"));
}
