use oncrpc::idl::constant::{parse_num, ConstantDeclaration, Value};
use oncrpc::idl::datatype::{
    parse_primitive, DataType, Declaration, DeclarationType, DiscriminantType, Enum, Struct, Union,
};
use oncrpc::idl::definition::{Enumdef, Structdef, Typedef, Uniondef};
use oncrpc::idl::names::{str_eq, NameSet};
use oncrpc::idl::program::{Procedure, Program, RawCallType, Version};
use oncrpc::idl::specification::{ResolvedType, Specification};
use oncrpc::idl::util::{convert_primitve_type, TypeKind};

fn int32() -> DataType {
    DataType::Integer { length: 32, signed: true }
}

fn named(name: &str) -> DataType {
    DataType::TypeDef { name: name.to_string() }
}

fn decl(decl_type: DeclarationType, data_type: DataType, name: &str) -> Declaration {
    Declaration { decl_type, data_type, name: name.to_string(), needs_lifetime: false }
}

fn void_decl() -> Declaration {
    decl(DeclarationType::VoidDecl, DataType::Void, "")
}

fn names(list: &[&str]) -> NameSet {
    let mut set = NameSet::new();
    for name in list {
        set.insert(name.to_string());
    }
    set
}

fn structdef(name: &str, fields: Vec<Declaration>) -> Structdef {
    Structdef {
        name: name.to_string(),
        struct_body: Struct { fields },
        contains_vararray: false,
        requires_lifetime: false,
    }
}

fn uniondef(name: &str, discriminant: DiscriminantType, cases: Vec<(Value, Declaration)>) -> Uniondef {
    Uniondef {
        name: name.to_string(),
        union_body: Union { discriminant, cases, default: Box::new(void_decl()) },
        contains_vararray: false,
    }
}

fn typedef(name: &str, orig_type: DataType, decl_type: DeclarationType) -> Typedef {
    Typedef { name: name.to_string(), orig_type, decl_type, needs_lifetime: false }
}

#[test]
fn name_sets_hold_each_name_once() {
    let mut set = NameSet::new();
    assert!(!set.contains("a"));
    assert!(set.insert("a".to_string()));
    assert!(!set.insert("a".to_string()));
    assert!(set.insert("b".to_string()));
    assert!(set.contains("a") && set.contains("b") && !set.contains("c"));
    assert!(str_eq("abc", "abc") && !str_eq("abc", "abd") && !str_eq("ab", "abc"));
}

#[test]
fn struct_with_an_array_field_is_marked() {
    let vararrays = names(&["mem_data"]);
    let mut plain = structdef("P", vec![decl(DeclarationType::TypeNameDecl, int32(), "x")]);
    plain.contains_vararray = true;
    plain.update_contains_vararray(&vararrays);
    assert!(!plain.contains_vararray);

    let mut direct = structdef("D", vec![
        decl(DeclarationType::TypeNameDecl, int32(), "x"),
        decl(DeclarationType::VarlenArray, int32(), "items"),
    ]);
    direct.update_contains_vararray(&vararrays);
    assert!(direct.contains_vararray);

    let mut by_name = structdef("N", vec![decl(DeclarationType::TypeNameDecl, named("mem_data"), "m")]);
    by_name.update_contains_vararray(&vararrays);
    assert!(by_name.contains_vararray);

    let mut other_name = structdef("O", vec![decl(DeclarationType::TypeNameDecl, named("other"), "m")]);
    other_name.update_contains_vararray(&vararrays);
    assert!(!other_name.contains_vararray);
    assert_eq!(other_name.name, "O");
}

#[test]
fn sliced_copy_borrows_arrays() {
    let vararrays = names(&["mem_data"]);
    let def = structdef("S", vec![
        decl(DeclarationType::TypeNameDecl, int32(), "x"),
        decl(DeclarationType::VarlenArray, int32(), "items"),
        decl(DeclarationType::TypeNameDecl, named("mem_data"), "m"),
        decl(DeclarationType::TypeNameDecl, named("other"), "o"),
        decl(DeclarationType::FixedlenArray { length: Value::Numeric { val: 3 } }, int32(), "f"),
    ]);
    let sliced = def.sliced_copy(&vararrays);
    assert_eq!(sliced.name, "S");
    assert!(sliced.requires_lifetime);
    assert_eq!(sliced.contains_vararray, def.contains_vararray);
    let mut borrowed = decl(DeclarationType::TypeNameDecl, named("mem_data_sliced"), "m");
    borrowed.needs_lifetime = true;
    assert_eq!(sliced.struct_body.fields, vec![
        decl(DeclarationType::TypeNameDecl, int32(), "x"),
        decl(DeclarationType::ArraySlice, int32(), "items_sliced"),
        borrowed,
        decl(DeclarationType::TypeNameDecl, named("other"), "o"),
        decl(DeclarationType::FixedlenArray { length: Value::Numeric { val: 3 } }, int32(), "f"),
    ]);
    assert!(!def.requires_lifetime);
    assert_eq!(def.struct_body.fields[1].name, "items");
}

fn sample() -> Specification {
    Specification::new(
        vec![
            typedef("u_int_32", DataType::Integer { length: 32, signed: false }, DeclarationType::TypeNameDecl),
            typedef("mem_data", named("opaque"), DeclarationType::VarlenArray),
        ],
        vec![Enumdef {
            name: "Color".to_string(),
            enum_body: Enum { cases: vec![("RED".to_string(), Value::Numeric { val: 1 })] },
        }],
        vec![
            structdef("Plain", vec![decl(DeclarationType::TypeNameDecl, int32(), "x")]),
            structdef("Holder", vec![decl(DeclarationType::TypeNameDecl, named("mem_data"), "m")]),
        ],
        vec![
            uniondef("Res", DiscriminantType::Int, vec![
                (Value::Numeric { val: 0 }, decl(DeclarationType::TypeNameDecl, named("mem_data"), "data")),
            ]),
            uniondef("Small", DiscriminantType::Int, vec![
                (Value::Numeric { val: 0 }, decl(DeclarationType::TypeNameDecl, int32(), "x")),
            ]),
            uniondef("URes", DiscriminantType::UnsignedInt, vec![
                (Value::Numeric { val: 0 }, decl(DeclarationType::VarlenArray, int32(), "xs")),
            ]),
        ],
        vec![ConstantDeclaration { name: "CON".to_string(), value: Value::Numeric { val: 23 } }],
    )
}

#[test]
fn specification_gains_sliced_definitions() {
    let mut spec = sample();
    spec.update_contains_vararray();

    let typedefs: Vec<&str> = spec.typedefs().iter().map(|t| t.name.as_str()).collect();
    assert_eq!(typedefs, vec!["u_int_32", "mem_data", "mem_data_sliced"]);
    let sliced = &spec.typedefs()[2];
    assert_eq!(sliced.decl_type, DeclarationType::ArraySlice);
    assert!(sliced.needs_lifetime);
    assert_eq!(sliced.orig_type, named("opaque"));

    let structs: Vec<(&str, bool, bool)> =
        spec.structs().iter().map(|s| (s.name.as_str(), s.contains_vararray, s.requires_lifetime)).collect();
    assert_eq!(structs, vec![("Plain", false, false), ("Holder", true, false), ("Holder", true, true)]);
    assert_eq!(spec.structs()[2].struct_body.fields[0].data_type, named("mem_data_sliced"));

    let unions: Vec<(&str, bool)> = spec.unions().iter().map(|u| (u.name.as_str(), u.contains_vararray)).collect();
    assert_eq!(unions, vec![("Res", true), ("Small", false), ("URes", true), ("Res", true), ("URes", true)]);
    assert_eq!(spec.unions()[4].union_body.cases[0].1.decl_type, DeclarationType::ArraySlice);
    assert_eq!(spec.unions()[4].union_body.cases[0].1.name, "xs_sliced");

    assert!(spec.union_typedefs_with_vararray.contains("Res"));
    assert!(spec.union_typedefs_with_vararray.contains("URes"));
    assert!(!spec.union_typedefs_with_vararray.contains("Small"));
    assert_eq!(spec.enums().len(), 1);
    assert_eq!(spec.constants().len(), 1);
}

#[test]
fn names_resolve_to_structs_first() {
    let spec = Specification::new(
        vec![],
        vec![
            Enumdef { name: "Both".to_string(), enum_body: Enum { cases: vec![] } },
            Enumdef { name: "OnlyEnum".to_string(), enum_body: Enum { cases: vec![] } },
        ],
        vec![structdef("Both", vec![]), structdef("S", vec![decl(DeclarationType::TypeNameDecl, int32(), "first")]), structdef("S", vec![])],
        vec![uniondef("Both", DiscriminantType::Int, vec![]), uniondef("U", DiscriminantType::Boolean, vec![])],
        vec![],
    );
    assert!(matches!(spec.get_type_specification("Both"), Some(ResolvedType::Struct(_))));
    assert!(matches!(spec.get_type_specification("U"), Some(ResolvedType::Union(_))));
    assert!(matches!(spec.get_type_specification("OnlyEnum"), Some(ResolvedType::Enum(_))));
    assert!(spec.get_type_specification("Missing").is_none());
    match spec.get_type_specification("S") {
        Some(ResolvedType::Struct(def)) => assert_eq!(def.struct_body.fields.len(), 1),
        other => panic!("unexpected {:?}", other),
    }
}

fn procedure(name: &str, return_type: DataType) -> Procedure {
    Procedure {
        name: name.to_string(),
        return_type,
        args: vec![int32(), DataType::Float { length: 32 }],
        num: Value::Numeric { val: 1 },
        slice_call_target_type: None,
    }
}

#[test]
fn procedures_that_return_array_unions_gain_raw_variants() {
    let mut spec = sample();
    spec.update_contains_vararray();
    let mut version = Version {
        version_number: 5,
        procedures: vec![
            procedure("GET", named("Res")),
            procedure("SMALL", named("Small")),
            procedure("UGET", named("URes")),
            procedure("HOLD", named("Holder")),
            procedure("INT", int32()),
            procedure("GET2", named("Res")),
        ],
    };
    version.create_sliced_variants(&spec);
    let got: Vec<&str> = version.procedures.iter().map(|p| p.name.as_str()).collect();
    assert_eq!(got, vec!["GET", "SMALL", "UGET", "HOLD", "INT", "GET2", "GET_raw", "GET2_raw"]);
    let raw = &version.procedures[6];
    assert_eq!(raw.return_type, DataType::Void);
    assert_eq!(raw.slice_call_target_type, Some(RawCallType::UnionI32));
    assert_eq!(raw.args, vec![int32(), DataType::Float { length: 32 }]);
    assert_eq!(raw.num, Value::Numeric { val: 1 });
    assert_eq!(version.procedures[0].slice_call_target_type, None);
    assert_eq!(version.version_number, 5);
    let program = Program { program_number: 10, versions: vec![version] };
    assert_eq!(program.versions.len(), 1);
}

#[test]
fn unmarked_specification_gives_no_raw_variants() {
    let spec = sample();
    let mut version = Version { version_number: 1, procedures: vec![procedure("GET", named("Res"))] };
    version.create_sliced_variants(&spec);
    assert_eq!(version.procedures.len(), 1);
}

#[test]
fn primitive_types_are_translated() {
    assert_eq!(convert_primitve_type("unsigned int"), Some("u32"));
    assert_eq!(convert_primitve_type("int"), Some("i32"));
    assert_eq!(convert_primitve_type("char"), Some("i8"));
    assert_eq!(convert_primitve_type("unsigned long"), Some("u64"));
    assert_eq!(convert_primitve_type("double"), Some("f64"));
    assert_eq!(convert_primitve_type("float"), Some("f32"));
    assert_eq!(convert_primitve_type("string<>"), Some("String"));
    assert_eq!(convert_primitve_type("opaque"), Some("u8"));
    assert_eq!(convert_primitve_type("signed short"), Some("i16"));
    assert_eq!(convert_primitve_type("MyCustom23Type"), None);
    assert_eq!(convert_primitve_type(""), None);
    assert_ne!(TypeKind::FixedArray, TypeKind::VarlenArray);
}

#[test]
fn clones_are_deep() {
    let def = uniondef("U", DiscriminantType::Enum { name: "E".to_string() }, vec![
        (Value::Named { name: "X".to_string() }, decl(DeclarationType::Optional, DataType::Struct {
            def: Struct { fields: vec![decl(DeclarationType::TypeNameDecl, DataType::Boolean, "b")] },
        }, "s")),
    ]);
    assert_eq!(def.clone(), def);
    let t = typedef("T", DataType::Enum { def: Enum { cases: vec![("A".to_string(), Value::Numeric { val: 1 })] } }, DeclarationType::TypeNameDecl);
    assert_eq!(t.clone(), t);
}

#[test]
fn parse_constant_decimal() {
    let parsed = ConstantDeclaration {
        name: "CON".to_string(),
        value: Value::Numeric { val: parse_num("23").unwrap() },
    };
    let coded = ConstantDeclaration { name: "CON".to_string(), value: Value::Numeric { val: 23 } };
    assert!(parsed == coded, "Constant parsing wrong");
}

#[test]
fn parse_constant_hexadecimal() {
    let parsed = ConstantDeclaration {
        name: "CON2".to_string(),
        value: Value::Numeric { val: parse_num("0x2889").unwrap() },
    };
    let coded = ConstantDeclaration { name: "CON2".to_string(), value: Value::Numeric { val: 10377 } };
    assert!(parsed == coded, "Constant parsing wrong");
}

#[test]
fn parse_constant_negative_decimal() {
    let parsed = ConstantDeclaration {
        name: "CON".to_string(),
        value: Value::Numeric { val: parse_num("-68").unwrap() },
    };
    let coded = ConstantDeclaration { name: "CON".to_string(), value: Value::Numeric { val: -68 } };
    assert!(parsed == coded, "Constant parsing wrong");
}

#[test]
fn parse_constant_octal() {
    let parsed = ConstantDeclaration {
        name: "CON".to_string(),
        value: Value::Numeric { val: parse_num("047").unwrap() },
    };
    let coded = ConstantDeclaration { name: "CON".to_string(), value: Value::Numeric { val: 39 } };
    assert!(parsed == coded, "Constant parsing wrong");
}

#[test]
fn constants_are_read_as_the_standard_library_reads_them() {
    fn expected(text: &str) -> Option<i64> {
        if text.len() >= 3 && &text[0..2] == "0x" {
            i64::from_str_radix(&text[2..], 16).ok()
        } else if text.len() >= 2 && &text[0..1] == "0" {
            i64::from_str_radix(&text[1..], 8).ok()
        } else {
            text.parse::<i64>().ok()
        }
    }
    for text in [
        "0", "1", "23", "-68", "+7", "047", "0x2889", "0x24", "0xa", "0XA", "0xAbCd", "0x", "00", "08",
        "0x-5", "0-7", "", "+", "-", "--1", "1a", "9223372036854775807", "9223372036854775808",
        "-9223372036854775808", "-9223372036854775809", "0x7fffffffffffffff", "0x8000000000000000",
        "0x-8000000000000000", "0777777777777777777777", "01000000000000000000000",
        "000000000000000000000000000000000000000000012", "12 ", " 12", "1_000", "0xg",
    ] {
        assert_eq!(parse_num(text), expected(text), "{:?}", text);
    }
    assert_eq!(parse_num("\u{e9}1"), None);
    assert_eq!(parse_num("0x\u{e9}"), None);
}

#[test]
fn datatype_parse_type_spec_primitive_1() {
    let data_generated = parse_primitive("unsigned int").unwrap();
    let data_coded = DataType::Integer { length: 32, signed: false };
    assert!(data_generated == data_coded, "Datatype parsed wrong");
}

#[test]
fn datatype_parse_type_spec_primitive_2() {
    let data_generated = parse_primitive("float").unwrap();
    let data_coded = DataType::Float { length: 32 };
    assert!(data_generated == data_coded, "Datatype parsed wrong");
}

#[test]
fn datatype_parse_type_spec_primitive_3() {
    let data_generated = parse_primitive("bool").unwrap();
    assert!(data_generated == DataType::Boolean, "Datatype parsed wrong");
}

#[test]
fn primitive_names_are_read() {
    assert_eq!(parse_primitive("int"), Some(DataType::Integer { length: 32, signed: true }));
    assert_eq!(parse_primitive("unsigned hyper"), Some(DataType::Integer { length: 64, signed: false }));
    assert_eq!(parse_primitive("hyper"), Some(DataType::Integer { length: 64, signed: true }));
    assert_eq!(parse_primitive("double"), Some(DataType::Float { length: 64 }));
    assert_eq!(parse_primitive("quadruple"), Some(DataType::Float { length: 128 }));
    assert_eq!(parse_primitive("string"), Some(DataType::String));
    assert_eq!(parse_primitive("string<>"), Some(DataType::String));
    assert_eq!(parse_primitive("MyCustom23Type"), None);
    assert_eq!(parse_primitive("void"), None);
}
