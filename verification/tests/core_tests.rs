use dezzy::expr::{ComparisonOp, Expr, IndexExpr, Literal};
use dezzy::expr_parser::parse_expr;
use dezzy::error::ParseError;
use dezzy::hir::{
    Endianness, HirEnum, HirEnumValue, HirField, HirFormat, HirPrimitiveType, HirStruct, HirType,
    HirTypeDef,
};
use dezzy::lir::LirOperation;
use dezzy::pipeline::{Pipeline, PipelineError};
use dezzy::raw::{RawEnum, RawField, RawFormat, RawTypeDef, RawValue};
use dezzy::parser::{analyze_format, parse_array_type, parse_endianness, parse_type};
use dezzy::topo_sort::{TopoSortError, kahn_sort, topological_sort};

fn field(name: &str, field_type: HirType) -> HirField {
    HirField { name: name.to_string(), doc: None, field_type, assertion: None }
}

fn strukt(name: &str, fields: Vec<HirField>) -> HirTypeDef {
    HirTypeDef::Struct(HirStruct { name: name.to_string(), doc: None, fields })
}

fn format_of(name: &str, endianness: Endianness, enums: Vec<HirEnum>, types: Vec<HirTypeDef>)
    -> HirFormat {
    HirFormat { name: name.to_string(), version: None, endianness, enums, types }
}

fn raw_field(name: &str, ty: &str) -> RawField {
    RawField {
        name: name.to_string(),
        field_type: ty.to_string(),
        doc: None,
        until: None,
        assertion: None,
        skip: None,
        padding: None,
        align: None,
    }
}

#[test]
fn test_kahn_sort_simple() {
    let deps: Vec<(String, Vec<String>)> = vec![
        ("A".to_string(), vec![]),
        ("B".to_string(), vec!["A".to_string()]),
        ("C".to_string(), vec!["B".to_string()]),
    ];

    let result = kahn_sort(&deps).unwrap();

    assert_eq!(result.len(), 3);
    let a_pos = result.iter().position(|x| x == "A").unwrap();
    let b_pos = result.iter().position(|x| x == "B").unwrap();
    let c_pos = result.iter().position(|x| x == "C").unwrap();

    assert!(a_pos < b_pos);
    assert!(b_pos < c_pos);
}

#[test]
fn test_kahn_sort_circular() {
    let deps: Vec<(String, Vec<String>)> = vec![
        ("A".to_string(), vec!["B".to_string()]),
        ("B".to_string(), vec!["A".to_string()]),
    ];

    let result = kahn_sort(&deps);
    assert!(result.is_err());
}

#[test]
fn test_parse_simple_comparison() {
    let expr = parse_expr("x equals 5").unwrap();
    match expr {
        Expr::Comparison { left, op, right } => {
            assert!(matches!(*left, Expr::Variable(_)));
            assert_eq!(op, ComparisonOp::Equals);
            assert!(matches!(*right, Expr::Literal(Literal::Integer(5))));
        }
        _ => panic!("Expected comparison"),
    }
}

#[test]
fn test_parse_field_access() {
    let expr = parse_expr("chunk.type equals 'IEND'").unwrap();
    match expr {
        Expr::Comparison { left, op, right } => {
            assert!(matches!(*left, Expr::FieldAccess { .. }));
            assert_eq!(op, ComparisonOp::Equals);
            assert!(matches!(*right, Expr::Literal(Literal::String(_))));
        }
        _ => panic!("Expected comparison"),
    }
}

#[test]
fn test_parse_array_index() {
    let expr = parse_expr("chunks[-1].chunk_type equals [73, 69, 78, 68]").unwrap();
    match expr {
        Expr::Comparison { left: _, op, right } => {
            assert_eq!(op, ComparisonOp::Equals);
            assert!(matches!(*right, Expr::Literal(Literal::ByteArray(_))));
        }
        _ => panic!("Expected comparison"),
    }
}

#[test]
fn test_parse_array_type() {
    let result = parse_array_type("u8[16]");
    assert!(result.is_ok());
    assert_eq!(result.unwrap(), Some(("u8".to_string(), "16".to_string())));

    let result2 = parse_array_type("u8[length]");
    assert!(result2.is_ok());
    assert_eq!(result2.unwrap(), Some(("u8".to_string(), "length".to_string())));
}

#[test]
fn test_parse_expr_full_ast() {
    let expr = parse_expr("chunks[-1].chunk_type equals [73, 69, 78, 68]").unwrap();
    let expected = Expr::Comparison {
        left: Box::new(Expr::FieldAccess {
            base: Box::new(Expr::ArrayIndex {
                array: Box::new(Expr::Variable("chunks".to_string())),
                index: IndexExpr::Negative(1),
            }),
            field: "chunk_type".to_string(),
        }),
        op: ComparisonOp::Equals,
        right: Box::new(Expr::Literal(Literal::ByteArray(vec![73, 69, 78, 68]))),
    };
    assert_eq!(expr, expected);
}

#[test]
fn test_parse_expr_hex_and_logical() {
    let expr = parse_expr("packet.flags equals 0x1F AND packet.length less-than 1500").unwrap();
    match expr {
        Expr::Logical { left, op, right } => {
            assert_eq!(op, dezzy::expr::LogicalOp::And);
            match *left {
                Expr::Comparison { right: r, .. } => {
                    assert_eq!(*r, Expr::Literal(Literal::Integer(31)));
                }
                _ => panic!("Expected comparison"),
            }
            assert!(matches!(*right, Expr::Comparison { .. }));
        }
        _ => panic!("Expected logical"),
    }
}

#[test]
fn test_parse_expr_errors() {
    match parse_expr("") {
        Err(ParseError::InvalidValue { field, message }) => {
            assert_eq!(field, "expression");
            assert_eq!(message, "Unexpected end of expression");
        }
        other => panic!("unexpected: {:?}", other),
    }
    match parse_expr("x equals 0x") {
        Err(ParseError::InvalidValue { message, .. }) => {
            assert_eq!(message, "Invalid hex literal: 0x");
        }
        other => panic!("unexpected: {:?}", other),
    }
    match parse_expr("a equals [1, b]") {
        Err(ParseError::InvalidValue { message, .. }) => {
            assert_eq!(message, "Expected integer in byte array");
        }
        other => panic!("unexpected: {:?}", other),
    }
    match parse_expr("a equals [1, 2") {
        Err(ParseError::InvalidValue { message, .. }) => {
            assert_eq!(message, "Expected closing bracket");
        }
        other => panic!("unexpected: {:?}", other),
    }
}

#[test]
fn test_simple_header_lowering() {
    let hir = format_of(
        "TestFormat",
        Endianness::Little,
        vec![],
        vec![strukt("Header", vec![field("magic", HirType::U32), field("version", HirType::U16)])],
    );
    let mut pipeline = Pipeline::new();
    let lir = pipeline.lower(hir).unwrap();
    assert_eq!(lir.name, "TestFormat");
    assert_eq!(lir.types.len(), 1);
    let t = &lir.types[0];
    assert_eq!(t.name, "Header");
    assert_eq!(t.read_result, 2);
    assert_eq!(t.write_param, 3);
    let e = Endianness::Little;
    assert_eq!(
        t.operations,
        vec![
            LirOperation::ReadU32 { dest: 0, endianness: e },
            LirOperation::ReadU16 { dest: 1, endianness: e },
            LirOperation::CreateStruct {
                dest: 2,
                struct_name: "Header".to_string(),
                fields: vec![0, 1],
            },
            LirOperation::AccessField { dest: 4, struct_var: 3, field_index: 0 },
            LirOperation::WriteU32 { src: 4, endianness: e },
            LirOperation::AccessField { dest: 5, struct_var: 3, field_index: 1 },
            LirOperation::WriteU16 { src: 5, endianness: e },
        ]
    );
}

#[test]
fn test_fixed_array_lowering() {
    let hir = format_of(
        "ArrayTest",
        Endianness::Little,
        vec![],
        vec![strukt(
            "Block",
            vec![field(
                "data",
                HirType::Array { element_type: Box::new(HirType::U8), size: 16 },
            )],
        )],
    );
    let mut pipeline = Pipeline::new();
    let lir = pipeline.lower(hir).unwrap();
    let t = &lir.types[0];
    assert_eq!(
        t.operations[0],
        LirOperation::ReadArray {
            dest: 0,
            element_op: Box::new(LirOperation::ReadU8 { dest: 1 }),
            count: 16,
        }
    );
    match &t.operations[3] {
        LirOperation::WriteArray { element_op, count, .. } => {
            assert_eq!(*count, 16);
            assert!(matches!(**element_op, LirOperation::WriteU8 { .. }));
        }
        other => panic!("unexpected: {:?}", other),
    }
}

#[test]
fn test_dynamic_array_lowering() {
    let hir = format_of(
        "Packets",
        Endianness::Little,
        vec![],
        vec![strukt(
            "Packet",
            vec![
                field("len", HirType::U16),
                field(
                    "payload",
                    HirType::DynamicArray {
                        element_type: Box::new(HirType::U8),
                        size_field: "len".to_string(),
                    },
                ),
            ],
        )],
    );
    let mut pipeline = Pipeline::new();
    let lir = pipeline.lower(hir).unwrap();
    let t = &lir.types[0];
    match &t.operations[1] {
        LirOperation::ReadDynamicArray { dest, size_var, .. } => {
            assert_eq!(*dest, 1);
            assert_eq!(*size_var, 0);
        }
        other => panic!("unexpected: {:?}", other),
    }
    let wd = t
        .operations
        .iter()
        .find(|op| matches!(op, LirOperation::WriteDynamicArray { .. }))
        .unwrap();
    match wd {
        LirOperation::WriteDynamicArray { size_var, size_field_name, .. } => {
            assert_eq!(*size_var, 0);
            assert_eq!(size_field_name, "len");
        }
        other => panic!("unexpected: {:?}", other),
    }
}

fn collect_dests(op: &LirOperation, out: &mut Vec<usize>) {
    match op {
        LirOperation::ReadU8 { dest }
        | LirOperation::ReadI8 { dest }
        | LirOperation::ReadFixedString { dest, .. }
        | LirOperation::ReadNullTerminatedString { dest }
        | LirOperation::ReadLengthPrefixedString { dest, .. }
        | LirOperation::ReadStruct { dest, .. }
        | LirOperation::CreateStruct { dest, .. }
        | LirOperation::AccessField { dest, .. } => out.push(*dest),
        LirOperation::ReadU16 { dest, .. }
        | LirOperation::ReadU32 { dest, .. }
        | LirOperation::ReadU64 { dest, .. }
        | LirOperation::ReadI16 { dest, .. }
        | LirOperation::ReadI32 { dest, .. }
        | LirOperation::ReadI64 { dest, .. } => out.push(*dest),
        LirOperation::ReadArray { dest, element_op, .. }
        | LirOperation::ReadDynamicArray { dest, element_op, .. }
        | LirOperation::ReadUntilEofArray { dest, element_op }
        | LirOperation::ReadUntilConditionArray { dest, element_op, .. } => {
            out.push(*dest);
            collect_dests(element_op, out);
        }
        _ => {}
    }
}

#[test]
fn test_nested_dummy_destinations_unique() {
    let hir = format_of(
        "Nested",
        Endianness::Little,
        vec![],
        vec![
            strukt(
                "Grid",
                vec![
                    field("rows", HirType::U16),
                    field(
                        "cells",
                        HirType::Array {
                            element_type: Box::new(HirType::DynamicArray {
                                element_type: Box::new(HirType::U8),
                                size_field: "rows".to_string(),
                            }),
                            size: 4,
                        },
                    ),
                ],
            ),
            strukt("Tail", vec![field("crc", HirType::U32)]),
        ],
    );
    let mut pipeline = Pipeline::new();
    let lir = pipeline.lower(hir).unwrap();
    let mut dests: Vec<usize> = Vec::new();
    for t in &lir.types {
        for op in &t.operations {
            collect_dests(op, &mut dests);
        }
    }
    assert!(dests.len() >= 10);
    for i in 0..dests.len() {
        for j in (i + 1)..dests.len() {
            assert_ne!(dests[i], dests[j]);
        }
    }
}

#[test]
fn test_unknown_size_field_is_rejected() {
    let hir = format_of(
        "Bad",
        Endianness::Little,
        vec![],
        vec![strukt(
            "Packet",
            vec![field(
                "payload",
                HirType::DynamicArray {
                    element_type: Box::new(HirType::U8),
                    size_field: "len".to_string(),
                },
            )],
        )],
    );
    let mut pipeline = Pipeline::new();
    match pipeline.lower(hir) {
        Err(PipelineError::UnknownType(msg)) => {
            assert_eq!(msg, "Size field 'len' not found");
        }
        other => panic!("unexpected: {:?}", other),
    }
}

#[test]
fn test_size_field_must_come_earlier() {
    // a field may not act as its own size reference
    let hir = format_of(
        "Bad2",
        Endianness::Little,
        vec![],
        vec![strukt(
            "Packet",
            vec![field(
                "payload",
                HirType::DynamicArray {
                    element_type: Box::new(HirType::U8),
                    size_field: "payload".to_string(),
                },
            )],
        )],
    );
    let mut pipeline = Pipeline::new();
    assert!(matches!(pipeline.lower(hir), Err(PipelineError::UnknownType(_))));
}

#[test]
fn test_enum_field_lowering() {
    let kind = HirEnum {
        name: "Kind".to_string(),
        doc: None,
        underlying_type: HirPrimitiveType::U8,
        values: vec![
            HirEnumValue { name: "A".to_string(), value: 0, doc: None },
            HirEnumValue { name: "B".to_string(), value: 1, doc: None },
        ],
    };
    let hir = format_of(
        "Tagged",
        Endianness::Little,
        vec![kind],
        vec![strukt("Tag", vec![field("k", HirType::Enum("Kind".to_string()))])],
    );
    let mut pipeline = Pipeline::new();
    let lir = pipeline.lower(hir).unwrap();
    let t = &lir.types[0];
    assert_eq!(t.operations[0], LirOperation::ReadU8 { dest: 0 });
}

#[test]
fn test_big_endian_propagation() {
    let hir = format_of(
        "BigFmt",
        Endianness::Big,
        vec![],
        vec![strukt("H", vec![field("a", HirType::U32), field("b", HirType::I64)])],
    );
    let mut pipeline = Pipeline::new();
    let lir = pipeline.lower(hir).unwrap();
    for op in &lir.types[0].operations {
        match op {
            LirOperation::ReadU32 { endianness, .. }
            | LirOperation::ReadI64 { endianness, .. }
            | LirOperation::WriteU32 { endianness, .. }
            | LirOperation::WriteI64 { endianness, .. } => {
                assert_eq!(*endianness, Endianness::Big);
            }
            _ => {}
        }
    }
}

#[test]
fn test_topological_sort_reorders() {
    let hir = format_of(
        "Nested",
        Endianness::Little,
        vec![],
        vec![
            strukt("B", vec![field("a", HirType::UserDefined("A".to_string()))]),
            strukt("A", vec![field("x", HirType::U32)]),
        ],
    );
    let mut pipeline = Pipeline::new();
    let mut lir = pipeline.lower(hir).unwrap();
    topological_sort(&mut lir).unwrap();
    assert_eq!(lir.types.len(), 2);
    assert_eq!(lir.types[0].name, "A");
    assert_eq!(lir.types[1].name, "B");
}

#[test]
fn test_topological_sort_detects_cycle() {
    let hir = format_of(
        "Cyclic",
        Endianness::Little,
        vec![],
        vec![
            strukt("A", vec![field("b", HirType::UserDefined("B".to_string()))]),
            strukt("B", vec![field("a", HirType::UserDefined("A".to_string()))]),
        ],
    );
    let mut pipeline = Pipeline::new();
    let mut lir = pipeline.lower(hir).unwrap();
    match topological_sort(&mut lir) {
        Err(TopoSortError::CircularDependency(names)) => {
            assert!(names.contains("A"));
            assert!(names.contains("B"));
            assert!(names.contains(", "));
        }
        other => panic!("unexpected: {:?}", other),
    }
}

#[test]
fn test_analyze_simple_format() {
    let doc = RawFormat {
        name: "TestFormat".to_string(),
        version: Some("1.0".to_string()),
        endianness: Some("little".to_string()),
        enums: vec![],
        types: vec![RawTypeDef {
            name: "Header".to_string(),
            type_kind: "struct".to_string(),
            doc: None,
            fields: Some(vec![raw_field("magic", "u32"), raw_field("version", "u16")]),
        }],
    };
    let format = analyze_format(&doc).unwrap();
    assert_eq!(format.name, "TestFormat");
    assert_eq!(format.version, Some("1.0".to_string()));
    assert_eq!(format.endianness, Endianness::Little);
    assert_eq!(format.types.len(), 1);
    let HirTypeDef::Struct(s) = &format.types[0];
    assert_eq!(s.name, "Header");
    assert_eq!(s.fields.len(), 2);
    assert_eq!(s.fields[0].field_type, HirType::U32);
    assert_eq!(s.fields[1].field_type, HirType::U16);
}

#[test]
fn test_analyze_type_table() {
    let mk = |ty: &str, until: Option<&str>| {
        let mut f = raw_field("f", ty);
        f.until = until.map(|u| u.to_string());
        f
    };
    let doc = RawFormat {
        name: "T".to_string(),
        version: None,
        endianness: None,
        enums: vec![RawEnum {
            name: "Kind".to_string(),
            underlying_type: "u8".to_string(),
            doc: None,
            values: vec![(RawValue::Text("A".to_string()), RawValue::Int(0))],
        }],
        types: vec![
            RawTypeDef {
                name: "Other".to_string(),
                type_kind: "struct".to_string(),
                doc: None,
                fields: Some(vec![raw_field("x", "u8")]),
            },
            RawTypeDef {
                name: "S".to_string(),
                type_kind: "struct".to_string(),
                doc: None,
                fields: Some(vec![
                    mk("cstr", None),
                    mk("str(f0)", None),
                    mk("str[8]", None),
                    mk("u8[16]", None),
                    mk("u16", None),
                    mk("u8[f4]", None),
                    mk("u8[]", Some("eof")),
                    mk("Kind", None),
                    mk("Other", None),
                ]),
            },
        ],
    };
    let format = analyze_format(&doc).unwrap();
    let HirTypeDef::Struct(s) = &format.types[1];
    assert_eq!(s.fields[0].field_type, HirType::NullTerminatedString);
    assert_eq!(
        s.fields[1].field_type,
        HirType::LengthPrefixedString { length_field: "f0".to_string() }
    );
    assert_eq!(s.fields[2].field_type, HirType::FixedString { size: 8 });
    assert_eq!(
        s.fields[3].field_type,
        HirType::Array { element_type: Box::new(HirType::U8), size: 16 }
    );
    assert_eq!(s.fields[4].field_type, HirType::U16);
    assert_eq!(
        s.fields[5].field_type,
        HirType::DynamicArray {
            element_type: Box::new(HirType::U8),
            size_field: "f4".to_string()
        }
    );
    assert_eq!(
        s.fields[6].field_type,
        HirType::UntilEofArray { element_type: Box::new(HirType::U8) }
    );
    assert_eq!(s.fields[7].field_type, HirType::Enum("Kind".to_string()));
    assert_eq!(s.fields[8].field_type, HirType::UserDefined("Other".to_string()));
}

#[test]
fn test_analyze_errors() {
    // duplicate type name
    let dup = RawFormat {
        name: "D".to_string(),
        version: None,
        endianness: None,
        enums: vec![],
        types: vec![
            RawTypeDef {
                name: "A".to_string(),
                type_kind: "struct".to_string(),
                doc: None,
                fields: Some(vec![]),
            },
            RawTypeDef {
                name: "A".to_string(),
                type_kind: "struct".to_string(),
                doc: None,
                fields: Some(vec![]),
            },
        ],
    };
    assert!(matches!(analyze_format(&dup), Err(ParseError::DuplicateType(n)) if n == "A"));

    // unknown field type
    let unk = RawFormat {
        name: "U".to_string(),
        version: None,
        endianness: None,
        enums: vec![],
        types: vec![RawTypeDef {
            name: "A".to_string(),
            type_kind: "struct".to_string(),
            doc: None,
            fields: Some(vec![raw_field("x", "mystery")]),
        }],
    };
    assert!(matches!(analyze_format(&unk), Err(ParseError::UnknownType(n)) if n == "mystery"));

    // bad endianness
    assert!(matches!(
        parse_endianness(Some(&"middle".to_string())),
        Err(ParseError::InvalidValue { field, .. }) if field == "endianness"
    ));

    // missing fields entry
    let missing = RawFormat {
        name: "M".to_string(),
        version: None,
        endianness: None,
        enums: vec![],
        types: vec![RawTypeDef {
            name: "A".to_string(),
            type_kind: "struct".to_string(),
            doc: None,
            fields: None,
        }],
    };
    assert!(matches!(analyze_format(&missing), Err(ParseError::MissingField(n)) if n == "fields"));

    // enum values must be integers
    let bad_enum = RawFormat {
        name: "E".to_string(),
        version: None,
        endianness: None,
        enums: vec![RawEnum {
            name: "K".to_string(),
            underlying_type: "u8".to_string(),
            doc: None,
            values: vec![(
                RawValue::Text("A".to_string()),
                RawValue::Text("x".to_string()),
            )],
        }],
        types: vec![],
    };
    assert!(matches!(analyze_format(&bad_enum), Err(ParseError::InvalidValue { .. })));

    // the empty-size array needs an until clause
    let no_until = RawFormat {
        name: "N".to_string(),
        version: None,
        endianness: None,
        enums: vec![],
        types: vec![RawTypeDef {
            name: "A".to_string(),
            type_kind: "struct".to_string(),
            doc: None,
            fields: Some(vec![raw_field("x", "u8[]")]),
        }],
    };
    assert!(matches!(analyze_format(&no_until), Err(ParseError::InvalidValue { field, .. }) if field == "type"));

    // positioning directives are reserved
    let mut skip_field = raw_field("x", "u8");
    skip_field.skip = Some("y".to_string());
    let with_skip = RawFormat {
        name: "Sk".to_string(),
        version: None,
        endianness: None,
        enums: vec![],
        types: vec![RawTypeDef {
            name: "A".to_string(),
            type_kind: "struct".to_string(),
            doc: None,
            fields: Some(vec![skip_field]),
        }],
    };
    assert!(matches!(analyze_format(&with_skip), Err(ParseError::InvalidValue { field, .. }) if field == "x"));
}

#[test]
fn test_analyze_assertions() {
    let mut f = raw_field("magic", "u32");
    f.assertion = Some(RawValue::Entries(vec![(
        RawValue::Text("equals".to_string()),
        RawValue::Int(42),
    )]));
    let mut g = raw_field("count", "u8");
    g.assertion = Some(RawValue::Entries(vec![(
        RawValue::Text("range".to_string()),
        RawValue::List(vec![RawValue::Int(1), RawValue::Int(9)]),
    )]));
    let doc = RawFormat {
        name: "A".to_string(),
        version: None,
        endianness: None,
        enums: vec![],
        types: vec![RawTypeDef {
            name: "S".to_string(),
            type_kind: "struct".to_string(),
            doc: None,
            fields: Some(vec![f, g]),
        }],
    };
    let format = analyze_format(&doc).unwrap();
    let HirTypeDef::Struct(s) = &format.types[0];
    assert_eq!(
        s.fields[0].assertion,
        Some(dezzy::hir::HirAssertion::Equals(dezzy::hir::HirAssertValue::Int(42)))
    );
    assert_eq!(
        s.fields[1].assertion,
        Some(dezzy::hir::HirAssertion::Range { min: 1, max: 9 })
    );
}

#[test]
fn test_until_condition_field() {
    let mut f = raw_field("chunks", "Chunk[]");
    f.until = Some("chunks[-1].chunk_type equals [73, 69, 78, 68]".to_string());
    let doc = RawFormat {
        name: "Png".to_string(),
        version: None,
        endianness: None,
        enums: vec![],
        types: vec![
            RawTypeDef {
                name: "Chunk".to_string(),
                type_kind: "struct".to_string(),
                doc: None,
                fields: Some(vec![raw_field("chunk_type", "u32")]),
            },
            RawTypeDef {
                name: "File".to_string(),
                type_kind: "struct".to_string(),
                doc: None,
                fields: Some(vec![f]),
            },
        ],
    };
    let format = analyze_format(&doc).unwrap();
    let HirTypeDef::Struct(s) = &format.types[1];
    match &s.fields[0].field_type {
        HirType::UntilConditionArray { element_type, condition } => {
            assert_eq!(**element_type, HirType::UserDefined("Chunk".to_string()));
            assert!(matches!(condition, Expr::Comparison { .. }));
        }
        other => panic!("unexpected: {:?}", other),
    }
}

#[test]
fn test_error_messages() {
    let e = ParseError::UnknownType("Foo".to_string());
    assert_eq!(e.message(), "Unknown type: Foo");
    let p = PipelineError::UnknownType("Enum 'X' not found".to_string());
    assert_eq!(p.message(), "Unknown type reference: Enum 'X' not found");
    let t = TopoSortError::CircularDependency("A, B".to_string());
    assert_eq!(t.message(), "Circular dependency detected involving type: A, B");
}

#[test]
fn test_lower_demand() {
    let hir = format_of(
        "D",
        Endianness::Little,
        vec![],
        vec![strukt(
            "S",
            vec![
                field("a", HirType::U8),
                field(
                    "b",
                    HirType::Array { element_type: Box::new(HirType::U16), size: 3 },
                ),
            ],
        )],
    );
    // one pass allocates one variable per field plus one dummy for the
    // array; two passes, plus the result and write-parameter variables
    assert_eq!(dezzy::pipeline::lower_demand(&hir), Some(2 * (1 + 2) + 2));
}
