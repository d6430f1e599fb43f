use dezzy::cpp::codegen::CppBackend;
use dezzy::cpp::expr_codegen::generate_expr;
use dezzy::cpp::templates::{generate_header_end, generate_header_start,
    generate_struct_declaration};
use dezzy::expr_parser::parse_expr;
use dezzy::hir::{
    Endianness, HirAssertion, HirAssertValue, HirEnum, HirEnumValue, HirField, HirFormat,
    HirPrimitiveType, HirStruct, HirType, HirTypeDef,
};
use dezzy::pipeline::Pipeline;
use dezzy::registry::{Backend, BackendError, PluginRegistry};
use dezzy::raw::{RawField, RawFormat, RawTypeDef};
use dezzy::wasm::WasmBackend;

fn field(name: &str, field_type: HirType) -> HirField {
    HirField { name: name.to_string(), doc: None, field_type, assertion: None }
}

fn lower(hir: HirFormat) -> dezzy::lir::LirFormat {
    Pipeline::new().lower(hir).unwrap()
}

fn header_format() -> HirFormat {
    HirFormat {
        name: "TestFormat".to_string(),
        version: None,
        endianness: Endianness::Little,
        enums: vec![],
        types: vec![HirTypeDef::Struct(HirStruct {
            name: "Header".to_string(),
            doc: None,
            fields: vec![field("magic", HirType::U32), field("version", HirType::U16)],
        })],
    }
}

#[test]
fn test_cpp_expr_until_condition() {
    let ast = parse_expr("chunks[-1].chunk_type equals [73, 69, 78, 68]").unwrap();
    let code = generate_expr(&ast, "result.chunks");
    assert_eq!(
        code,
        "(result.chunks[result.chunks.size() - 1].chunk_type == std::array<uint8_t, 4>{{73, 69, 78, 68}})"
    );
}

#[test]
fn test_cpp_expr_balanced_and_scoped() {
    let samples = [
        "chunks[-1].chunk_type equals [73, 69, 78, 68]",
        "chunks[-1].size equals 0 AND chunks[0].kind not-equals 3",
        "chunks[2].a less-than 10 OR chunks[-2].b greater-than-or-equal 0x10",
    ];
    for src in samples {
        let ast = parse_expr(src).unwrap();
        let code = generate_expr(&ast, "result.chunks");
        let opens = code.chars().filter(|c| *c == '(').count();
        let closes = code.chars().filter(|c| *c == ')').count();
        assert_eq!(opens, closes, "unbalanced parentheses in {code}");
        assert!(code.contains("result.chunks"), "missing scoped array name in {code}");
    }
}

#[test]
fn test_cpp_expr_top_level_variable() {
    let ast = parse_expr("version equals 2").unwrap();
    // a bare name in a top-level scope becomes a field of the result
    assert_eq!(generate_expr(&ast, "result"), "(result.version == 2)");
    // a bare string literal becomes its UTF-8 bytes
    let ast2 = parse_expr("tag equals 'AB'").unwrap();
    assert_eq!(
        generate_expr(&ast2, "result"),
        "(result.tag == std::array<uint8_t, 2>{{65, 66}})"
    );
}

#[test]
fn test_templates() {
    let start = generate_header_start("testformat");
    assert!(start.contains("#pragma once"));
    assert!(start.contains("namespace testformat {"));
    assert!(start.contains("class Reader"));
    assert!(start.contains("class Writer"));
    assert!(start.contains("class ParseError"));
    assert_eq!(generate_header_end("ns"), "\n} // namespace ns\n");
    let decl = generate_struct_declaration(
        "Header",
        &vec![
            ("magic".to_string(), "uint32_t".to_string()),
            ("version".to_string(), "uint16_t".to_string()),
        ],
    );
    assert!(decl.contains("struct Header {"));
    assert!(decl.contains("    uint32_t magic;\n"));
    assert!(decl.contains("    static Header read(Reader& reader);"));
    assert!(decl.contains("    void write(Writer& writer) const;"));
}

#[test]
fn test_cpp_generate_simple_header() {
    let backend = CppBackend::new();
    let lir = lower(header_format());
    let code = backend.generate(&lir).unwrap();
    assert_eq!(code.files.len(), 1);
    assert_eq!(code.files[0].path, "testformat.hpp");
    let text = &code.files[0].content;
    assert!(text.contains("struct Header {"));
    assert!(text.contains("    uint32_t magic;"));
    assert!(text.contains("result.magic = reader.read_le<uint32_t>();"));
    assert!(text.contains("result.version = reader.read_le<uint16_t>();"));
    assert!(text.contains("writer.write_le(magic);"));
    assert!(text.contains("inline void Header::write(Writer& writer) const {"));
}

#[test]
fn test_cpp_endian_suffix_matches_format() {
    let mut hir = header_format();
    hir.endianness = Endianness::Big;
    let backend = CppBackend::new();
    let code = backend.generate(&lower(hir)).unwrap();
    let text = &code.files[0].content;
    assert!(text.contains("reader.read_be<uint32_t>()"));
    assert!(!text.contains("reader.read_le<uint32_t>()"));
    assert!(text.contains("writer.write_be(magic);"));
}

#[test]
fn test_cpp_enum_casts() {
    let kind = HirEnum {
        name: "Kind".to_string(),
        doc: None,
        underlying_type: HirPrimitiveType::U8,
        values: vec![
            HirEnumValue { name: "A".to_string(), value: 0, doc: None },
            HirEnumValue { name: "B".to_string(), value: 1, doc: None },
        ],
    };
    let hir = HirFormat {
        name: "Tagged".to_string(),
        version: None,
        endianness: Endianness::Little,
        enums: vec![kind],
        types: vec![HirTypeDef::Struct(HirStruct {
            name: "Tag".to_string(),
            doc: None,
            fields: vec![field("k", HirType::Enum("Kind".to_string()))],
        })],
    };
    let backend = CppBackend::new();
    let code = backend.generate(&lower(hir)).unwrap();
    let text = &code.files[0].content;
    assert!(text.contains("enum class Kind : uint8_t {"));
    assert!(text.contains("    A = 0,\n    B = 1"));
    assert!(text.contains("result.k = static_cast<Kind>(reader.read_le<uint8_t>());"));
    assert!(text.contains("writer.write_le(static_cast<uint8_t>(k));"));
}

#[test]
fn test_cpp_assertion_checks() {
    let mut f = field("magic", HirType::U32);
    f.assertion = Some(HirAssertion::Equals(HirAssertValue::Int(137)));
    let mut g = field("level", HirType::U8);
    g.assertion = Some(HirAssertion::Range { min: 1, max: 5 });
    let mut h = field(
        "sig",
        HirType::Array { element_type: Box::new(HirType::U8), size: 2 },
    );
    h.assertion = Some(HirAssertion::NotEquals(HirAssertValue::IntArray(vec![1, 2])));
    let hir = HirFormat {
        name: "Checked".to_string(),
        version: None,
        endianness: Endianness::Little,
        enums: vec![],
        types: vec![HirTypeDef::Struct(HirStruct {
            name: "S".to_string(),
            doc: None,
            fields: vec![f, g, h],
        })],
    };
    let backend = CppBackend::new();
    let code = backend.generate(&lower(hir)).unwrap();
    let text = &code.files[0].content;
    assert!(text.contains("if (result.magic != 137) {"));
    assert!(text.contains("Field 'magic' must equal 137"));
    assert!(text.contains("if (result.level < 1 || result.level > 5) {"));
    assert!(text.contains("std::array<uint8_t, 2> forbidden = {1, 2};"));
    assert!(text.contains(
        "if (std::equal(result.sig.begin(), result.sig.end(), forbidden.begin())) {"
    ));
    assert!(text.contains("Field 'sig' must not match forbidden value"));
}

#[test]
fn test_cpp_native_endianness_rejected() {
    let mut hir = header_format();
    hir.endianness = Endianness::Native;
    match CppBackend::new().generate(&lower(hir)) {
        Err(BackendError::Unsupported(m)) => {
            assert!(m.contains("native"));
        }
        other => panic!("unexpected: {:?}", other.map(|_| ())),
    }
}

#[test]
fn test_cpp_topological_order_in_output() {
    let hir = HirFormat {
        name: "Nested".to_string(),
        version: None,
        endianness: Endianness::Little,
        enums: vec![],
        types: vec![
            HirTypeDef::Struct(HirStruct {
                name: "B".to_string(),
                doc: None,
                fields: vec![field("a", HirType::UserDefined("A".to_string()))],
            }),
            HirTypeDef::Struct(HirStruct {
                name: "A".to_string(),
                doc: None,
                fields: vec![field("x", HirType::U32)],
            }),
        ],
    };
    let backend = CppBackend::new();
    let code = backend.generate(&lower(hir)).unwrap();
    let text = &code.files[0].content;
    let a_pos = text.find("struct A {").unwrap();
    let b_pos = text.find("struct B {").unwrap();
    assert!(a_pos < b_pos);
    assert!(text.contains("result.a = A::read(reader);"));
}

#[test]
fn test_cpp_cycle_is_reported() {
    let hir = HirFormat {
        name: "Cyclic".to_string(),
        version: None,
        endianness: Endianness::Little,
        enums: vec![],
        types: vec![
            HirTypeDef::Struct(HirStruct {
                name: "A".to_string(),
                doc: None,
                fields: vec![field("b", HirType::UserDefined("B".to_string()))],
            }),
            HirTypeDef::Struct(HirStruct {
                name: "B".to_string(),
                doc: None,
                fields: vec![field("a", HirType::UserDefined("A".to_string()))],
            }),
        ],
    };
    let backend = CppBackend::new();
    match backend.generate(&lower(hir)) {
        Err(BackendError::Sort(dezzy::topo_sort::TopoSortError::CircularDependency(s))) => {
            assert!(s.contains("A"));
            assert!(s.contains("B"));
        }
        other => panic!("unexpected: {:?}", other.map(|_| ())),
    }
}

#[test]
fn test_python_expr() {
    let ast = parse_expr("chunks[-1].chunk_type equals [73, 69, 78, 68]").unwrap();
    let code = dezzy::python_codegen::generate_expr(&ast, "chunks");
    assert_eq!(code, "(chunks[-1].chunk_type == [73, 69, 78, 68])");
    let ast2 = parse_expr("a less-than 3 AND b greater-than 1").unwrap();
    assert_eq!(
        dezzy::python_codegen::generate_expr(&ast2, "items"),
        "((a < 3) and (b > 1))"
    );
}

#[test]
fn test_registry() {
    let mut registry = PluginRegistry::new();
    registry.register(Backend::Cpp(CppBackend::new()));
    assert_eq!(registry.list_backends(), vec!["cpp".to_string()]);
    assert!(registry.get("cpp").is_some());
    assert!(registry.get("python").is_none());

    let lir = lower(header_format());
    let generated = registry.generate("cpp", &lir).unwrap();
    assert_eq!(generated.files[0].path, "testformat.hpp");

    match registry.generate("missing", &lir) {
        Err(BackendError::NotFound(n)) => assert_eq!(n, "missing"),
        other => panic!("unexpected: {:?}", other.map(|_| ())),
    }

    // registering again under the same name replaces, not duplicates
    registry.register(Backend::Cpp(CppBackend::new()));
    assert_eq!(registry.list_backends().len(), 1);
}

#[test]
fn test_wasm_backend_without_module() {
    let b = WasmBackend::new("py".to_string());
    assert_eq!(b.name(), "py");
    assert_eq!(b.version, "0.1.0");
    assert_eq!(b.file_extension, "unknown");
    // no module is loaded, so generation must fail, and never with a
    // registry lookup error
    let lir = lower(header_format());
    match b.generate(&lir) {
        Err(e) => assert!(!matches!(e, BackendError::NotFound(_))),
        Ok(_) => panic!("generation without a module cannot succeed"),
    }
}

#[test]
fn test_exchange_text() {
    let empty = dezzy::lir::LirFormat {
        name: "F".to_string(),
        endianness: Endianness::Little,
        enums: vec![],
        types: vec![],
    };
    assert_eq!(
        dezzy::exchange::lir_to_exchange(&empty),
        "{\"name\":\"F\",\"endianness\":\"Little\",\"enums\":[],\"types\":[]}"
    );

    let lir = lower(header_format());
    let text = dezzy::exchange::lir_to_exchange(&lir);
    assert!(text.starts_with("{\"name\":\"TestFormat\",\"endianness\":\"Little\","));
    assert!(text.contains("{\"ReadU32\":{\"dest\":0,\"endianness\":\"Little\"}}"));
    assert!(text.contains(
        "{\"CreateStruct\":{\"dest\":2,\"struct_name\":\"Header\",\"fields\":[0,1]}}"
    ));
    assert!(text.contains("\"read_result\":2,\"write_param\":3"));
    assert!(text.contains("\"type_info\":\"u32\""));
}

#[test]
fn test_exchange_escaping() {
    let weird = dezzy::lir::LirFormat {
        name: "a\"b\\c\nd".to_string(),
        endianness: Endianness::Big,
        enums: vec![],
        types: vec![],
    };
    let text = dezzy::exchange::lir_to_exchange(&weird);
    assert_eq!(
        text,
        "{\"name\":\"a\\\"b\\\\c\\nd\",\"endianness\":\"Big\",\"enums\":[],\"types\":[]}"
    );
}

#[test]
fn test_strutil() {
    assert_eq!(dezzy::strutil::i64_to_string(-5), "-5");
    assert_eq!(dezzy::strutil::i64_to_string(i64::MIN), "-9223372036854775808");
    assert_eq!(dezzy::strutil::u64_to_string(0), "0");
    assert_eq!(dezzy::strutil::u64_to_string(1234567890), "1234567890");
    assert_eq!(dezzy::strutil::dash_to_underscore("My-Fmt-2"), "My_Fmt_2");
    // the lowercased, underscored file name shows the case folding at work
    let mut hir = header_format();
    hir.name = "Test-Format".to_string();
    let backend = CppBackend::new();
    let code = backend.generate(&lower(hir)).unwrap();
    assert_eq!(code.files[0].path, "test_format.hpp");
}

#[test]
fn test_hir_helpers() {
    assert_eq!(HirType::U32.size_in_bytes(), Some(4));
    assert_eq!(
        HirType::Array { element_type: Box::new(HirType::U16), size: 8 }.size_in_bytes(),
        Some(16)
    );
    assert_eq!(HirType::NullTerminatedString.size_in_bytes(), None);
    assert!(HirType::I64.is_primitive());
    assert!(!HirType::Enum("K".to_string()).is_primitive());
    assert_eq!(dezzy::expr::ComparisonOp::from_str("less-than"), Some(dezzy::expr::ComparisonOp::LessThan));
    assert_eq!(dezzy::expr::ComparisonOp::from_str("lt"), None);
    assert_eq!(dezzy::expr::ComparisonOp::LessThanOrEqual.to_str(), "less-than-or-equal");
    assert_eq!(dezzy::expr::LogicalOp::from_str("AND"), Some(dezzy::expr::LogicalOp::And));
    assert_eq!(dezzy::expr::LogicalOp::Or.to_str(), "OR");
}

#[test]
fn test_until_condition_end_to_end() {
    let mk = |name: &str, ty: &str, until: Option<&str>| RawField {
        name: name.to_string(),
        field_type: ty.to_string(),
        doc: None,
        until: until.map(|u| u.to_string()),
        assertion: None,
        skip: None,
        padding: None,
        align: None,
    };
    let doc = RawFormat {
        name: "Png-Like".to_string(),
        version: None,
        endianness: Some("big".to_string()),
        enums: vec![],
        types: vec![
            RawTypeDef {
                name: "Chunk".to_string(),
                type_kind: "struct".to_string(),
                doc: None,
                fields: Some(vec![mk("chunk_type", "u32", None)]),
            },
            RawTypeDef {
                name: "File".to_string(),
                type_kind: "struct".to_string(),
                doc: None,
                fields: Some(vec![mk(
                    "chunks",
                    "Chunk[]",
                    Some("chunks[-1].chunk_type equals [73, 69, 78, 68]"),
                )]),
            },
        ],
    };
    let hir = dezzy::parser::analyze_format(&doc).unwrap();
    let lir = lower(hir);
    let code = CppBackend::new().generate(&lir).unwrap();
    assert_eq!(code.files[0].path, "png_like.hpp");
    let text = &code.files[0].content;
    assert!(text.contains("namespace png_like {"));
    assert!(text.contains("result.chunks.push_back(Chunk::read(reader));"));
    assert!(text.contains(
        "} while (!(result.chunks[result.chunks.size() - 1].chunk_type == std::array<uint8_t, 4>{{73, 69, 78, 68}}));"
    ));
    assert!(text.contains("reader.read_be<uint32_t>()"));
    // the write side iterates the container's actual length
    assert!(text.contains("for (size_t i = 0; i < chunks.size(); ++i) {"));
}

#[test]
fn test_registry_two_backends() {
    let mut registry = PluginRegistry::new();
    registry.register(Backend::Cpp(CppBackend::new()));
    registry.register(Backend::Wasm(WasmBackend::new("py".to_string())));
    assert_eq!(registry.list_backends(), vec!["cpp".to_string(), "py".to_string()]);
    match registry.get("py") {
        Some(b) => assert_eq!(b.name(), "py"),
        None => panic!("expected the loaded backend"),
    }
}

#[test]
fn test_cpp_empty_format_is_prologue_and_epilogue() {
    let hir = HirFormat {
        name: "Empty".to_string(),
        version: None,
        endianness: Endianness::Little,
        enums: vec![],
        types: vec![],
    };
    let code = CppBackend::new().generate(&lower(hir)).unwrap();
    let expected = format!("{}{}", generate_header_start("empty"), generate_header_end("empty"));
    assert_eq!(code.files[0].content, expected);
}
