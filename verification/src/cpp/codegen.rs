//! The built-in C++ code generator: one header per format, with a typed
//! enum per declared enum and a struct with `read`/`write` per lowered
//! type.  The `*_text` functions state the emitted text exactly.

use vstd::prelude::*;
use vstd::string::{StrSliceExecFns, StringExecFns};
use crate::cpp::expr_codegen::{cpp_expr_text, generate_expr};
use crate::cpp::templates::{
    generate_header_end, generate_header_start, generate_struct_declaration, header_end_text,
    header_start_text, struct_decl_text, view_field_pairs,
};
use crate::hir::{Endianness, HirAssertion, HirAssertValue, HirEnum, HirEnumValue,
    HirPrimitiveType};
use crate::lir::{LirField, LirFormat, LirOperation, LirType, VarId};
use crate::registry::{BackendError, GeneratedCode, GeneratedFile};
use crate::strutil::{dec_str, int_str, str_eq};
use crate::topo_sort::topological_sort;

verus! {

/// The C++ integer for a primitive.
pub open spec fn prim_cpp_name(p: HirPrimitiveType) -> Seq<char> {
    match p {
        HirPrimitiveType::U8 => "uint8_t"@,
        HirPrimitiveType::U16 => "uint16_t"@,
        HirPrimitiveType::U32 => "uint32_t"@,
        HirPrimitiveType::U64 => "uint64_t"@,
        HirPrimitiveType::I8 => "int8_t"@,
        HirPrimitiveType::I16 => "int16_t"@,
        HirPrimitiveType::I32 => "int32_t"@,
        HirPrimitiveType::I64 => "int64_t"@,
    }
}

/// The endian suffix of a reader or writer call; native is read as
/// little.
pub open spec fn endian_suffix(e: Endianness) -> Seq<char> {
    match e {
        Endianness::Big => "_be"@,
        _ => "_le"@,
    }
}

/// The value lines of one emitted enum, from index `i` on.
pub open spec fn enum_values_text(vals: Seq<HirEnumValue>, i: int, acc: Seq<char>) -> Seq<char>
    decreases vals.len() - i,
{
    if i < 0 || i >= vals.len() {
        acc
    } else if i > 0 {
        enum_values_text(
            vals,
            i + 1,
            acc + ",\n"@ + "    "@ + vals[i].name@ + " = "@ + int_str(vals[i].value as int),
        )
    } else {
        enum_values_text(
            vals,
            i + 1,
            acc + "    "@ + vals[i].name@ + " = "@ + int_str(vals[i].value as int),
        )
    }
}

/// One emitted enum: a C++ `enum class` over the underlying integer.
pub open spec fn enum_text(e: HirEnum) -> Seq<char> {
    enum_values_text(
        e.values@,
        0,
        "enum class "@ + e.name@ + " : "@ + prim_cpp_name(e.underlying_type) + " {\n"@,
    ) + "\n};\n\n"@
}

/// The C++ type for the text form of an LIR field type.
pub open spec fn cpp_type_text(s: Seq<char>) -> Seq<char>
    decreases s.len(),
{
    if s == "cstr"@ || (s.len() >= 4 && s.subrange(0, 4) == "str("@) {
        "std::string"@
    } else {
        let b = crate::topo_sort::first_bracket(s, 0);
        if b < s.len() {
            if s[s.len() - 1] != ']' {
                s
            } else {
                let elem = s.take(b);
                let size = s.subrange(b + 1, s.len() - 1);
                if elem == "str"@ {
                    "std::string"@
                } else if elem.len() < s.len() {
                    let ce = cpp_type_text(elem);
                    match crate::parser::parse_usize_of(size) {
                        Some(n) => "std::array<"@ + ce + ", "@ + dec_str(n as nat) + ">"@,
                        None => "std::vector<"@ + ce + ">"@,
                    }
                } else {
                    s
                }
            }
        } else {
            if s == "u8"@ {
                "uint8_t"@
            } else if s == "u16"@ {
                "uint16_t"@
            } else if s == "u32"@ {
                "uint32_t"@
            } else if s == "u64"@ {
                "uint64_t"@
            } else if s == "i8"@ {
                "int8_t"@
            } else if s == "i16"@ {
                "int16_t"@
            } else if s == "i32"@ {
                "int32_t"@
            } else if s == "i64"@ {
                "int64_t"@
            } else {
                s
            }
        }
    }
}

/// The name/type pairs of a struct declaration, from field `i` on.
pub open spec fn cpp_field_pairs(
    fields: Seq<LirField>,
    i: int,
    acc: Seq<(Seq<char>, Seq<char>)>,
) -> Seq<(Seq<char>, Seq<char>)>
    decreases fields.len() - i,
{
    if i < 0 || i >= fields.len() {
        acc
    } else {
        cpp_field_pairs(fields, i + 1, acc.push((fields[i].name@, cpp_type_text(
            fields[i].type_info@,
        ))))
    }
}

/// The variable-to-field-name map, built in field order so that a later
/// binding of the same identifier wins.
pub open spec fn build_vmap(fields: Seq<LirField>, i: int, acc: Seq<(VarId, Seq<char>)>) -> Seq<
    (VarId, Seq<char>),
>
    decreases fields.len() - i,
{
    if i < 0 || i >= fields.len() {
        acc
    } else {
        build_vmap(fields, i + 1, acc.push((fields[i].var_id, fields[i].name@)))
    }
}

/// The name bound to a variable, the latest binding winning; `i` counts
/// the leading entries still to be searched.
pub open spec fn vmap_lookup(m: Seq<(VarId, Seq<char>)>, v: int, i: int) -> Option<Seq<char>>
    decreases i,
{
    if i <= 0 || i > m.len() {
        None
    } else if m[i - 1].0 == v {
        Some(m[i - 1].1)
    } else {
        vmap_lookup(m, v, i - 1)
    }
}

/// The name bound to a variable, or the fallback.
pub open spec fn vname_or(m: Seq<(VarId, Seq<char>)>, v: int, fallback: Seq<char>) -> Seq<char> {
    match vmap_lookup(m, v, m.len() as int) {
        Some(n) => n,
        None => fallback,
    }
}

/// The first field whose identifier is `v`, searching from index `i`.
pub open spec fn first_field_by_var(fields: Seq<LirField>, v: int, i: int) -> Option<LirField>
    decreases fields.len() - i,
{
    if i < 0 || i >= fields.len() {
        None
    } else if fields[i].var_id == v {
        Some(fields[i])
    } else {
        first_field_by_var(fields, v, i + 1)
    }
}

/// The underlying primitive of the enum of the given name, searching
/// from index `i`.
pub open spec fn enum_named(enums: Seq<HirEnum>, nm: Seq<char>, i: int) -> Option<
    HirPrimitiveType,
>
    decreases enums.len() - i,
{
    if i < 0 || i >= enums.len() {
        None
    } else if enums[i].name@ == nm {
        Some(enums[i].underlying_type)
    } else {
        enum_named(enums, nm, i + 1)
    }
}

/// The enum type an assignment to this destination must be cast to, if
/// the destination's field is enum-typed.
pub open spec fn enum_cast_name(
    fields: Seq<LirField>,
    enums: Seq<HirEnum>,
    m: Seq<(VarId, Seq<char>)>,
    dest: int,
) -> Option<Seq<char>> {
    match vmap_lookup(m, dest, m.len() as int) {
        None => None,
        Some(_) => match first_field_by_var(fields, dest, 0) {
            None => None,
            Some(f) => if enum_named(enums, f.type_info@, 0) is Some {
                Some(f.type_info@)
            } else {
                None
            },
        },
    }
}

/// The comma-joined decimal renderings of the integers from index `i`
/// on, appended to the text built so far.
pub open spec fn int_join(ns: Seq<i64>, i: int, acc: Seq<char>) -> Seq<char>
    decreases ns.len() - i,
{
    if i < 0 || i >= ns.len() {
        acc
    } else if i > 0 {
        int_join(ns, i + 1, acc + ", "@ + int_str(ns[i] as int))
    } else {
        int_join(ns, i + 1, acc + int_str(ns[i] as int))
    }
}

/// The emitted check for one assertion, thrown as a parse error naming
/// the field.
pub open spec fn assertion_check_text(f: Seq<char>, a: HirAssertion) -> Seq<char> {
    match a {
        HirAssertion::Equals(av) => match av {
            HirAssertValue::Int(v) => "    if (result."@ + f + " != "@ + int_str(v as int)
                + ") {\n"@ + "        throw ParseError(\"Field '"@ + f + "' must equal "@
                + int_str(v as int) + ", got \" + std::to_string(result."@ + f + "));\n"@
                + "    }\n"@,
            HirAssertValue::IntArray(vs) => int_join(
                vs@,
                0,
                "    {\n"@ + "        std::array<uint8_t, "@ + dec_str(vs@.len())
                    + "> expected = {"@,
            ) + "};\n"@ + "        if (!std::equal(result."@ + f + ".begin(), result."@ + f
                + ".end(), expected.begin())) {\n"@ + "            throw ParseError(\"Field '"@
                + f + "' does not match expected value\");\n"@ + "        }\n"@ + "    }\n"@,
        },
        HirAssertion::NotEquals(av) => match av {
            HirAssertValue::Int(v) => "    if (result."@ + f + " == "@ + int_str(v as int)
                + ") {\n"@ + "        throw ParseError(\"Field '"@ + f + "' must not equal "@
                + int_str(v as int) + "\");\n"@ + "    }\n"@,
            HirAssertValue::IntArray(vs) => int_join(
                vs@,
                0,
                "    {\n"@ + "        std::array<uint8_t, "@ + dec_str(vs@.len())
                    + "> forbidden = {"@,
            ) + "};\n"@ + "        if (std::equal(result."@ + f + ".begin(), result."@ + f
                + ".end(), forbidden.begin())) {\n"@ + "            throw ParseError(\"Field '"@
                + f + "' must not match forbidden value\");\n"@ + "        }\n"@ + "    }\n"@,
        },
        HirAssertion::GreaterThan(t) => "    if (result."@ + f + " <= "@ + int_str(t as int)
            + ") {\n"@ + "        throw ParseError(\"Field '"@ + f + "' must be greater than "@
            + int_str(t as int) + ", got \" + std::to_string(result."@ + f + "));\n"@
            + "    }\n"@,
        HirAssertion::GreaterOrEqual(t) => "    if (result."@ + f + " < "@ + int_str(t as int)
            + ") {\n"@ + "        throw ParseError(\"Field '"@ + f + "' must be >= "@ + int_str(
            t as int,
        ) + ", got \" + std::to_string(result."@ + f + "));\n"@ + "    }\n"@,
        HirAssertion::LessThan(t) => "    if (result."@ + f + " >= "@ + int_str(t as int)
            + ") {\n"@ + "        throw ParseError(\"Field '"@ + f + "' must be less than "@
            + int_str(t as int) + ", got \" + std::to_string(result."@ + f + "));\n"@
            + "    }\n"@,
        HirAssertion::LessOrEqual(t) => "    if (result."@ + f + " > "@ + int_str(t as int)
            + ") {\n"@ + "        throw ParseError(\"Field '"@ + f + "' must be <= "@ + int_str(
            t as int,
        ) + ", got \" + std::to_string(result."@ + f + "));\n"@ + "    }\n"@,
        HirAssertion::In(vs) => int_join(
            vs@,
            0,
            "    {\n"@ + "        std::array<int64_t, "@ + dec_str(vs@.len()) + "> allowed = {"@,
        ) + "};\n"@ + "        if (std::find(allowed.begin(), allowed.end(), result."@ + f
            + ") == allowed.end()) {\n"@ + "            throw ParseError(\"Field '"@ + f
            + "' has invalid value \" + std::to_string(result."@ + f + "));\n"@ + "        }\n"@
            + "    }\n"@,
        HirAssertion::NotIn(vs) => int_join(
            vs@,
            0,
            "    {\n"@ + "        std::array<int64_t, "@ + dec_str(vs@.len())
                + "> forbidden = {"@,
        ) + "};\n"@ + "        if (std::find(forbidden.begin(), forbidden.end(), result."@ + f
            + ") != forbidden.end()) {\n"@ + "            throw ParseError(\"Field '"@ + f
            + "' has forbidden value \" + std::to_string(result."@ + f + "));\n"@
            + "        }\n"@ + "    }\n"@,
        HirAssertion::Range { min, max } => "    if (result."@ + f + " < "@ + int_str(min as int)
            + " || result."@ + f + " > "@ + int_str(max as int) + ") {\n"@
            + "        throw ParseError(\"Field '"@ + f + "' must be in range ["@ + int_str(
            min as int,
        ) + ", "@ + int_str(max as int) + "], got \" + std::to_string(result."@ + f + "));\n"@
            + "    }\n"@,
    }
}

/// The check emitted after a read, where the destination's field carries
/// an assertion.
pub open spec fn assertion_suffix(fields: Seq<LirField>, dest: int, acc: Seq<char>) -> Seq<char> {
    match first_field_by_var(fields, dest, 0) {
        Some(f) => match f.assertion {
            Some(a) => acc + assertion_check_text(f.name@, a),
            None => acc,
        },
        None => acc,
    }
}

} // verus!
verus! {

/// The emitted assignment of a primitive read, cast where the field is
/// enum-typed.
pub open spec fn prim_read_line(
    f: Seq<char>,
    cast: Option<Seq<char>>,
    call: Seq<char>,
) -> Seq<char> {
    match cast {
        Some(en) => "    result."@ + f + " = static_cast<"@ + en + ">("@ + call + ");\n"@,
        None => "    result."@ + f + " = "@ + call + ";\n"@,
    }
}

/// The reader call of one element operation; only primitives and struct
/// reads can stand as elements.
pub open spec fn element_read_text(op: LirOperation, e: Endianness) -> Seq<char> {
    match op {
        LirOperation::ReadU8 { .. } => "reader.read_le<uint8_t>()"@,
        LirOperation::ReadU16 { .. } => "reader.read"@ + endian_suffix(e) + "<uint16_t>()"@,
        LirOperation::ReadU32 { .. } => "reader.read"@ + endian_suffix(e) + "<uint32_t>()"@,
        LirOperation::ReadU64 { .. } => "reader.read"@ + endian_suffix(e) + "<uint64_t>()"@,
        LirOperation::ReadI8 { .. } => "reader.read_le<int8_t>()"@,
        LirOperation::ReadI16 { .. } => "reader.read"@ + endian_suffix(e) + "<int16_t>()"@,
        LirOperation::ReadI32 { .. } => "reader.read"@ + endian_suffix(e) + "<int32_t>()"@,
        LirOperation::ReadI64 { .. } => "reader.read"@ + endian_suffix(e) + "<int64_t>()"@,
        LirOperation::ReadStruct { struct_name: tn, .. } => tn@ + "::read(reader)"@,
        _ => "/* unsupported */"@,
    }
}

/// The emitted code of one read operation.
pub open spec fn read_op_text(
    op: LirOperation,
    m: Seq<(VarId, Seq<char>)>,
    fields: Seq<LirField>,
    enums: Seq<HirEnum>,
    e: Endianness,
) -> Seq<char> {
    match op {
        LirOperation::ReadU8 { dest } => prim_read_assign(m, fields, enums, dest as int, e, op),
        LirOperation::ReadU16 { dest, .. } => prim_read_assign(
            m,
            fields,
            enums,
            dest as int,
            e,
            op,
        ),
        LirOperation::ReadU32 { dest, .. } => prim_read_assign(
            m,
            fields,
            enums,
            dest as int,
            e,
            op,
        ),
        LirOperation::ReadU64 { dest, .. } => prim_read_assign(
            m,
            fields,
            enums,
            dest as int,
            e,
            op,
        ),
        LirOperation::ReadI8 { dest } => prim_read_assign(m, fields, enums, dest as int, e, op),
        LirOperation::ReadI16 { dest, .. } => prim_read_assign(
            m,
            fields,
            enums,
            dest as int,
            e,
            op,
        ),
        LirOperation::ReadI32 { dest, .. } => prim_read_assign(
            m,
            fields,
            enums,
            dest as int,
            e,
            op,
        ),
        LirOperation::ReadI64 { dest, .. } => prim_read_assign(
            m,
            fields,
            enums,
            dest as int,
            e,
            op,
        ),
        LirOperation::ReadArray { dest, element_op, count } => {
            let f = vname_or(m, dest as int, "unknown"@);
            assertion_suffix(
                fields,
                dest as int,
                "    for (size_t i = 0; i < "@ + dec_str(count as nat) + "; ++i) {\n"@
                    + "        result."@ + f + "[i] = "@ + element_read_text(*element_op, e)
                    + ";\n"@ + "    }\n"@,
            )
        },
        LirOperation::ReadDynamicArray { dest, element_op, size_var } => {
            let f = vname_or(m, dest as int, "unknown"@);
            let sf = vname_or(m, size_var as int, "unknown_size"@);
            "    result."@ + f + ".resize(result."@ + sf + ");\n"@
                + "    for (size_t i = 0; i < result."@ + sf + "; ++i) {\n"@ + "        result."@
                + f + "[i] = "@ + element_read_text(*element_op, e) + ";\n"@ + "    }\n"@
        },
        LirOperation::ReadUntilEofArray { dest, element_op } => {
            let f = vname_or(m, dest as int, "unknown"@);
            "    while (reader.remaining() > 0) {\n"@ + "        result."@ + f + ".push_back("@
                + element_read_text(*element_op, e) + ");\n"@ + "    }\n"@
        },
        LirOperation::ReadUntilConditionArray { dest, element_op, condition } => {
            let f = vname_or(m, dest as int, "unknown"@);
            "    do {\n"@ + "        result."@ + f + ".push_back("@ + element_read_text(
                *element_op,
                e,
            ) + ");\n"@ + "    } while ("@ + "!"@ + cpp_expr_text(condition, "result."@ + f)
                + ");\n"@
        },
        LirOperation::ReadStruct { dest, struct_name: tn } => {
            let f = vname_or(m, dest as int, "unknown"@);
            "    result."@ + f + " = "@ + tn@ + "::read(reader);\n"@
        },
        LirOperation::ReadFixedString { dest, length } => {
            let f = vname_or(m, dest as int, "unknown"@);
            assertion_suffix(
                fields,
                dest as int,
                "    {\n"@ + "        std::vector<uint8_t> bytes("@ + dec_str(length as nat)
                    + ");\n"@ + "        for (size_t i = 0; i < "@ + dec_str(length as nat)
                    + "; ++i) {\n"@ + "            bytes[i] = reader.read_le<uint8_t>();\n"@
                    + "        }\n"@ + "        result."@ + f
                    + " = std::string(reinterpret_cast<const char*>(bytes.data()), bytes.size());\n"@
                    + "    }\n"@,
            )
        },
        LirOperation::ReadNullTerminatedString { dest } => {
            let f = vname_or(m, dest as int, "unknown"@);
            assertion_suffix(
                fields,
                dest as int,
                "    {\n"@ + "        std::vector<uint8_t> bytes;\n"@ + "        uint8_t byte;\n"@
                    + "        while ((byte = reader.read_le<uint8_t>()) != 0) {\n"@
                    + "            bytes.push_back(byte);\n"@ + "        }\n"@ + "        result."@
                    + f
                    + " = std::string(reinterpret_cast<const char*>(bytes.data()), bytes.size());\n"@
                    + "    }\n"@,
            )
        },
        LirOperation::ReadLengthPrefixedString { dest, length_var } => {
            let f = vname_or(m, dest as int, "unknown"@);
            let lf = vname_or(m, length_var as int, "unknown"@);
            assertion_suffix(
                fields,
                dest as int,
                "    {\n"@ + "        std::vector<uint8_t> bytes(result."@ + lf + ");\n"@
                    + "        for (size_t i = 0; i < result."@ + lf + "; ++i) {\n"@
                    + "            bytes[i] = reader.read_le<uint8_t>();\n"@ + "        }\n"@
                    + "        result."@ + f
                    + " = std::string(reinterpret_cast<const char*>(bytes.data()), bytes.size());\n"@
                    + "    }\n"@,
            )
        },
        _ => Seq::empty(),
    }
}

/// The emitted assignment of one primitive read operation, with the
/// assertion check of its field.
pub open spec fn prim_read_assign(
    m: Seq<(VarId, Seq<char>)>,
    fields: Seq<LirField>,
    enums: Seq<HirEnum>,
    dest: int,
    e: Endianness,
    op: LirOperation,
) -> Seq<char> {
    let f = vname_or(m, dest, "unknown"@);
    assertion_suffix(
        fields,
        dest,
        prim_read_line(f, enum_cast_name(fields, enums, m, dest), element_read_text(op, e)),
    )
}

/// The writer call of one element operation.
pub open spec fn element_write_text(op: LirOperation, f: Seq<char>, e: Endianness) -> Seq<char> {
    match op {
        LirOperation::WriteU8 { .. } => "writer.write_le("@ + f + "[i])"@,
        LirOperation::WriteU16 { .. } => "writer.write"@ + endian_suffix(e) + "("@ + f + "[i])"@,
        LirOperation::WriteU32 { .. } => "writer.write"@ + endian_suffix(e) + "("@ + f + "[i])"@,
        LirOperation::WriteU64 { .. } => "writer.write"@ + endian_suffix(e) + "("@ + f + "[i])"@,
        LirOperation::WriteI8 { .. } => "writer.write_le("@ + f + "[i])"@,
        LirOperation::WriteI16 { .. } => "writer.write"@ + endian_suffix(e) + "("@ + f + "[i])"@,
        LirOperation::WriteI32 { .. } => "writer.write"@ + endian_suffix(e) + "("@ + f + "[i])"@,
        LirOperation::WriteI64 { .. } => "writer.write"@ + endian_suffix(e) + "("@ + f + "[i])"@,
        LirOperation::WriteStruct { .. } => f + "[i].write(writer)"@,
        _ => "/* unsupported */"@,
    }
}

/// The argument of a primitive write: the field name, cast back to the
/// underlying integer where the field of that name is enum-typed.
pub open spec fn cast_arg(
    m: Seq<(VarId, Seq<char>)>,
    fields: Seq<LirField>,
    enums: Seq<HirEnum>,
    src: int,
    ty: Seq<char>,
) -> Seq<char> {
    let f = vname_or(m, src, "unknown"@);
    match first_field_named(fields, f, 0) {
        Some(fld) => if enum_named(enums, fld.type_info@, 0) is Some {
            "static_cast<"@ + ty + ">("@ + f + ")"@
        } else {
            f
        },
        None => f,
    }
}

/// The first field of the given name, searching from index `i`.
pub open spec fn first_field_named(
    fields: Seq<LirField>,
    f: Seq<char>,
    i: int,
) -> Option<LirField>
    decreases fields.len() - i,
{
    if i < 0 || i >= fields.len() {
        None
    } else if fields[i].name@ == f {
        Some(fields[i])
    } else {
        first_field_named(fields, f, i + 1)
    }
}

/// The emitted line of one primitive write.
pub open spec fn prim_write_line(arg: Seq<char>, e: Endianness, wide: bool) -> Seq<char> {
    if wide {
        "    writer.write"@ + endian_suffix(e) + "("@ + arg + ");\n"@
    } else {
        "    writer.write_le("@ + arg + ");\n"@
    }
}

/// The emitted code of one write operation.
pub open spec fn write_op_text(
    op: LirOperation,
    m: Seq<(VarId, Seq<char>)>,
    fields: Seq<LirField>,
    enums: Seq<HirEnum>,
    e: Endianness,
) -> Seq<char> {
    match op {
        LirOperation::WriteU8 { src } => prim_write_line(
            cast_arg(m, fields, enums, src as int, "uint8_t"@),
            e,
            false,
        ),
        LirOperation::WriteU16 { src, .. } => prim_write_line(
            cast_arg(m, fields, enums, src as int, "uint16_t"@),
            e,
            true,
        ),
        LirOperation::WriteU32 { src, .. } => prim_write_line(
            cast_arg(m, fields, enums, src as int, "uint32_t"@),
            e,
            true,
        ),
        LirOperation::WriteU64 { src, .. } => prim_write_line(
            cast_arg(m, fields, enums, src as int, "uint64_t"@),
            e,
            true,
        ),
        LirOperation::WriteI8 { src } => prim_write_line(
            cast_arg(m, fields, enums, src as int, "int8_t"@),
            e,
            false,
        ),
        LirOperation::WriteI16 { src, .. } => prim_write_line(
            cast_arg(m, fields, enums, src as int, "int16_t"@),
            e,
            true,
        ),
        LirOperation::WriteI32 { src, .. } => prim_write_line(
            cast_arg(m, fields, enums, src as int, "int32_t"@),
            e,
            true,
        ),
        LirOperation::WriteI64 { src, .. } => prim_write_line(
            cast_arg(m, fields, enums, src as int, "int64_t"@),
            e,
            true,
        ),
        LirOperation::WriteArray { src, element_op, count } => {
            let f = vname_or(m, src as int, "unknown"@);
            "    for (size_t i = 0; i < "@ + dec_str(count as nat) + "; ++i) {\n"@ + "        "@
                + element_write_text(*element_op, f, e) + ";\n"@ + "    }\n"@
        },
        LirOperation::WriteDynamicArray { src, element_op, size_field_name, .. } => {
            let f = vname_or(m, src as int, "unknown"@);
            "    for (size_t i = 0; i < "@ + size_field_name@ + "; ++i) {\n"@ + "        "@
                + element_write_text(*element_op, f, e) + ";\n"@ + "    }\n"@
        },
        LirOperation::WriteUntilEofArray { src, element_op } => {
            let f = vname_or(m, src as int, "unknown"@);
            "    for (size_t i = 0; i < "@ + f + ".size(); ++i) {\n"@ + "        "@
                + element_write_text(*element_op, f, e) + ";\n"@ + "    }\n"@
        },
        LirOperation::WriteUntilConditionArray { src, element_op } => {
            let f = vname_or(m, src as int, "unknown"@);
            "    for (size_t i = 0; i < "@ + f + ".size(); ++i) {\n"@ + "        "@
                + element_write_text(*element_op, f, e) + ";\n"@ + "    }\n"@
        },
        LirOperation::WriteStruct { src, .. } => {
            let f = vname_or(m, src as int, "unknown"@);
            "    "@ + f + ".write(writer);\n"@
        },
        LirOperation::WriteFixedString { src, length } => {
            let f = vname_or(m, src as int, "unknown"@);
            "    for (size_t i = 0; i < "@ + dec_str(length as nat) + "; ++i) {\n"@
                + "        writer.write_le(static_cast<uint8_t>("@ + f + ".size() > i ? "@ + f
                + "[i] : 0));\n"@ + "    }\n"@
        },
        LirOperation::WriteNullTerminatedString { src } => {
            let f = vname_or(m, src as int, "unknown"@);
            "    for (size_t i = 0; i < "@ + f + ".size(); ++i) {\n"@
                + "        writer.write_le(static_cast<uint8_t>("@ + f + "[i]));\n"@ + "    }\n"@
                + "    writer.write_le(static_cast<uint8_t>(0));  // null terminator\n"@
        },
        LirOperation::WriteLengthPrefixedString { src, .. } => {
            let f = vname_or(m, src as int, "unknown"@);
            "    for (size_t i = 0; i < "@ + f + ".size(); ++i) {\n"@
                + "        writer.write_le(static_cast<uint8_t>("@ + f + "[i]));\n"@ + "    }\n"@
        },
        _ => Seq::empty(),
    }
}

/// The read section: the operations up to the `CreateStruct` marker.
pub open spec fn read_ops_text(
    ops: Seq<LirOperation>,
    i: int,
    m: Seq<(VarId, Seq<char>)>,
    fields: Seq<LirField>,
    enums: Seq<HirEnum>,
    e: Endianness,
    acc: Seq<char>,
) -> Seq<char>
    decreases ops.len() - i,
{
    if i < 0 || i >= ops.len() {
        acc
    } else if ops[i] is CreateStruct {
        acc
    } else {
        read_ops_text(ops, i + 1, m, fields, enums, e, acc + read_op_text(
            ops[i],
            m,
            fields,
            enums,
            e,
        ))
    }
}

/// The whole `read` implementation of one type.
pub open spec fn read_impl_text(
    name: Seq<char>,
    fields: Seq<LirField>,
    ops: Seq<LirOperation>,
    enums: Seq<HirEnum>,
    e: Endianness,
) -> Seq<char> {
    read_ops_text(
        ops,
        0,
        build_vmap(fields, 0, Seq::empty()),
        fields,
        enums,
        e,
        "inline "@ + name + " "@ + name + "::read(Reader& reader) {\n"@ + "    "@ + name
            + " result;\n"@,
    ) + "    return result;\n"@ + "}\n\n"@
}

/// The write section: operations after the first `AccessField`, whose
/// destinations name the fields they drain.
pub open spec fn write_ops_text(
    ops: Seq<LirOperation>,
    i: int,
    fields: Seq<LirField>,
    enums: Seq<HirEnum>,
    e: Endianness,
    m: Seq<(VarId, Seq<char>)>,
    in_sec: bool,
    acc: Seq<char>,
) -> Seq<char>
    decreases ops.len() - i,
{
    if i < 0 || i >= ops.len() {
        acc
    } else {
        match ops[i] {
            LirOperation::AccessField { dest, field_index, .. } => {
                let m2 = if field_index < fields.len() {
                    m.push((dest, fields[field_index as int].name@))
                } else {
                    m
                };
                write_ops_text(ops, i + 1, fields, enums, e, m2, true, acc)
            },
            _ => {
                if in_sec {
                    write_ops_text(ops, i + 1, fields, enums, e, m, in_sec, acc + write_op_text(
                        ops[i],
                        m,
                        fields,
                        enums,
                        e,
                    ))
                } else {
                    write_ops_text(ops, i + 1, fields, enums, e, m, in_sec, acc)
                }
            },
        }
    }
}

/// The whole `write` implementation of one type.
pub open spec fn write_impl_text(
    name: Seq<char>,
    fields: Seq<LirField>,
    ops: Seq<LirOperation>,
    enums: Seq<HirEnum>,
    e: Endianness,
) -> Seq<char> {
    write_ops_text(
        ops,
        0,
        fields,
        enums,
        e,
        Seq::empty(),
        false,
        "inline void "@ + name + "::write(Writer& writer) const {\n"@,
    ) + "}\n\n"@
}

/// One emitted type: declaration, `read`, and `write`.
pub open spec fn type_text(t: LirType, e: Endianness, enums: Seq<HirEnum>) -> Seq<char> {
    struct_decl_text(t.name@, cpp_field_pairs(t.fields@, 0, Seq::empty())) + read_impl_text(
        t.name@,
        t.fields@,
        t.operations@,
        enums,
        e,
    ) + write_impl_text(t.name@, t.fields@, t.operations@, enums, e)
}

/// The emitted enums from index `i` on.
pub open spec fn enums_text(enums: Seq<HirEnum>, i: int, acc: Seq<char>) -> Seq<char>
    decreases enums.len() - i,
{
    if i < 0 || i >= enums.len() {
        acc
    } else {
        enums_text(enums, i + 1, acc + enum_text(enums[i]))
    }
}

/// The emitted types from index `i` on.
pub open spec fn types_text(
    types: Seq<LirType>,
    i: int,
    e: Endianness,
    enums: Seq<HirEnum>,
    acc: Seq<char>,
) -> Seq<char>
    decreases types.len() - i,
{
    if i < 0 || i >= types.len() {
        acc
    } else {
        types_text(types, i + 1, e, enums, acc + type_text(types[i], e, enums))
    }
}

/// A whole generated header over an already ordered type list.
pub open spec fn file_body_text(
    ns: Seq<char>,
    enums: Seq<HirEnum>,
    types: Seq<LirType>,
    e: Endianness,
) -> Seq<char> {
    types_text(types, 0, e, enums, enums_text(enums, 0, header_start_text(ns))) + header_end_text(
        ns,
    )
}

} // verus!
verus! {

/// View of the executable variable-to-name map.
pub open spec fn view_vmap(s: Seq<(VarId, String)>) -> Seq<(VarId, Seq<char>)> {
    s.map_values(|p: (VarId, String)| (p.0, p.1@))
}

proof fn lemma_view_vmap_push(s: Seq<(VarId, String)>, v: VarId, n: String)
    ensures
        view_vmap(s.push((v, n))) == view_vmap(s).push((v, n@)),
{
    assert(view_vmap(s).len() == s.len());
    assert(view_vmap(s.push((v, n))) =~= view_vmap(s).push((v, n@)));
}

fn vmap_has(m: &Vec<(VarId, String)>, v: VarId) -> (r: bool)
    ensures
        r == (vmap_lookup(view_vmap(m@), v as int, m@.len() as int) is Some),
{
    proof {
        assert(view_vmap(m@).len() == m@.len());
    }
    let mut i: usize = m.len();
    while i > 0
        invariant
            i <= m@.len(),
            vmap_lookup(view_vmap(m@), v as int, m@.len() as int) == vmap_lookup(
                view_vmap(m@),
                v as int,
                i as int,
            ),
        decreases i,
    {
        let idx = i - 1;
        proof {
            assert(view_vmap(m@)[idx as int] == (m@[idx as int].0, m@[idx as int].1@));
        }
        if m[idx].0 == v {
            return true;
        }
        i = idx;
    }
    false
}

fn vmap_get(m: &Vec<(VarId, String)>, v: VarId, fallback: &str) -> (r: String)
    ensures
        r@ == vname_or(view_vmap(m@), v as int, fallback@),
{
    proof {
        assert(view_vmap(m@).len() == m@.len());
    }
    let mut i: usize = m.len();
    while i > 0
        invariant
            i <= m@.len(),
            vmap_lookup(view_vmap(m@), v as int, m@.len() as int) == vmap_lookup(
                view_vmap(m@),
                v as int,
                i as int,
            ),
        decreases i,
    {
        let idx = i - 1;
        proof {
            assert(view_vmap(m@)[idx as int] == (m@[idx as int].0, m@[idx as int].1@));
        }
        if m[idx].0 == v {
            return m[idx].1.clone();
        }
        i = idx;
    }
    String::from_str(fallback)
}

fn enum_named_exec(enums: &Vec<HirEnum>, nm: &str) -> (r: Option<HirPrimitiveType>)
    ensures
        r == enum_named(enums@, nm@, 0),
{
    let mut i: usize = 0;
    while i < enums.len()
        invariant
            i <= enums@.len(),
            enum_named(enums@, nm@, 0) == enum_named(enums@, nm@, i as int),
        decreases enums@.len() - i,
    {
        if str_eq(enums[i].name.as_str(), nm) {
            return Some(enums[i].underlying_type);
        }
        i += 1;
    }
    None
}

fn first_field_idx(fields: &Vec<LirField>, v: VarId) -> (r: Option<usize>)
    ensures
        match r {
            Some(i) => 0 <= i < fields@.len() && first_field_by_var(fields@, v as int, 0)
                == Some(fields@[i as int]),
            None => first_field_by_var(fields@, v as int, 0) is None,
        },
{
    let mut i: usize = 0;
    while i < fields.len()
        invariant
            i <= fields@.len(),
            first_field_by_var(fields@, v as int, 0) == first_field_by_var(
                fields@,
                v as int,
                i as int,
            ),
        decreases fields@.len() - i,
    {
        if fields[i].var_id == v {
            return Some(i);
        }
        i += 1;
    }
    None
}

/// The built-in C++ backend; stateless.
#[derive(Debug, PartialEq)]
pub struct CppBackend;

impl CppBackend {
    /// A fresh backend value.
    pub fn new() -> (r: CppBackend)
        ensures
            r == CppBackend,
    {
        CppBackend
    }

    /// The registry name of this backend.
    pub fn name(&self) -> (r: &'static str)
        ensures
            r@ == "cpp"@,
    {
        "cpp"
    }

    /// One emitted enum declaration.
    #[verifier::loop_isolation(false)]
    pub fn generate_enum(&self, enum_def: &HirEnum) -> (r: String)
        ensures
            r@ == enum_text(*enum_def),
    {
        let mut s = String::from_str("enum class ");
        s.append(enum_def.name.as_str());
        s.append(" : ");
        let ut = match enum_def.underlying_type {
            HirPrimitiveType::U8 => "uint8_t",
            HirPrimitiveType::U16 => "uint16_t",
            HirPrimitiveType::U32 => "uint32_t",
            HirPrimitiveType::U64 => "uint64_t",
            HirPrimitiveType::I8 => "int8_t",
            HirPrimitiveType::I16 => "int16_t",
            HirPrimitiveType::I32 => "int32_t",
            HirPrimitiveType::I64 => "int64_t",
        };
        s.append(ut);
        s.append(" {\n");
        let ghost acc0 = s@;
        let mut i: usize = 0;
        while i < enum_def.values.len()
            invariant
                i <= enum_def.values@.len(),
                enum_values_text(enum_def.values@, i as int, s@) == enum_values_text(
                    enum_def.values@,
                    0,
                    acc0,
                ),
            decreases enum_def.values@.len() - i,
        {
            if i > 0 {
                s.append(",\n");
            }
            s.append("    ");
            s.append(enum_def.values[i].name.as_str());
            s.append(" = ");
            let d = crate::strutil::i64_to_string(enum_def.values[i].value);
            s.append(d.as_str());
            i += 1;
        }
        s.append("\n};\n\n");
        s
    }

    /// The C++ type for the text form of an LIR field type.
    #[verifier::loop_isolation(false)]
    pub fn lir_type_to_cpp_type(&self, type_str: &str) -> (r: String)
        ensures
            r@ == cpp_type_text(type_str@),
        decreases type_str@.len(),
    {
        proof {
            reveal_strlit("str(");
            assert("str("@.len() == 4);
        }
        let cs = crate::strutil::chars_of(type_str);
        let n = cs.len();
        let is_str_prefix = n >= 4 && cs[0] == 's' && cs[1] == 't' && cs[2] == 'r' && cs[3] == '(';
        proof {
            if n >= 4 {
                assert(type_str@.subrange(0, 4) =~= "str("@ <==> (type_str@[0] == 's'
                    && type_str@[1] == 't' && type_str@[2] == 'r' && type_str@[3] == '(')) by {
                    if type_str@.subrange(0, 4) == "str("@ {
                        assert(type_str@.subrange(0, 4)[0] == 's');
                        assert(type_str@.subrange(0, 4)[1] == 't');
                        assert(type_str@.subrange(0, 4)[2] == 'r');
                        assert(type_str@.subrange(0, 4)[3] == '(');
                    }
                }
            }
        }
        if str_eq(type_str, "cstr") || is_str_prefix {
            return String::from_str("std::string");
        }
        let mut b: usize = 0;
        while b < n && cs[b] != '['
            invariant
                b <= n,
                n == type_str@.len(),
                cs@ == type_str@,
                crate::topo_sort::first_bracket(type_str@, 0) == crate::topo_sort::first_bracket(
                    type_str@,
                    b as int,
                ),
            decreases n - b,
        {
            b += 1;
        }
        if b < n {
            if cs[n - 1] != ']' {
                return String::from_str(type_str);
            }
            let mut elemv: Vec<char> = Vec::new();
            let mut i: usize = 0;
            while i < b
                invariant
                    i <= b <= n,
                    cs@ == type_str@,
                    n == type_str@.len(),
                    elemv@ == type_str@.subrange(0, i as int),
                decreases b - i,
            {
                elemv.push(cs[i]);
                proof {
                    assert(elemv@ =~= type_str@.subrange(0, i + 1 as int));
                }
                i += 1;
            }
            let mut sizev: Vec<char> = Vec::new();
            let mut j: usize = b + 1;
            while j < n - 1
                invariant
                    b + 1 <= j <= n - 1,
                    cs@ == type_str@,
                    n == type_str@.len(),
                    sizev@ == type_str@.subrange(b + 1 as int, j as int),
                decreases n - 1 - j,
            {
                sizev.push(cs[j]);
                proof {
                    assert(sizev@ =~= type_str@.subrange(b + 1 as int, j + 1 as int));
                }
                j += 1;
            }
            let elem_s = crate::strutil::string_from_chars(&elemv);
            proof {
                assert(elem_s@ =~= type_str@.take(b as int));
            }
            if str_eq(elem_s.as_str(), "str") {
                return String::from_str("std::string");
            }
            let ce = self.lir_type_to_cpp_type(elem_s.as_str());
            match crate::parser::parse_usize_chars(&sizev) {
                Some(sz) => {
                    let mut s = String::from_str("std::array<");
                    s.append(ce.as_str());
                    s.append(", ");
                    let d = crate::strutil::usize_to_string(sz);
                    s.append(d.as_str());
                    s.append(">");
                    s
                },
                None => {
                    let mut s = String::from_str("std::vector<");
                    s.append(ce.as_str());
                    s.append(">");
                    s
                },
            }
        } else {
            if str_eq(type_str, "u8") {
                String::from_str("uint8_t")
            } else if str_eq(type_str, "u16") {
                String::from_str("uint16_t")
            } else if str_eq(type_str, "u32") {
                String::from_str("uint32_t")
            } else if str_eq(type_str, "u64") {
                String::from_str("uint64_t")
            } else if str_eq(type_str, "i8") {
                String::from_str("int8_t")
            } else if str_eq(type_str, "i16") {
                String::from_str("int16_t")
            } else if str_eq(type_str, "i32") {
                String::from_str("int32_t")
            } else if str_eq(type_str, "i64") {
                String::from_str("int64_t")
            } else {
                String::from_str(type_str)
            }
        }
    }

    /// The name/type pairs of a struct declaration.
    #[verifier::loop_isolation(false)]
    pub fn extract_fields(&self, lir_type: &LirType) -> (r: Vec<(String, String)>)
        ensures
            view_field_pairs(r@) == cpp_field_pairs(lir_type.fields@, 0, Seq::empty()),
    {
        let mut out: Vec<(String, String)> = Vec::new();
        proof {
            assert(view_field_pairs(out@) =~= Seq::<(Seq<char>, Seq<char>)>::empty());
        }
        let mut i: usize = 0;
        while i < lir_type.fields.len()
            invariant
                i <= lir_type.fields@.len(),
                cpp_field_pairs(lir_type.fields@, i as int, view_field_pairs(out@))
                    == cpp_field_pairs(lir_type.fields@, 0, Seq::empty()),
            decreases lir_type.fields@.len() - i,
        {
            let nm = lir_type.fields[i].name.clone();
            let ty = self.lir_type_to_cpp_type(lir_type.fields[i].type_info.as_str());
            let ghost o0 = view_field_pairs(out@);
            proof {
                assert(view_field_pairs(out@.push((nm, ty))) =~= o0.push((nm@, ty@)));
            }
            out.push((nm, ty));
            i += 1;
        }
        out
    }

    /// The variable-to-field-name map of a type's fields.
    #[verifier::loop_isolation(false)]
    pub fn build_var_to_field_map(&self, fields: &Vec<LirField>) -> (r: Vec<(VarId, String)>)
        ensures
            view_vmap(r@) == build_vmap(fields@, 0, Seq::empty()),
    {
        let mut out: Vec<(VarId, String)> = Vec::new();
        proof {
            assert(view_vmap(out@) =~= Seq::<(VarId, Seq<char>)>::empty());
        }
        let mut i: usize = 0;
        while i < fields.len()
            invariant
                i <= fields@.len(),
                build_vmap(fields@, i as int, view_vmap(out@)) == build_vmap(
                    fields@,
                    0,
                    Seq::empty(),
                ),
            decreases fields@.len() - i,
        {
            let nm = fields[i].name.clone();
            proof {
                lemma_view_vmap_push(out@, fields@[i as int].var_id, nm);
            }
            out.push((fields[i].var_id, nm));
            i += 1;
        }
        out
    }
}

} // verus!
verus! {

impl CppBackend {
    /// The emitted check for one assertion.
    #[verifier::loop_isolation(false)]
    #[verifier::rlimit(100)]
    pub fn generate_assertion_check(&self, field_name: &str, assertion: &HirAssertion) -> (r:
        String)
        ensures
            r@ == assertion_check_text(field_name@, *assertion),
    {
        match assertion {
            HirAssertion::Equals(av) => match av {
                HirAssertValue::Int(v) => {
                    let mut s = String::from_str("    if (result.");
                    s.append(field_name);
                    s.append(" != ");
                    let d = crate::strutil::i64_to_string(*v);
                    s.append(d.as_str());
                    s.append(") {\n");
                    s.append("        throw ParseError(\"Field '");
                    s.append(field_name);
                    s.append("' must equal ");
                    s.append(d.as_str());
                    s.append(", got \" + std::to_string(result.");
                    s.append(field_name);
                    s.append("));\n");
                    s.append("    }\n");
                    s
                },
                HirAssertValue::IntArray(vs) => {
                    let mut s = String::from_str("    {\n");
                    s.append("        std::array<uint8_t, ");
                    let d = crate::strutil::usize_to_string(vs.len());
                    s.append(d.as_str());
                    s.append("> expected = {");
                    let ghost acc0 = s@;
                    let mut i: usize = 0;
                    while i < vs.len()
                        invariant
                            i <= vs@.len(),
                            int_join(vs@, i as int, s@) == int_join(vs@, 0, acc0),
                        decreases vs@.len() - i,
                    {
                        if i > 0 {
                            s.append(", ");
                        }
                        let e = crate::strutil::i64_to_string(vs[i]);
                        s.append(e.as_str());
                        i += 1;
                    }
                    s.append("};\n");
                    s.append("        if (!std::equal(result.");
                    s.append(field_name);
                    s.append(".begin(), result.");
                    s.append(field_name);
                    s.append(".end(), expected.begin())) {\n");
                    s.append("            throw ParseError(\"Field '");
                    s.append(field_name);
                    s.append("' does not match expected value\");\n");
                    s.append("        }\n");
                    s.append("    }\n");
                    s
                },
            },
            HirAssertion::NotEquals(av) => match av {
                HirAssertValue::Int(v) => {
                    let mut s = String::from_str("    if (result.");
                    s.append(field_name);
                    s.append(" == ");
                    let d = crate::strutil::i64_to_string(*v);
                    s.append(d.as_str());
                    s.append(") {\n");
                    s.append("        throw ParseError(\"Field '");
                    s.append(field_name);
                    s.append("' must not equal ");
                    s.append(d.as_str());
                    s.append("\");\n");
                    s.append("    }\n");
                    s
                },
                HirAssertValue::IntArray(vs) => {
                    let mut s = String::from_str("    {\n");
                    s.append("        std::array<uint8_t, ");
                    let d = crate::strutil::usize_to_string(vs.len());
                    s.append(d.as_str());
                    s.append("> forbidden = {");
                    let ghost acc0 = s@;
                    let mut i: usize = 0;
                    while i < vs.len()
                        invariant
                            i <= vs@.len(),
                            int_join(vs@, i as int, s@) == int_join(vs@, 0, acc0),
                        decreases vs@.len() - i,
                    {
                        if i > 0 {
                            s.append(", ");
                        }
                        let e = crate::strutil::i64_to_string(vs[i]);
                        s.append(e.as_str());
                        i += 1;
                    }
                    s.append("};\n");
                    s.append("        if (std::equal(result.");
                    s.append(field_name);
                    s.append(".begin(), result.");
                    s.append(field_name);
                    s.append(".end(), forbidden.begin())) {\n");
                    s.append("            throw ParseError(\"Field '");
                    s.append(field_name);
                    s.append("' must not match forbidden value\");\n");
                    s.append("        }\n");
                    s.append("    }\n");
                    s
                },
            },
            HirAssertion::GreaterThan(t) => {
                let mut s = String::from_str("    if (result.");
                s.append(field_name);
                s.append(" <= ");
                let d = crate::strutil::i64_to_string(*t);
                s.append(d.as_str());
                s.append(") {\n");
                s.append("        throw ParseError(\"Field '");
                s.append(field_name);
                s.append("' must be greater than ");
                s.append(d.as_str());
                s.append(", got \" + std::to_string(result.");
                s.append(field_name);
                s.append("));\n");
                s.append("    }\n");
                s
            },
            HirAssertion::GreaterOrEqual(t) => {
                let mut s = String::from_str("    if (result.");
                s.append(field_name);
                s.append(" < ");
                let d = crate::strutil::i64_to_string(*t);
                s.append(d.as_str());
                s.append(") {\n");
                s.append("        throw ParseError(\"Field '");
                s.append(field_name);
                s.append("' must be >= ");
                s.append(d.as_str());
                s.append(", got \" + std::to_string(result.");
                s.append(field_name);
                s.append("));\n");
                s.append("    }\n");
                s
            },
            HirAssertion::LessThan(t) => {
                let mut s = String::from_str("    if (result.");
                s.append(field_name);
                s.append(" >= ");
                let d = crate::strutil::i64_to_string(*t);
                s.append(d.as_str());
                s.append(") {\n");
                s.append("        throw ParseError(\"Field '");
                s.append(field_name);
                s.append("' must be less than ");
                s.append(d.as_str());
                s.append(", got \" + std::to_string(result.");
                s.append(field_name);
                s.append("));\n");
                s.append("    }\n");
                s
            },
            HirAssertion::LessOrEqual(t) => {
                let mut s = String::from_str("    if (result.");
                s.append(field_name);
                s.append(" > ");
                let d = crate::strutil::i64_to_string(*t);
                s.append(d.as_str());
                s.append(") {\n");
                s.append("        throw ParseError(\"Field '");
                s.append(field_name);
                s.append("' must be <= ");
                s.append(d.as_str());
                s.append(", got \" + std::to_string(result.");
                s.append(field_name);
                s.append("));\n");
                s.append("    }\n");
                s
            },
            HirAssertion::In(vs) => {
                let mut s = String::from_str("    {\n");
                s.append("        std::array<int64_t, ");
                let d = crate::strutil::usize_to_string(vs.len());
                s.append(d.as_str());
                s.append("> allowed = {");
                let ghost acc0 = s@;
                let mut i: usize = 0;
                while i < vs.len()
                    invariant
                        i <= vs@.len(),
                        int_join(vs@, i as int, s@) == int_join(vs@, 0, acc0),
                    decreases vs@.len() - i,
                {
                    if i > 0 {
                        s.append(", ");
                    }
                    let e = crate::strutil::i64_to_string(vs[i]);
                    s.append(e.as_str());
                    i += 1;
                }
                s.append("};\n");
                s.append("        if (std::find(allowed.begin(), allowed.end(), result.");
                s.append(field_name);
                s.append(") == allowed.end()) {\n");
                s.append("            throw ParseError(\"Field '");
                s.append(field_name);
                s.append("' has invalid value \" + std::to_string(result.");
                s.append(field_name);
                s.append("));\n");
                s.append("        }\n");
                s.append("    }\n");
                s
            },
            HirAssertion::NotIn(vs) => {
                let mut s = String::from_str("    {\n");
                s.append("        std::array<int64_t, ");
                let d = crate::strutil::usize_to_string(vs.len());
                s.append(d.as_str());
                s.append("> forbidden = {");
                let ghost acc0 = s@;
                let mut i: usize = 0;
                while i < vs.len()
                    invariant
                        i <= vs@.len(),
                        int_join(vs@, i as int, s@) == int_join(vs@, 0, acc0),
                    decreases vs@.len() - i,
                {
                    if i > 0 {
                        s.append(", ");
                    }
                    let e = crate::strutil::i64_to_string(vs[i]);
                    s.append(e.as_str());
                    i += 1;
                }
                s.append("};\n");
                s.append("        if (std::find(forbidden.begin(), forbidden.end(), result.");
                s.append(field_name);
                s.append(") != forbidden.end()) {\n");
                s.append("            throw ParseError(\"Field '");
                s.append(field_name);
                s.append("' has forbidden value \" + std::to_string(result.");
                s.append(field_name);
                s.append("));\n");
                s.append("        }\n");
                s.append("    }\n");
                s
            },
            HirAssertion::Range { min, max } => {
                let mut s = String::from_str("    if (result.");
                s.append(field_name);
                s.append(" < ");
                let dmin = crate::strutil::i64_to_string(*min);
                s.append(dmin.as_str());
                s.append(" || result.");
                s.append(field_name);
                s.append(" > ");
                let dmax = crate::strutil::i64_to_string(*max);
                s.append(dmax.as_str());
                s.append(") {\n");
                s.append("        throw ParseError(\"Field '");
                s.append(field_name);
                s.append("' must be in range [");
                s.append(dmin.as_str());
                s.append(", ");
                s.append(dmax.as_str());
                s.append("], got \" + std::to_string(result.");
                s.append(field_name);
                s.append("));\n");
                s.append("    }\n");
                s
            },
        }
    }
}

} // verus!
verus! {

impl CppBackend {
    fn append_assertion(&self, code: &mut String, fields: &Vec<LirField>, dest: VarId)
        ensures
            final(code)@ == assertion_suffix(fields@, dest as int, old(code)@),
    {
        match first_field_idx(fields, dest) {
            Some(i) => {
                match &fields[i].assertion {
                    Some(a) => {
                        let chk = self.generate_assertion_check(fields[i].name.as_str(), a);
                        code.append(chk.as_str());
                    },
                    None => {},
                }
            },
            None => {},
        }
    }

    /// The reader call of one element operation.
    pub fn generate_array_element_read(&self, op: &LirOperation, endianness: Endianness) -> (r:
        String)
        ensures
            r@ == element_read_text(*op, endianness),
    {
        let sfx = match endianness {
            Endianness::Big => "_be",
            _ => "_le",
        };
        match op {
            LirOperation::ReadU8 { .. } => String::from_str("reader.read_le<uint8_t>()"),
            LirOperation::ReadU16 { .. } => {
                let mut s = String::from_str("reader.read");
                s.append(sfx);
                s.append("<uint16_t>()");
                s
            },
            LirOperation::ReadU32 { .. } => {
                let mut s = String::from_str("reader.read");
                s.append(sfx);
                s.append("<uint32_t>()");
                s
            },
            LirOperation::ReadU64 { .. } => {
                let mut s = String::from_str("reader.read");
                s.append(sfx);
                s.append("<uint64_t>()");
                s
            },
            LirOperation::ReadI8 { .. } => String::from_str("reader.read_le<int8_t>()"),
            LirOperation::ReadI16 { .. } => {
                let mut s = String::from_str("reader.read");
                s.append(sfx);
                s.append("<int16_t>()");
                s
            },
            LirOperation::ReadI32 { .. } => {
                let mut s = String::from_str("reader.read");
                s.append(sfx);
                s.append("<int32_t>()");
                s
            },
            LirOperation::ReadI64 { .. } => {
                let mut s = String::from_str("reader.read");
                s.append(sfx);
                s.append("<int64_t>()");
                s
            },
            LirOperation::ReadStruct { struct_name: tn, .. } => {
                let mut s = tn.clone();
                s.append("::read(reader)");
                s
            },
            _ => String::from_str("/* unsupported */"),
        }
    }

    fn prim_read_assign_exec(
        &self,
        vmap: &Vec<(VarId, String)>,
        fields: &Vec<LirField>,
        enums: &Vec<HirEnum>,
        dest: VarId,
        endianness: Endianness,
        op: &LirOperation,
    ) -> (r: String)
        ensures
            r@ == prim_read_assign(
                view_vmap(vmap@),
                fields@,
                enums@,
                dest as int,
                endianness,
                *op,
            ),
    {
        let f = vmap_get(vmap, dest, "unknown");
        let call = self.generate_array_element_read(op, endianness);
        let mut cast: Option<String> = None;
        if vmap_has(vmap, dest) {
            match first_field_idx(fields, dest) {
                Some(i) => {
                    if enum_named_exec(enums, fields[i].type_info.as_str()).is_some() {
                        cast = Some(fields[i].type_info.clone());
                    }
                },
                None => {},
            }
        }
        let mut s = String::from_str("    result.");
        s.append(f.as_str());
        match cast {
            Some(en) => {
                s.append(" = static_cast<");
                s.append(en.as_str());
                s.append(">(");
                s.append(call.as_str());
                s.append(");\n");
            },
            None => {
                s.append(" = ");
                s.append(call.as_str());
                s.append(";\n");
            },
        }
        self.append_assertion(&mut s, fields, dest);
        s
    }
}

} // verus!
verus! {

impl CppBackend {
    /// The emitted code of one read operation.
    #[verifier::loop_isolation(false)]
    #[verifier::rlimit(100)]
    pub fn generate_read_operation(
        &self,
        op: &LirOperation,
        var_to_field: &Vec<(VarId, String)>,
        fields: &Vec<LirField>,
        enums: &Vec<HirEnum>,
        endianness: Endianness,
    ) -> (r: String)
        ensures
            r@ == read_op_text(*op, view_vmap(var_to_field@), fields@, enums@, endianness),
    {
        match op {
            LirOperation::ReadU8 { dest } => self.prim_read_assign_exec(
                var_to_field,
                fields,
                enums,
                *dest,
                endianness,
                op,
            ),
            LirOperation::ReadU16 { dest, .. } => self.prim_read_assign_exec(
                var_to_field,
                fields,
                enums,
                *dest,
                endianness,
                op,
            ),
            LirOperation::ReadU32 { dest, .. } => self.prim_read_assign_exec(
                var_to_field,
                fields,
                enums,
                *dest,
                endianness,
                op,
            ),
            LirOperation::ReadU64 { dest, .. } => self.prim_read_assign_exec(
                var_to_field,
                fields,
                enums,
                *dest,
                endianness,
                op,
            ),
            LirOperation::ReadI8 { dest } => self.prim_read_assign_exec(
                var_to_field,
                fields,
                enums,
                *dest,
                endianness,
                op,
            ),
            LirOperation::ReadI16 { dest, .. } => self.prim_read_assign_exec(
                var_to_field,
                fields,
                enums,
                *dest,
                endianness,
                op,
            ),
            LirOperation::ReadI32 { dest, .. } => self.prim_read_assign_exec(
                var_to_field,
                fields,
                enums,
                *dest,
                endianness,
                op,
            ),
            LirOperation::ReadI64 { dest, .. } => self.prim_read_assign_exec(
                var_to_field,
                fields,
                enums,
                *dest,
                endianness,
                op,
            ),
            LirOperation::ReadArray { dest, element_op, count } => {
                let f = vmap_get(var_to_field, *dest, "unknown");
                let mut s = String::from_str("    for (size_t i = 0; i < ");
                let d = crate::strutil::usize_to_string(*count);
                s.append(d.as_str());
                s.append("; ++i) {\n");
                s.append("        result.");
                s.append(f.as_str());
                s.append("[i] = ");
                let er = self.generate_array_element_read(&**element_op, endianness);
                s.append(er.as_str());
                s.append(";\n");
                s.append("    }\n");
                self.append_assertion(&mut s, fields, *dest);
                s
            },
            LirOperation::ReadDynamicArray { dest, element_op, size_var } => {
                let f = vmap_get(var_to_field, *dest, "unknown");
                let sf = vmap_get(var_to_field, *size_var, "unknown_size");
                let mut s = String::from_str("    result.");
                s.append(f.as_str());
                s.append(".resize(result.");
                s.append(sf.as_str());
                s.append(");\n");
                s.append("    for (size_t i = 0; i < result.");
                s.append(sf.as_str());
                s.append("; ++i) {\n");
                s.append("        result.");
                s.append(f.as_str());
                s.append("[i] = ");
                let er = self.generate_array_element_read(&**element_op, endianness);
                s.append(er.as_str());
                s.append(";\n");
                s.append("    }\n");
                s
            },
            LirOperation::ReadUntilEofArray { dest, element_op } => {
                let f = vmap_get(var_to_field, *dest, "unknown");
                let mut s = String::from_str("    while (reader.remaining() > 0) {\n");
                s.append("        result.");
                s.append(f.as_str());
                s.append(".push_back(");
                let er = self.generate_array_element_read(&**element_op, endianness);
                s.append(er.as_str());
                s.append(");\n");
                s.append("    }\n");
                s
            },
            LirOperation::ReadUntilConditionArray { dest, element_op, condition } => {
                let f = vmap_get(var_to_field, *dest, "unknown");
                let mut s = String::from_str("    do {\n");
                s.append("        result.");
                s.append(f.as_str());
                s.append(".push_back(");
                let er = self.generate_array_element_read(&**element_op, endianness);
                s.append(er.as_str());
                s.append(");\n");
                s.append("    } while (");
                s.append("!");
                let mut scope = String::from_str("result.");
                scope.append(f.as_str());
                let cond = generate_expr(condition, scope.as_str());
                s.append(cond.as_str());
                s.append(");\n");
                s
            },
            LirOperation::ReadStruct { dest, struct_name: tn } => {
                let f = vmap_get(var_to_field, *dest, "unknown");
                let mut s = String::from_str("    result.");
                s.append(f.as_str());
                s.append(" = ");
                s.append(tn.as_str());
                s.append("::read(reader);\n");
                s
            },
            LirOperation::ReadFixedString { dest, length } => {
                let f = vmap_get(var_to_field, *dest, "unknown");
                let d = crate::strutil::usize_to_string(*length);
                let mut s = String::from_str("    {\n");
                s.append("        std::vector<uint8_t> bytes(");
                s.append(d.as_str());
                s.append(");\n");
                s.append("        for (size_t i = 0; i < ");
                s.append(d.as_str());
                s.append("; ++i) {\n");
                s.append("            bytes[i] = reader.read_le<uint8_t>();\n");
                s.append("        }\n");
                s.append("        result.");
                s.append(f.as_str());
                s.append(
                    " = std::string(reinterpret_cast<const char*>(bytes.data()), bytes.size());\n",
                );
                s.append("    }\n");
                self.append_assertion(&mut s, fields, *dest);
                s
            },
            LirOperation::ReadNullTerminatedString { dest } => {
                let f = vmap_get(var_to_field, *dest, "unknown");
                let mut s = String::from_str("    {\n");
                s.append("        std::vector<uint8_t> bytes;\n");
                s.append("        uint8_t byte;\n");
                s.append("        while ((byte = reader.read_le<uint8_t>()) != 0) {\n");
                s.append("            bytes.push_back(byte);\n");
                s.append("        }\n");
                s.append("        result.");
                s.append(f.as_str());
                s.append(
                    " = std::string(reinterpret_cast<const char*>(bytes.data()), bytes.size());\n",
                );
                s.append("    }\n");
                self.append_assertion(&mut s, fields, *dest);
                s
            },
            LirOperation::ReadLengthPrefixedString { dest, length_var } => {
                let f = vmap_get(var_to_field, *dest, "unknown");
                let lf = vmap_get(var_to_field, *length_var, "unknown");
                let mut s = String::from_str("    {\n");
                s.append("        std::vector<uint8_t> bytes(result.");
                s.append(lf.as_str());
                s.append(");\n");
                s.append("        for (size_t i = 0; i < result.");
                s.append(lf.as_str());
                s.append("; ++i) {\n");
                s.append("            bytes[i] = reader.read_le<uint8_t>();\n");
                s.append("        }\n");
                s.append("        result.");
                s.append(f.as_str());
                s.append(
                    " = std::string(reinterpret_cast<const char*>(bytes.data()), bytes.size());\n",
                );
                s.append("    }\n");
                self.append_assertion(&mut s, fields, *dest);
                s
            },
            _ => String::new(),
        }
    }

    /// The writer call of one element operation.
    pub fn generate_array_element_write(
        &self,
        op: &LirOperation,
        field_name: &str,
        endianness: Endianness,
    ) -> (r: String)
        ensures
            r@ == element_write_text(*op, field_name@, endianness),
    {
        let sfx = match endianness {
            Endianness::Big => "_be",
            _ => "_le",
        };
        match op {
            LirOperation::WriteU8 { .. } => {
                let mut s = String::from_str("writer.write_le(");
                s.append(field_name);
                s.append("[i])");
                s
            },
            LirOperation::WriteI8 { .. } => {
                let mut s = String::from_str("writer.write_le(");
                s.append(field_name);
                s.append("[i])");
                s
            },
            LirOperation::WriteU16 { .. } | LirOperation::WriteU32 { .. }
                | LirOperation::WriteU64 { .. } | LirOperation::WriteI16 { .. }
                | LirOperation::WriteI32 { .. } | LirOperation::WriteI64 { .. } => {
                let mut s = String::from_str("writer.write");
                s.append(sfx);
                s.append("(");
                s.append(field_name);
                s.append("[i])");
                s
            },
            LirOperation::WriteStruct { .. } => {
                let mut s = String::from_str(field_name);
                s.append("[i].write(writer)");
                s
            },
            _ => String::from_str("/* unsupported */"),
        }
    }

    #[verifier::loop_isolation(false)]
    fn cast_arg_exec(
        &self,
        vmap: &Vec<(VarId, String)>,
        fields: &Vec<LirField>,
        enums: &Vec<HirEnum>,
        src: VarId,
        ty: &str,
    ) -> (r: String)
        ensures
            r@ == cast_arg(view_vmap(vmap@), fields@, enums@, src as int, ty@),
    {
        let f = vmap_get(vmap, src, "unknown");
        let mut i: usize = 0;
        let mut hit: Option<usize> = None;
        while i < fields.len() && hit.is_none()
            invariant
                i <= fields@.len(),
                hit is None ==> first_field_named(fields@, f@, 0) == first_field_named(
                    fields@,
                    f@,
                    i as int,
                ),
                match hit {
                    Some(k) => 0 <= k < fields@.len() && first_field_named(fields@, f@, 0)
                        == Some(fields@[k as int]),
                    None => true,
                },
            decreases fields@.len() - i, (if hit is Some { 0int } else { 1int }),
        {
            if str_eq(fields[i].name.as_str(), f.as_str()) {
                hit = Some(i);
            } else {
                i += 1;
            }
        }
        match hit {
            Some(k) => {
                if enum_named_exec(enums, fields[k].type_info.as_str()).is_some() {
                    let mut s = String::from_str("static_cast<");
                    s.append(ty);
                    s.append(">(");
                    s.append(f.as_str());
                    s.append(")");
                    s
                } else {
                    f
                }
            },
            None => f,
        }
    }

    /// The emitted code of one write operation.
    #[verifier::loop_isolation(false)]
    #[verifier::rlimit(100)]
    pub fn generate_write_operation(
        &self,
        op: &LirOperation,
        var_to_field: &Vec<(VarId, String)>,
        fields: &Vec<LirField>,
        enums: &Vec<HirEnum>,
        endianness: Endianness,
    ) -> (r: String)
        ensures
            r@ == write_op_text(*op, view_vmap(var_to_field@), fields@, enums@, endianness),
    {
        let sfx = match endianness {
            Endianness::Big => "_be",
            _ => "_le",
        };
        match op {
            LirOperation::WriteU8 { src } => {
                let arg = self.cast_arg_exec(var_to_field, fields, enums, *src, "uint8_t");
                let mut s = String::from_str("    writer.write_le(");
                s.append(arg.as_str());
                s.append(");\n");
                s
            },
            LirOperation::WriteI8 { src } => {
                let arg = self.cast_arg_exec(var_to_field, fields, enums, *src, "int8_t");
                let mut s = String::from_str("    writer.write_le(");
                s.append(arg.as_str());
                s.append(");\n");
                s
            },
            LirOperation::WriteU16 { src, .. } => {
                let arg = self.cast_arg_exec(var_to_field, fields, enums, *src, "uint16_t");
                let mut s = String::from_str("    writer.write");
                s.append(sfx);
                s.append("(");
                s.append(arg.as_str());
                s.append(");\n");
                s
            },
            LirOperation::WriteU32 { src, .. } => {
                let arg = self.cast_arg_exec(var_to_field, fields, enums, *src, "uint32_t");
                let mut s = String::from_str("    writer.write");
                s.append(sfx);
                s.append("(");
                s.append(arg.as_str());
                s.append(");\n");
                s
            },
            LirOperation::WriteU64 { src, .. } => {
                let arg = self.cast_arg_exec(var_to_field, fields, enums, *src, "uint64_t");
                let mut s = String::from_str("    writer.write");
                s.append(sfx);
                s.append("(");
                s.append(arg.as_str());
                s.append(");\n");
                s
            },
            LirOperation::WriteI16 { src, .. } => {
                let arg = self.cast_arg_exec(var_to_field, fields, enums, *src, "int16_t");
                let mut s = String::from_str("    writer.write");
                s.append(sfx);
                s.append("(");
                s.append(arg.as_str());
                s.append(");\n");
                s
            },
            LirOperation::WriteI32 { src, .. } => {
                let arg = self.cast_arg_exec(var_to_field, fields, enums, *src, "int32_t");
                let mut s = String::from_str("    writer.write");
                s.append(sfx);
                s.append("(");
                s.append(arg.as_str());
                s.append(");\n");
                s
            },
            LirOperation::WriteI64 { src, .. } => {
                let arg = self.cast_arg_exec(var_to_field, fields, enums, *src, "int64_t");
                let mut s = String::from_str("    writer.write");
                s.append(sfx);
                s.append("(");
                s.append(arg.as_str());
                s.append(");\n");
                s
            },
            LirOperation::WriteArray { src, element_op, count } => {
                let f = vmap_get(var_to_field, *src, "unknown");
                let mut s = String::from_str("    for (size_t i = 0; i < ");
                let d = crate::strutil::usize_to_string(*count);
                s.append(d.as_str());
                s.append("; ++i) {\n");
                s.append("        ");
                let ew = self.generate_array_element_write(&**element_op, f.as_str(), endianness);
                s.append(ew.as_str());
                s.append(";\n");
                s.append("    }\n");
                s
            },
            LirOperation::WriteDynamicArray { src, element_op, size_field_name, .. } => {
                let f = vmap_get(var_to_field, *src, "unknown");
                let mut s = String::from_str("    for (size_t i = 0; i < ");
                s.append(size_field_name.as_str());
                s.append("; ++i) {\n");
                s.append("        ");
                let ew = self.generate_array_element_write(&**element_op, f.as_str(), endianness);
                s.append(ew.as_str());
                s.append(";\n");
                s.append("    }\n");
                s
            },
            LirOperation::WriteUntilEofArray { src, element_op } => {
                let f = vmap_get(var_to_field, *src, "unknown");
                let mut s = String::from_str("    for (size_t i = 0; i < ");
                s.append(f.as_str());
                s.append(".size(); ++i) {\n");
                s.append("        ");
                let ew = self.generate_array_element_write(&**element_op, f.as_str(), endianness);
                s.append(ew.as_str());
                s.append(";\n");
                s.append("    }\n");
                s
            },
            LirOperation::WriteUntilConditionArray { src, element_op } => {
                let f = vmap_get(var_to_field, *src, "unknown");
                let mut s = String::from_str("    for (size_t i = 0; i < ");
                s.append(f.as_str());
                s.append(".size(); ++i) {\n");
                s.append("        ");
                let ew = self.generate_array_element_write(&**element_op, f.as_str(), endianness);
                s.append(ew.as_str());
                s.append(";\n");
                s.append("    }\n");
                s
            },
            LirOperation::WriteStruct { src, .. } => {
                let f = vmap_get(var_to_field, *src, "unknown");
                let mut s = String::from_str("    ");
                s.append(f.as_str());
                s.append(".write(writer);\n");
                s
            },
            LirOperation::WriteFixedString { src, length } => {
                let f = vmap_get(var_to_field, *src, "unknown");
                let mut s = String::from_str("    for (size_t i = 0; i < ");
                let d = crate::strutil::usize_to_string(*length);
                s.append(d.as_str());
                s.append("; ++i) {\n");
                s.append("        writer.write_le(static_cast<uint8_t>(");
                s.append(f.as_str());
                s.append(".size() > i ? ");
                s.append(f.as_str());
                s.append("[i] : 0));\n");
                s.append("    }\n");
                s
            },
            LirOperation::WriteNullTerminatedString { src } => {
                let f = vmap_get(var_to_field, *src, "unknown");
                let mut s = String::from_str("    for (size_t i = 0; i < ");
                s.append(f.as_str());
                s.append(".size(); ++i) {\n");
                s.append("        writer.write_le(static_cast<uint8_t>(");
                s.append(f.as_str());
                s.append("[i]));\n");
                s.append("    }\n");
                s.append("    writer.write_le(static_cast<uint8_t>(0));  // null terminator\n");
                s
            },
            LirOperation::WriteLengthPrefixedString { src, .. } => {
                let f = vmap_get(var_to_field, *src, "unknown");
                let mut s = String::from_str("    for (size_t i = 0; i < ");
                s.append(f.as_str());
                s.append(".size(); ++i) {\n");
                s.append("        writer.write_le(static_cast<uint8_t>(");
                s.append(f.as_str());
                s.append("[i]));\n");
                s.append("    }\n");
                s
            },
            _ => String::new(),
        }
    }
}

} // verus!
verus! {

impl CppBackend {
    /// The whole `read` implementation of one type.
    #[verifier::loop_isolation(false)]
    pub fn generate_read_impl(
        &self,
        lir_type: &LirType,
        endianness: Endianness,
        enums: &Vec<HirEnum>,
    ) -> (r: String)
        ensures
            r@ == read_impl_text(
                lir_type.name@,
                lir_type.fields@,
                lir_type.operations@,
                enums@,
                endianness,
            ),
    {
        let mut s = String::from_str("inline ");
        s.append(lir_type.name.as_str());
        s.append(" ");
        s.append(lir_type.name.as_str());
        s.append("::read(Reader& reader) {\n");
        s.append("    ");
        s.append(lir_type.name.as_str());
        s.append(" result;\n");
        let ghost acc0 = s@;
        let var_to_field = self.build_var_to_field_map(&lir_type.fields);
        let ghost m = view_vmap(var_to_field@);
        let n = lir_type.operations.len();
        let mut i: usize = 0;
        let mut scanning: bool = true;
        while scanning
            invariant
                i <= n,
                read_ops_text(lir_type.operations@, i as int, m, lir_type.fields@, enums@,
                    endianness, s@)
                    == read_ops_text(lir_type.operations@, 0, m, lir_type.fields@, enums@,
                    endianness, acc0),
                !scanning ==> read_ops_text(lir_type.operations@, i as int, m, lir_type.fields@,
                    enums@, endianness, s@) == s@,
            decreases n - i, (if scanning { 1int } else { 0int }),
        {
            if i >= n {
                scanning = false;
            } else {
                let is_create = matches!(&lir_type.operations[i], LirOperation::CreateStruct { .. });
                if is_create {
                    scanning = false;
                } else {
                    let piece = self.generate_read_operation(
                        &lir_type.operations[i],
                        &var_to_field,
                        &lir_type.fields,
                        enums,
                        endianness,
                    );
                    s.append(piece.as_str());
                    i += 1;
                }
            }
        }
        s.append("    return result;\n");
        s.append("}\n\n");
        s
    }

    /// The whole `write` implementation of one type.
    #[verifier::loop_isolation(false)]
    pub fn generate_write_impl(
        &self,
        lir_type: &LirType,
        endianness: Endianness,
        enums: &Vec<HirEnum>,
    ) -> (r: String)
        ensures
            r@ == write_impl_text(
                lir_type.name@,
                lir_type.fields@,
                lir_type.operations@,
                enums@,
                endianness,
            ),
    {
        let mut s = String::from_str("inline void ");
        s.append(lir_type.name.as_str());
        s.append("::write(Writer& writer) const {\n");
        let ghost acc0 = s@;
        let mut var_to_field: Vec<(VarId, String)> = Vec::new();
        let mut in_write_section: bool = false;
        proof {
            assert(view_vmap(var_to_field@) =~= Seq::<(VarId, Seq<char>)>::empty());
        }
        let n = lir_type.operations.len();
        let mut i: usize = 0;
        while i < n
            invariant
                i <= n,
                write_ops_text(lir_type.operations@, i as int, lir_type.fields@, enums@,
                    endianness, view_vmap(var_to_field@), in_write_section, s@)
                    == write_ops_text(lir_type.operations@, 0, lir_type.fields@, enums@,
                    endianness, Seq::empty(), false, acc0),
            decreases n - i,
        {
            let step = match &lir_type.operations[i] {
                LirOperation::AccessField { .. } => 0usize,
                _ => 1usize,
            };
            if step == 0 {
                match &lir_type.operations[i] {
                    LirOperation::AccessField { dest, field_index, .. } => {
                        if *field_index < lir_type.fields.len() {
                            let nm = lir_type.fields[*field_index].name.clone();
                            proof {
                                lemma_view_vmap_push(var_to_field@, *dest, nm);
                            }
                            var_to_field.push((*dest, nm));
                        }
                        in_write_section = true;
                    },
                    _ => {},
                }
            } else {
                if in_write_section {
                    let piece = self.generate_write_operation(
                        &lir_type.operations[i],
                        &var_to_field,
                        &lir_type.fields,
                        enums,
                        endianness,
                    );
                    s.append(piece.as_str());
                }
            }
            i += 1;
        }
        s.append("}\n\n");
        s
    }

    /// One emitted type: declaration, `read`, and `write`.
    pub fn generate_type(
        &self,
        lir_type: &LirType,
        endianness: Endianness,
        enums: &Vec<HirEnum>,
    ) -> (r: String)
        ensures
            r@ == type_text(*lir_type, endianness, enums@),
    {
        let fields = self.extract_fields(lir_type);
        let mut s = generate_struct_declaration(lir_type.name.as_str(), &fields);
        let ri = self.generate_read_impl(lir_type, endianness, enums);
        s.append(ri.as_str());
        let wi = self.generate_write_impl(lir_type, endianness, enums);
        s.append(wi.as_str());
        s
    }
}

/// The first name that two lowered types share, if any.
#[verifier::loop_isolation(false)]
fn find_dup_type_name(types: &Vec<LirType>) -> (r: Option<String>)
    ensures
        ({
            let tv = crate::seq_view::view_seq(types@);
            match r {
                None => forall|i: int, j: int| 0 <= i < j < tv.len() ==> tv[i].name != tv[j].name,
                Some(nm) => exists|i: int, j: int|
                    #![trigger tv[i].name, tv[j].name]
                    0 <= i < j < tv.len() && tv[i].name == tv[j].name && tv[j].name == nm@,
            }
        }),
{
    let ghost tv = crate::seq_view::view_seq(types@);
    proof {
        assert(tv.len() == types@.len());
    }
    let mut j: usize = 0;
    while j < types.len()
        invariant
            j <= tv.len(),
            forall|a: int, b: int| 0 <= a < b < j ==> tv[a].name != tv[b].name,
        decreases tv.len() - j,
    {
        proof {
            crate::seq_view::lemma_view_seq_index(types@, j as int);
        }
        let mut i: usize = 0;
        while i < j
            invariant
                i <= j < tv.len(),
                forall|a: int| 0 <= a < i ==> tv[a].name != tv[j as int].name,
            decreases j - i,
        {
            proof {
                crate::seq_view::lemma_view_seq_index(types@, i as int);
            }
            if str_eq(types[i].name.as_str(), types[j].name.as_str()) {
                let nm = types[j].name.clone();
                proof {
                    assert(0 <= i < j < tv.len() && tv[i as int].name == tv[j as int].name
                        && tv[j as int].name == nm@);
                    assert(exists|a: int, b: int|
                        #![trigger tv[a].name, tv[b].name]
                        0 <= a < b < tv.len() && tv[a].name == tv[b].name && tv[b].name == nm@);
                }
                return Some(nm);
            }
            i += 1;
        }
        j += 1;
    }
    None
}

/// What [`CppBackend::generate`] guarantees.  Success is possible only
/// for a resolvable endianness and pairwise distinct type names, and
/// then the one produced file carries the emitted text of a
/// topologically ordered permutation of the types; each failure kind
/// names the condition that forces it, a reference cycle with a witness
/// set.
pub open spec fn cpp_generate_post(
    lir: LirFormat,
    r: Result<GeneratedCode, BackendError>,
) -> bool {
    let tv = lir@.types;
    match r {
        Ok(code) => {
            &&& lir@.endianness != Endianness::Native
            &&& (forall|i: int, j: int| 0 <= i < j < tv.len() ==> tv[i].name != tv[j].name)
            &&& crate::seq_view::view_seq(code.files@).len() == 1
            &&& crate::seq_view::view_seq(code.files@)[0].path == crate::strutil::underscored(
                crate::strutil::lower_of(lir@.name),
            ) + ".hpp"@
            &&& exists|sorted: Seq<LirType>, en2: Seq<HirEnum>|
                {
                    &&& crate::seq_view::view_seq(en2) == lir@.enums
                    &&& crate::seq_view::view_seq(sorted).len() == tv.len()
                    &&& (forall|q: int|
                        0 <= q < tv.len() ==> #[trigger] crate::topo_sort::comes_from(
                            tv,
                            crate::seq_view::view_seq(sorted),
                            q,
                        ))
                    &&& (forall|t: int|
                        0 <= t < tv.len() ==> crate::topo_sort::type_present(
                            crate::seq_view::view_seq(sorted),
                            #[trigger] tv[t].name,
                        ))
                    &&& crate::topo_sort::topo_ordered(crate::seq_view::view_seq(sorted))
                    &&& crate::seq_view::view_seq(code.files@)[0].content == file_body_text(
                        crate::strutil::underscored(crate::strutil::lower_of(lir@.name)),
                        en2,
                        sorted,
                        lir@.endianness,
                    )
                }
        },
        Err(e) => match e@ {
            crate::registry::SpecBackendError::Unsupported(_) => lir@.endianness
                == Endianness::Native,
            crate::registry::SpecBackendError::DuplicateType(_) => !(forall|i: int, j: int|
                0 <= i < j < tv.len() ==> tv[i].name != tv[j].name),
            crate::registry::SpecBackendError::Sort(se) => se
                matches crate::topo_sort::SpecTopoSortError::CircularDependency(t) && exists|
                bad: Seq<Seq<char>>,
            |
                {
                    &&& crate::topo_sort::type_stuck_set(tv, bad)
                    &&& crate::topo_sort::type_name_selection(tv, bad)
                    &&& (forall|m1: int, m2: int|
                        0 <= m1 < m2 < bad.len() ==> bad[m1] != bad[m2])
                    &&& (forall|s2: Seq<Seq<char>>, m: int|
                        #![trigger crate::topo_sort::type_stuck_set(tv, s2), s2[m]]
                        crate::topo_sort::type_stuck_set(tv, s2) && 0 <= m < s2.len()
                            ==> bad.contains(s2[m]))
                    &&& t == crate::topo_sort::comma_join(bad, bad.len() as int)
                },
            _ => false,
        },
    }
}

impl CppBackend {
    /// Generates one C++ header for a lowered format: the types are
    /// reordered topologically, the enums and structs emitted in order,
    /// and the file named after the format, lowercased with hyphens
    /// replaced by underscores.
    #[verifier::loop_isolation(false)]
    #[verifier::rlimit(100)]
    pub fn generate(&self, lir: &LirFormat) -> (r: Result<GeneratedCode, BackendError>)
        ensures
            cpp_generate_post(*lir, r),
    {
        let is_native = matches!(lir.endianness, Endianness::Native);
        if is_native {
            return Err(
                BackendError::Unsupported(
                    String::from_str(
                        "native endianness must be resolved before generating code",
                    ),
                ),
            );
        }
        match find_dup_type_name(&lir.types) {
            Some(nm) => {
                proof {
                    let tv = lir@.types;
                    let (a, b) = choose|a: int, b: int|
                        #![trigger tv[a].name, tv[b].name]
                        0 <= a < b < tv.len() && tv[a].name == tv[b].name && tv[b].name == nm@;
                    assert(!(forall|i: int, j: int|
                        0 <= i < j < tv.len() ==> tv[i].name != tv[j].name));
                }
                return Err(BackendError::DuplicateType(nm));
            },
            None => {},
        }
        let mut lir_sorted = lir.clone();
        proof {
            assert(lir_sorted@ == lir@);
        }
        match topological_sort(&mut lir_sorted) {
            Err(e) => {
                proof {
                    match e@ {
                        crate::topo_sort::SpecTopoSortError::CircularDependency(t) => {
                            let bad = choose|bad: Seq<Seq<char>>|
                                {
                                    &&& crate::topo_sort::type_stuck_set(lir@.types, bad)
                                    &&& crate::topo_sort::type_name_selection(lir@.types, bad)
                                    &&& (forall|m1: int, m2: int|
                                        0 <= m1 < m2 < bad.len() ==> bad[m1] != bad[m2])
                                    &&& (forall|s2: Seq<Seq<char>>, m: int|
                                        #![trigger crate::topo_sort::type_stuck_set(
                                            lir@.types,
                                            s2,
                                        ), s2[m]]
                                        crate::topo_sort::type_stuck_set(lir@.types, s2) && 0 <= m
                                            < s2.len() ==> bad.contains(s2[m]))
                                    &&& t == crate::topo_sort::comma_join(
                                        bad,
                                        bad.len() as int,
                                    )
                                };
                            assert(crate::topo_sort::type_stuck_set(lir@.types, bad));
                        },
                        _ => {},
                    }
                }
                return Err(BackendError::Sort(e));
            },
            Ok(()) => {},
        }
        let low = crate::strutil::lowercase(lir_sorted.name.as_str());
        let namespace = crate::strutil::dash_to_underscore(low.as_str());
        proof {
            assert(lir_sorted@.name == lir@.name);
        }
        let mut code = generate_header_start(namespace.as_str());
        let ghost acc_enums0 = code@;
        let mut i: usize = 0;
        while i < lir_sorted.enums.len()
            invariant
                i <= lir_sorted.enums@.len(),
                enums_text(lir_sorted.enums@, i as int, code@) == enums_text(
                    lir_sorted.enums@,
                    0,
                    acc_enums0,
                ),
            decreases lir_sorted.enums@.len() - i,
        {
            let piece = self.generate_enum(&lir_sorted.enums[i]);
            code.append(piece.as_str());
            i += 1;
        }
        let ghost acc_types0 = code@;
        let mut k: usize = 0;
        while k < lir_sorted.types.len()
            invariant
                k <= lir_sorted.types@.len(),
                types_text(lir_sorted.types@, k as int, lir_sorted.endianness,
                    lir_sorted.enums@, code@)
                    == types_text(lir_sorted.types@, 0, lir_sorted.endianness,
                    lir_sorted.enums@, acc_types0),
            decreases lir_sorted.types@.len() - k,
        {
            let piece = self.generate_type(
                &lir_sorted.types[k],
                lir_sorted.endianness,
                &lir_sorted.enums,
            );
            code.append(piece.as_str());
            k += 1;
        }
        let tail = generate_header_end(namespace.as_str());
        code.append(tail.as_str());
        let low2 = crate::strutil::lowercase(lir.name.as_str());
        let mut filename = crate::strutil::dash_to_underscore(low2.as_str());
        filename.append(".hpp");
        let mut files: Vec<GeneratedFile> = Vec::new();
        files.push(GeneratedFile { path: filename, content: code });
        let out = GeneratedCode { files };
        proof {
            assert(crate::seq_view::view_seq(out.files@).len() == 1);
            assert(crate::seq_view::view_seq(out.files@)[0].path == crate::strutil::underscored(
                crate::strutil::lower_of(lir@.name),
            ) + ".hpp"@) by {
                assert(crate::seq_view::view_seq(out.files@)[0] == out.files@[0]@);
            }
            let sorted = lir_sorted.types@;
            let en2 = lir_sorted.enums@;
            assert(crate::seq_view::view_seq(out.files@)[0].content == file_body_text(
                crate::strutil::underscored(crate::strutil::lower_of(lir@.name)),
                en2,
                sorted,
                lir@.endianness,
            )) by {
                assert(crate::seq_view::view_seq(out.files@)[0] == out.files@[0]@);
                assert(namespace@ == crate::strutil::underscored(
                    crate::strutil::lower_of(lir@.name),
                ));
            }
        }
        Ok(out)
    }
}

} // verus!
