//! The canonical text exchange form of a lowered format, handed to
//! externally compiled backend modules: JSON-shaped, preserving field
//! order, operation order, variable identifiers and enum underlying
//! types.

use vstd::prelude::*;
use vstd::string::{StrSliceExecFns, StringExecFns};
use crate::expr::{ComparisonOp, Expr, IndexExpr, Literal, LogicalOp};
use crate::hir::{Endianness, HirAssertion, HirAssertValue, HirEnum, HirEnumValue,
    HirPrimitiveType};
use crate::lir::{LirField, LirFormat, LirOperation, LirType, VarId};
use crate::strutil::{dec_str, int_str};

verus! {

/// The lower hexadecimal digit for a value below sixteen.
pub open spec fn hex_char(d: int) -> char {
    if d < 10 {
        crate::strutil::digit_char(d as nat)
    } else if d == 10 {
        'a'
    } else if d == 11 {
        'b'
    } else if d == 12 {
        'c'
    } else if d == 13 {
        'd'
    } else if d == 14 {
        'e'
    } else {
        'f'
    }
}

/// The escape of one character inside a JSON string: quotes and
/// backslashes escaped, common controls named, other controls written as
/// `\u00..`.
pub open spec fn esc_char(c: char) -> Seq<char> {
    if c == '"' {
        seq!['\\', '"']
    } else if c == '\\' {
        seq!['\\', '\\']
    } else if c == '\n' {
        seq!['\\', 'n']
    } else if c == '\r' {
        seq!['\\', 'r']
    } else if c == '\t' {
        seq!['\\', 't']
    } else if (c as u32) < 32 {
        seq!['\\', 'u', '0', '0'] + seq![hex_char(((c as u32) / 16) as int)] + seq![
            hex_char(((c as u32) % 16) as int),
        ]
    } else {
        seq![c]
    }
}

/// The escaped characters of a string from index `i` on, appended to the
/// text built so far.
pub open spec fn esc_rest(s: Seq<char>, i: int, acc: Seq<char>) -> Seq<char>
    decreases s.len() - i,
{
    if i < 0 || i >= s.len() {
        acc
    } else {
        esc_rest(s, i + 1, acc + esc_char(s[i]))
    }
}

/// A JSON string literal of the given text.
pub open spec fn json_str(s: Seq<char>) -> Seq<char> {
    esc_rest(s, 0, "\""@) + "\""@
}

/// A JSON string or `null` for an optional text.
pub open spec fn json_opt_str(o: Option<Seq<char>>) -> Seq<char> {
    match o {
        Some(s) => json_str(s),
        None => "null"@,
    }
}

fn hex_char_exec(d: u32) -> (r: char)
    requires
        d < 16,
    ensures
        r == hex_char(d as int),
{
    match d {
        0 => '0',
        1 => '1',
        2 => '2',
        3 => '3',
        4 => '4',
        5 => '5',
        6 => '6',
        7 => '7',
        8 => '8',
        9 => '9',
        10 => 'a',
        11 => 'b',
        12 => 'c',
        13 => 'd',
        14 => 'e',
        _ => 'f',
    }
}

fn json_string_of(s: &str) -> (r: String)
    ensures
        r@ == json_str(s@),
{
    let cs = crate::strutil::chars_of(s);
    let mut out = String::from_str("\"");
    let mut i: usize = 0;
    while i < cs.len()
        invariant
            i <= cs@.len(),
            cs@ == s@,
            esc_rest(s@, i as int, out@) == esc_rest(s@, 0, "\""@),
        decreases cs@.len() - i,
    {
        let c = cs[i];
        let ghost pre = out@;
        if c == '"' {
            out.append("\\\"");
            proof {
                reveal_strlit("\\\"");
                assert(out@ =~= pre + esc_char(c));
            }
        } else if c == '\\' {
            out.append("\\\\");
            proof {
                reveal_strlit("\\\\");
                assert(out@ =~= pre + esc_char(c));
            }
        } else if c == '\n' {
            out.append("\\n");
            proof {
                reveal_strlit("\\n");
                assert(out@ =~= pre + esc_char(c));
            }
        } else if c == '\r' {
            out.append("\\r");
            proof {
                reveal_strlit("\\r");
                assert(out@ =~= pre + esc_char(c));
            }
        } else if c == '\t' {
            out.append("\\t");
            proof {
                reveal_strlit("\\t");
                assert(out@ =~= pre + esc_char(c));
            }
        } else if (c as u32) < 32 {
            out.append("\\u00");
            out.push(hex_char_exec((c as u32) / 16));
            out.push(hex_char_exec((c as u32) % 16));
            proof {
                reveal_strlit("\\u00");
                assert(out@ =~= pre + esc_char(c));
            }
        } else {
            out.push(c);
            proof {
                assert(out@ =~= pre + esc_char(c));
            }
        }
        i += 1;
    }
    out.append("\"");
    out
}

} // verus!
verus! {

/// The JSON name of an endianness.
pub open spec fn endianness_json(e: Endianness) -> Seq<char> {
    match e {
        Endianness::Little => "\"Little\""@,
        Endianness::Big => "\"Big\""@,
        Endianness::Native => "\"Native\""@,
    }
}

/// The JSON name of a primitive.
pub open spec fn prim_json(p: HirPrimitiveType) -> Seq<char> {
    match p {
        HirPrimitiveType::U8 => "\"U8\""@,
        HirPrimitiveType::U16 => "\"U16\""@,
        HirPrimitiveType::U32 => "\"U32\""@,
        HirPrimitiveType::U64 => "\"U64\""@,
        HirPrimitiveType::I8 => "\"I8\""@,
        HirPrimitiveType::I16 => "\"I16\""@,
        HirPrimitiveType::I32 => "\"I32\""@,
        HirPrimitiveType::I64 => "\"I64\""@,
    }
}

/// One enum value entry.
pub open spec fn enum_value_json(v: HirEnumValue) -> Seq<char> {
    "{\"name\":"@ + json_str(v.name@) + ",\"value\":"@ + int_str(v.value as int) + ",\"doc\":"@
        + json_opt_str(crate::hir::view_opt_string(v.doc)) + "}"@
}

/// The comma-joined items of a JSON array from index `i` on.
pub open spec fn enum_values_arr(vs: Seq<HirEnumValue>, i: int, acc: Seq<char>) -> Seq<char>
    decreases vs.len() - i,
{
    if i < 0 || i >= vs.len() {
        acc
    } else if i > 0 {
        enum_values_arr(vs, i + 1, acc + ","@ + enum_value_json(vs[i]))
    } else {
        enum_values_arr(vs, i + 1, acc + enum_value_json(vs[i]))
    }
}

/// One carried-through enum.
pub open spec fn henum_json(e: HirEnum) -> Seq<char> {
    "{\"name\":"@ + json_str(e.name@) + ",\"doc\":"@ + json_opt_str(
        crate::hir::view_opt_string(e.doc),
    ) + ",\"underlying_type\":"@ + prim_json(e.underlying_type) + ",\"values\":"@ + (
    enum_values_arr(e.values@, 0, "["@) + "]"@) + "}"@
}

/// A JSON array of integers.
pub open spec fn i64_arr(ns: Seq<i64>, i: int, acc: Seq<char>) -> Seq<char>
    decreases ns.len() - i,
{
    if i < 0 || i >= ns.len() {
        acc
    } else if i > 0 {
        i64_arr(ns, i + 1, acc + ","@ + int_str(ns[i] as int))
    } else {
        i64_arr(ns, i + 1, acc + int_str(ns[i] as int))
    }
}

/// An equality assertion's constant.
pub open spec fn assert_value_json(av: HirAssertValue) -> Seq<char> {
    match av {
        HirAssertValue::Int(v) => "{\"Int\":"@ + int_str(v as int) + "}"@,
        HirAssertValue::IntArray(vs) => "{\"IntArray\":"@ + (i64_arr(vs@, 0, "["@) + "]"@)
            + "}"@,
    }
}

/// One carried assertion.
pub open spec fn assertion_json(a: HirAssertion) -> Seq<char> {
    match a {
        HirAssertion::Equals(av) => "{\"Equals\":"@ + assert_value_json(av) + "}"@,
        HirAssertion::NotEquals(av) => "{\"NotEquals\":"@ + assert_value_json(av) + "}"@,
        HirAssertion::GreaterThan(t) => "{\"GreaterThan\":"@ + int_str(t as int) + "}"@,
        HirAssertion::GreaterOrEqual(t) => "{\"GreaterOrEqual\":"@ + int_str(t as int) + "}"@,
        HirAssertion::LessThan(t) => "{\"LessThan\":"@ + int_str(t as int) + "}"@,
        HirAssertion::LessOrEqual(t) => "{\"LessOrEqual\":"@ + int_str(t as int) + "}"@,
        HirAssertion::In(vs) => "{\"In\":"@ + (i64_arr(vs@, 0, "["@) + "]"@) + "}"@,
        HirAssertion::NotIn(vs) => "{\"NotIn\":"@ + (i64_arr(vs@, 0, "["@) + "]"@) + "}"@,
        HirAssertion::Range { min, max } => "{\"Range\":{\"min\":"@ + int_str(min as int)
            + ",\"max\":"@ + int_str(max as int) + "}}"@,
    }
}

/// A carried assertion or `null`.
pub open spec fn opt_assertion_json(o: Option<HirAssertion>) -> Seq<char> {
    match o {
        Some(a) => assertion_json(a),
        None => "null"@,
    }
}

/// One LIR field.
pub open spec fn lfield_json(f: LirField) -> Seq<char> {
    "{\"name\":"@ + json_str(f.name@) + ",\"doc\":"@ + json_opt_str(
        crate::hir::view_opt_string(f.doc),
    ) + ",\"var_id\":"@ + dec_str(f.var_id as nat) + ",\"type_info\":"@ + json_str(f.type_info@)
        + ",\"assertion\":"@ + opt_assertion_json(f.assertion) + "}"@
}

/// An array index.
pub open spec fn idx_json(ix: IndexExpr) -> Seq<char> {
    match ix {
        IndexExpr::Positive(n) => "{\"Positive\":"@ + dec_str(n as nat) + "}"@,
        IndexExpr::Negative(n) => "{\"Negative\":"@ + dec_str(n as nat) + "}"@,
    }
}

/// The JSON name of a comparison operator.
pub open spec fn comp_json(op: ComparisonOp) -> Seq<char> {
    match op {
        ComparisonOp::Equals => "\"Equals\""@,
        ComparisonOp::NotEquals => "\"NotEquals\""@,
        ComparisonOp::LessThan => "\"LessThan\""@,
        ComparisonOp::GreaterThan => "\"GreaterThan\""@,
        ComparisonOp::LessThanOrEqual => "\"LessThanOrEqual\""@,
        ComparisonOp::GreaterThanOrEqual => "\"GreaterThanOrEqual\""@,
    }
}

/// The JSON name of a logical operator.
pub open spec fn logic_json(op: LogicalOp) -> Seq<char> {
    match op {
        LogicalOp::And => "\"And\""@,
        LogicalOp::Or => "\"Or\""@,
    }
}

/// A JSON array of bytes.
pub open spec fn u8_arr(ns: Seq<u8>, i: int, acc: Seq<char>) -> Seq<char>
    decreases ns.len() - i,
{
    if i < 0 || i >= ns.len() {
        acc
    } else if i > 0 {
        u8_arr(ns, i + 1, acc + ","@ + dec_str(ns[i] as nat))
    } else {
        u8_arr(ns, i + 1, acc + dec_str(ns[i] as nat))
    }
}

/// A literal of the expression language.
pub open spec fn literal_json(l: Literal) -> Seq<char> {
    match l {
        Literal::Integer(v) => "{\"Integer\":"@ + int_str(v as int) + "}"@,
        Literal::ByteArray(bs) => "{\"ByteArray\":"@ + (u8_arr(bs@, 0, "["@) + "]"@) + "}"@,
        Literal::String(s) => "{\"String\":"@ + json_str(s@) + "}"@,
    }
}

/// An until-condition expression.
pub open spec fn expr_json(e: Expr) -> Seq<char>
    decreases e,
{
    match e {
        Expr::Variable(name) => "{\"Variable\":"@ + json_str(name@) + "}"@,
        Expr::FieldAccess { base, field } => "{\"FieldAccess\":{\"base\":"@ + expr_json(*base)
            + ",\"field\":"@ + json_str(field@) + "}}"@,
        Expr::ArrayIndex { array, index } => "{\"ArrayIndex\":{\"array\":"@ + expr_json(*array)
            + ",\"index\":"@ + idx_json(index) + "}}"@,
        Expr::Comparison { left, op, right } => "{\"Comparison\":{\"left\":"@ + expr_json(*left)
            + ",\"op\":"@ + comp_json(op) + ",\"right\":"@ + expr_json(*right) + "}}"@,
        Expr::Logical { left, op, right } => "{\"Logical\":{\"left\":"@ + expr_json(*left)
            + ",\"op\":"@ + logic_json(op) + ",\"right\":"@ + expr_json(*right) + "}}"@,
        Expr::Literal(lit) => "{\"Literal\":"@ + literal_json(lit) + "}"@,
    }
}

/// A JSON array of variable identifiers.
pub open spec fn var_arr(vs: Seq<VarId>, i: int, acc: Seq<char>) -> Seq<char>
    decreases vs.len() - i,
{
    if i < 0 || i >= vs.len() {
        acc
    } else if i > 0 {
        var_arr(vs, i + 1, acc + ","@ + dec_str(vs[i] as nat))
    } else {
        var_arr(vs, i + 1, acc + dec_str(vs[i] as nat))
    }
}

/// One LIR operation.
pub open spec fn op_json(op: LirOperation) -> Seq<char>
    decreases op,
{
    match op {
        LirOperation::ReadU8 { dest } => "{\"ReadU8\":{\"dest\":"@ + dec_str(dest as nat)
            + "}}"@,
        LirOperation::ReadU16 { dest, endianness } => "{\"ReadU16\":{\"dest\":"@ + dec_str(
            dest as nat,
        ) + ",\"endianness\":"@ + endianness_json(endianness) + "}}"@,
        LirOperation::ReadU32 { dest, endianness } => "{\"ReadU32\":{\"dest\":"@ + dec_str(
            dest as nat,
        ) + ",\"endianness\":"@ + endianness_json(endianness) + "}}"@,
        LirOperation::ReadU64 { dest, endianness } => "{\"ReadU64\":{\"dest\":"@ + dec_str(
            dest as nat,
        ) + ",\"endianness\":"@ + endianness_json(endianness) + "}}"@,
        LirOperation::ReadI8 { dest } => "{\"ReadI8\":{\"dest\":"@ + dec_str(dest as nat)
            + "}}"@,
        LirOperation::ReadI16 { dest, endianness } => "{\"ReadI16\":{\"dest\":"@ + dec_str(
            dest as nat,
        ) + ",\"endianness\":"@ + endianness_json(endianness) + "}}"@,
        LirOperation::ReadI32 { dest, endianness } => "{\"ReadI32\":{\"dest\":"@ + dec_str(
            dest as nat,
        ) + ",\"endianness\":"@ + endianness_json(endianness) + "}}"@,
        LirOperation::ReadI64 { dest, endianness } => "{\"ReadI64\":{\"dest\":"@ + dec_str(
            dest as nat,
        ) + ",\"endianness\":"@ + endianness_json(endianness) + "}}"@,
        LirOperation::ReadArray { dest, element_op, count } => "{\"ReadArray\":{\"dest\":"@
            + dec_str(dest as nat) + ",\"element_op\":"@ + op_json(*element_op) + ",\"count\":"@
            + dec_str(count as nat) + "}}"@,
        LirOperation::ReadDynamicArray { dest, element_op, size_var } => {
            "{\"ReadDynamicArray\":{\"dest\":"@ + dec_str(dest as nat) + ",\"element_op\":"@
                + op_json(*element_op) + ",\"size_var\":"@ + dec_str(size_var as nat) + "}}"@
        },
        LirOperation::ReadUntilEofArray { dest, element_op } => {
            "{\"ReadUntilEofArray\":{\"dest\":"@ + dec_str(dest as nat) + ",\"element_op\":"@
                + op_json(*element_op) + "}}"@
        },
        LirOperation::ReadUntilConditionArray { dest, element_op, condition } => {
            "{\"ReadUntilConditionArray\":{\"dest\":"@ + dec_str(dest as nat)
                + ",\"element_op\":"@ + op_json(*element_op) + ",\"condition\":"@ + expr_json(
                condition,
            ) + "}}"@
        },
        LirOperation::ReadFixedString { dest, length } => "{\"ReadFixedString\":{\"dest\":"@
            + dec_str(dest as nat) + ",\"length\":"@ + dec_str(length as nat) + "}}"@,
        LirOperation::ReadNullTerminatedString { dest } => {
            "{\"ReadNullTerminatedString\":{\"dest\":"@ + dec_str(dest as nat) + "}}"@
        },
        LirOperation::ReadLengthPrefixedString { dest, length_var } => {
            "{\"ReadLengthPrefixedString\":{\"dest\":"@ + dec_str(dest as nat)
                + ",\"length_var\":"@ + dec_str(length_var as nat) + "}}"@
        },
        LirOperation::ReadStruct { dest, struct_name: tn } => "{\"ReadStruct\":{\"dest\":"@
            + dec_str(dest as nat) + ",\"struct_name\":"@ + json_str(tn@) + "}}"@,
        LirOperation::WriteU8 { src } => "{\"WriteU8\":{\"src\":"@ + dec_str(src as nat) + "}}"@,
        LirOperation::WriteU16 { src, endianness } => "{\"WriteU16\":{\"src\":"@ + dec_str(
            src as nat,
        ) + ",\"endianness\":"@ + endianness_json(endianness) + "}}"@,
        LirOperation::WriteU32 { src, endianness } => "{\"WriteU32\":{\"src\":"@ + dec_str(
            src as nat,
        ) + ",\"endianness\":"@ + endianness_json(endianness) + "}}"@,
        LirOperation::WriteU64 { src, endianness } => "{\"WriteU64\":{\"src\":"@ + dec_str(
            src as nat,
        ) + ",\"endianness\":"@ + endianness_json(endianness) + "}}"@,
        LirOperation::WriteI8 { src } => "{\"WriteI8\":{\"src\":"@ + dec_str(src as nat) + "}}"@,
        LirOperation::WriteI16 { src, endianness } => "{\"WriteI16\":{\"src\":"@ + dec_str(
            src as nat,
        ) + ",\"endianness\":"@ + endianness_json(endianness) + "}}"@,
        LirOperation::WriteI32 { src, endianness } => "{\"WriteI32\":{\"src\":"@ + dec_str(
            src as nat,
        ) + ",\"endianness\":"@ + endianness_json(endianness) + "}}"@,
        LirOperation::WriteI64 { src, endianness } => "{\"WriteI64\":{\"src\":"@ + dec_str(
            src as nat,
        ) + ",\"endianness\":"@ + endianness_json(endianness) + "}}"@,
        LirOperation::WriteArray { src, element_op, count } => "{\"WriteArray\":{\"src\":"@
            + dec_str(src as nat) + ",\"element_op\":"@ + op_json(*element_op) + ",\"count\":"@
            + dec_str(count as nat) + "}}"@,
        LirOperation::WriteDynamicArray { src, element_op, size_var, size_field_name } => {
            "{\"WriteDynamicArray\":{\"src\":"@ + dec_str(src as nat) + ",\"element_op\":"@
                + op_json(*element_op) + ",\"size_var\":"@ + dec_str(size_var as nat)
                + ",\"size_field_name\":"@ + json_str(size_field_name@) + "}}"@
        },
        LirOperation::WriteUntilEofArray { src, element_op } => {
            "{\"WriteUntilEofArray\":{\"src\":"@ + dec_str(src as nat) + ",\"element_op\":"@
                + op_json(*element_op) + "}}"@
        },
        LirOperation::WriteUntilConditionArray { src, element_op } => {
            "{\"WriteUntilConditionArray\":{\"src\":"@ + dec_str(src as nat)
                + ",\"element_op\":"@ + op_json(*element_op) + "}}"@
        },
        LirOperation::WriteFixedString { src, length } => "{\"WriteFixedString\":{\"src\":"@
            + dec_str(src as nat) + ",\"length\":"@ + dec_str(length as nat) + "}}"@,
        LirOperation::WriteNullTerminatedString { src } => {
            "{\"WriteNullTerminatedString\":{\"src\":"@ + dec_str(src as nat) + "}}"@
        },
        LirOperation::WriteLengthPrefixedString { src, length_var } => {
            "{\"WriteLengthPrefixedString\":{\"src\":"@ + dec_str(src as nat)
                + ",\"length_var\":"@ + dec_str(length_var as nat) + "}}"@
        },
        LirOperation::WriteStruct { src, struct_name: tn } => "{\"WriteStruct\":{\"src\":"@
            + dec_str(src as nat) + ",\"struct_name\":"@ + json_str(tn@) + "}}"@,
        LirOperation::CreateStruct { dest, struct_name: tn, fields } => {
            "{\"CreateStruct\":{\"dest\":"@ + dec_str(dest as nat) + ",\"struct_name\":"@
                + json_str(tn@) + ",\"fields\":"@ + (var_arr(fields@, 0, "["@) + "]"@)
                + "}}"@
        },
        LirOperation::AccessField { dest, struct_var, field_index } => {
            "{\"AccessField\":{\"dest\":"@ + dec_str(dest as nat) + ",\"struct_var\":"@
                + dec_str(struct_var as nat) + ",\"field_index\":"@ + dec_str(field_index as nat)
                + "}}"@
        },
    }
}

/// The LIR fields of a type, as a JSON array body.
pub open spec fn lfields_arr(fs: Seq<LirField>, i: int, acc: Seq<char>) -> Seq<char>
    decreases fs.len() - i,
{
    if i < 0 || i >= fs.len() {
        acc
    } else if i > 0 {
        lfields_arr(fs, i + 1, acc + ","@ + lfield_json(fs[i]))
    } else {
        lfields_arr(fs, i + 1, acc + lfield_json(fs[i]))
    }
}

/// The operations of a type, as a JSON array body.
pub open spec fn ops_arr(ops: Seq<LirOperation>, i: int, acc: Seq<char>) -> Seq<char>
    decreases ops.len() - i,
{
    if i < 0 || i >= ops.len() {
        acc
    } else if i > 0 {
        ops_arr(ops, i + 1, acc + ","@ + op_json(ops[i]))
    } else {
        ops_arr(ops, i + 1, acc + op_json(ops[i]))
    }
}

/// One lowered type.
pub open spec fn ltype_json(t: LirType) -> Seq<char> {
    "{\"name\":"@ + json_str(t.name@) + ",\"fields\":"@ + (lfields_arr(t.fields@, 0, "["@)
        + "]"@) + ",\"operations\":"@ + (ops_arr(t.operations@, 0, "["@) + "]"@)
        + ",\"read_result\":"@ + dec_str(t.read_result as nat) + ",\"write_param\":"@
        + dec_str(t.write_param as nat) + "}"@
}

/// The enums of a format, as a JSON array body.
pub open spec fn henums_arr(es: Seq<HirEnum>, i: int, acc: Seq<char>) -> Seq<char>
    decreases es.len() - i,
{
    if i < 0 || i >= es.len() {
        acc
    } else if i > 0 {
        henums_arr(es, i + 1, acc + ","@ + henum_json(es[i]))
    } else {
        henums_arr(es, i + 1, acc + henum_json(es[i]))
    }
}

/// The types of a format, as a JSON array body.
pub open spec fn ltypes_arr(ts: Seq<LirType>, i: int, acc: Seq<char>) -> Seq<char>
    decreases ts.len() - i,
{
    if i < 0 || i >= ts.len() {
        acc
    } else if i > 0 {
        ltypes_arr(ts, i + 1, acc + ","@ + ltype_json(ts[i]))
    } else {
        ltypes_arr(ts, i + 1, acc + ltype_json(ts[i]))
    }
}

/// The whole exchange text of a lowered format.
pub open spec fn lir_json(l: LirFormat) -> Seq<char> {
    "{\"name\":"@ + json_str(l.name@) + ",\"endianness\":"@ + endianness_json(l.endianness)
        + ",\"enums\":"@ + (henums_arr(l.enums@, 0, "["@) + "]"@) + ",\"types\":"@ + (
    ltypes_arr(l.types@, 0, "["@) + "]"@) + "}"@
}

} // verus!
verus! {

fn opt_doc_json_of(o: &Option<String>) -> (r: String)
    ensures
        r@ == json_opt_str(crate::hir::view_opt_string(*o)),
{
    match o {
        Some(s) => json_string_of(s.as_str()),
        None => String::from_str("null"),
    }
}

fn endianness_json_of(e: Endianness) -> (r: String)
    ensures
        r@ == endianness_json(e),
{
    match e {
        Endianness::Little => String::from_str("\"Little\""),
        Endianness::Big => String::from_str("\"Big\""),
        Endianness::Native => String::from_str("\"Native\""),
    }
}

fn prim_json_of(p: HirPrimitiveType) -> (r: String)
    ensures
        r@ == prim_json(p),
{
    match p {
        HirPrimitiveType::U8 => String::from_str("\"U8\""),
        HirPrimitiveType::U16 => String::from_str("\"U16\""),
        HirPrimitiveType::U32 => String::from_str("\"U32\""),
        HirPrimitiveType::U64 => String::from_str("\"U64\""),
        HirPrimitiveType::I8 => String::from_str("\"I8\""),
        HirPrimitiveType::I16 => String::from_str("\"I16\""),
        HirPrimitiveType::I32 => String::from_str("\"I32\""),
        HirPrimitiveType::I64 => String::from_str("\"I64\""),
    }
}

#[verifier::loop_isolation(false)]
fn i64_arr_of(ns: &Vec<i64>) -> (r: String)
    ensures
        r@ == i64_arr(ns@, 0, "["@) + "]"@,
{
    let mut s = String::from_str("[");
    let mut i: usize = 0;
    while i < ns.len()
        invariant
            i <= ns@.len(),
            i64_arr(ns@, i as int, s@) == i64_arr(ns@, 0, "["@),
        decreases ns@.len() - i,
    {
        if i > 0 {
            s.append(",");
        }
        let d = crate::strutil::i64_to_string(ns[i]);
        s.append(d.as_str());
        i += 1;
    }
    s.append("]");
    s
}

fn assert_value_json_of(av: &HirAssertValue) -> (r: String)
    ensures
        r@ == assert_value_json(*av),
{
    match av {
        HirAssertValue::Int(v) => {
            let mut s = String::from_str("{\"Int\":");
            let d = crate::strutil::i64_to_string(*v);
            s.append(d.as_str());
            s.append("}");
            s
        },
        HirAssertValue::IntArray(vs) => {
            let mut s = String::from_str("{\"IntArray\":");
            let a = i64_arr_of(vs);
            s.append(a.as_str());
            s.append("}");
            s
        },
    }
}

fn assertion_json_of(a: &HirAssertion) -> (r: String)
    ensures
        r@ == assertion_json(*a),
{
    match a {
        HirAssertion::Equals(av) => {
            let mut s = String::from_str("{\"Equals\":");
            let v = assert_value_json_of(av);
            s.append(v.as_str());
            s.append("}");
            s
        },
        HirAssertion::NotEquals(av) => {
            let mut s = String::from_str("{\"NotEquals\":");
            let v = assert_value_json_of(av);
            s.append(v.as_str());
            s.append("}");
            s
        },
        HirAssertion::GreaterThan(t) => {
            let mut s = String::from_str("{\"GreaterThan\":");
            let d = crate::strutil::i64_to_string(*t);
            s.append(d.as_str());
            s.append("}");
            s
        },
        HirAssertion::GreaterOrEqual(t) => {
            let mut s = String::from_str("{\"GreaterOrEqual\":");
            let d = crate::strutil::i64_to_string(*t);
            s.append(d.as_str());
            s.append("}");
            s
        },
        HirAssertion::LessThan(t) => {
            let mut s = String::from_str("{\"LessThan\":");
            let d = crate::strutil::i64_to_string(*t);
            s.append(d.as_str());
            s.append("}");
            s
        },
        HirAssertion::LessOrEqual(t) => {
            let mut s = String::from_str("{\"LessOrEqual\":");
            let d = crate::strutil::i64_to_string(*t);
            s.append(d.as_str());
            s.append("}");
            s
        },
        HirAssertion::In(vs) => {
            let mut s = String::from_str("{\"In\":");
            let a2 = i64_arr_of(vs);
            s.append(a2.as_str());
            s.append("}");
            s
        },
        HirAssertion::NotIn(vs) => {
            let mut s = String::from_str("{\"NotIn\":");
            let a2 = i64_arr_of(vs);
            s.append(a2.as_str());
            s.append("}");
            s
        },
        HirAssertion::Range { min, max } => {
            let mut s = String::from_str("{\"Range\":{\"min\":");
            let d1 = crate::strutil::i64_to_string(*min);
            s.append(d1.as_str());
            s.append(",\"max\":");
            let d2 = crate::strutil::i64_to_string(*max);
            s.append(d2.as_str());
            s.append("}}");
            s
        },
    }
}

fn idx_json_of(ix: &IndexExpr) -> (r: String)
    ensures
        r@ == idx_json(*ix),
{
    match ix {
        IndexExpr::Positive(n) => {
            let mut s = String::from_str("{\"Positive\":");
            let d = crate::strutil::usize_to_string(*n);
            s.append(d.as_str());
            s.append("}");
            s
        },
        IndexExpr::Negative(n) => {
            let mut s = String::from_str("{\"Negative\":");
            let d = crate::strutil::usize_to_string(*n);
            s.append(d.as_str());
            s.append("}");
            s
        },
    }
}

#[verifier::loop_isolation(false)]
fn u8_arr_of(ns: &Vec<u8>) -> (r: String)
    ensures
        r@ == u8_arr(ns@, 0, "["@) + "]"@,
{
    let mut s = String::from_str("[");
    let mut i: usize = 0;
    while i < ns.len()
        invariant
            i <= ns@.len(),
            u8_arr(ns@, i as int, s@) == u8_arr(ns@, 0, "["@),
        decreases ns@.len() - i,
    {
        if i > 0 {
            s.append(",");
        }
        let d = crate::strutil::u64_to_string(ns[i] as u64);
        s.append(d.as_str());
        i += 1;
    }
    s.append("]");
    s
}

fn literal_json_of(l: &Literal) -> (r: String)
    ensures
        r@ == literal_json(*l),
{
    match l {
        Literal::Integer(v) => {
            let mut s = String::from_str("{\"Integer\":");
            let d = crate::strutil::i64_to_string(*v);
            s.append(d.as_str());
            s.append("}");
            s
        },
        Literal::ByteArray(bs) => {
            let mut s = String::from_str("{\"ByteArray\":");
            let a = u8_arr_of(bs);
            s.append(a.as_str());
            s.append("}");
            s
        },
        Literal::String(st) => {
            let mut s = String::from_str("{\"String\":");
            let j = json_string_of(st.as_str());
            s.append(j.as_str());
            s.append("}");
            s
        },
    }
}

fn expr_json_of(e: &Expr) -> (r: String)
    ensures
        r@ == expr_json(*e),
    decreases *e,
{
    match e {
        Expr::Variable(name) => {
            let mut s = String::from_str("{\"Variable\":");
            let j = json_string_of(name.as_str());
            s.append(j.as_str());
            s.append("}");
            s
        },
        Expr::FieldAccess { base, field } => {
            let mut s = String::from_str("{\"FieldAccess\":{\"base\":");
            let b = expr_json_of(&**base);
            s.append(b.as_str());
            s.append(",\"field\":");
            let j = json_string_of(field.as_str());
            s.append(j.as_str());
            s.append("}}");
            s
        },
        Expr::ArrayIndex { array, index } => {
            let mut s = String::from_str("{\"ArrayIndex\":{\"array\":");
            let b = expr_json_of(&**array);
            s.append(b.as_str());
            s.append(",\"index\":");
            let j = idx_json_of(index);
            s.append(j.as_str());
            s.append("}}");
            s
        },
        Expr::Comparison { left, op, right } => {
            let mut s = String::from_str("{\"Comparison\":{\"left\":");
            let lj = expr_json_of(&**left);
            s.append(lj.as_str());
            s.append(",\"op\":");
            let oj = match op {
                ComparisonOp::Equals => "\"Equals\"",
                ComparisonOp::NotEquals => "\"NotEquals\"",
                ComparisonOp::LessThan => "\"LessThan\"",
                ComparisonOp::GreaterThan => "\"GreaterThan\"",
                ComparisonOp::LessThanOrEqual => "\"LessThanOrEqual\"",
                ComparisonOp::GreaterThanOrEqual => "\"GreaterThanOrEqual\"",
            };
            s.append(oj);
            s.append(",\"right\":");
            let rj = expr_json_of(&**right);
            s.append(rj.as_str());
            s.append("}}");
            s
        },
        Expr::Logical { left, op, right } => {
            let mut s = String::from_str("{\"Logical\":{\"left\":");
            let lj = expr_json_of(&**left);
            s.append(lj.as_str());
            s.append(",\"op\":");
            let oj = match op {
                LogicalOp::And => "\"And\"",
                LogicalOp::Or => "\"Or\"",
            };
            s.append(oj);
            s.append(",\"right\":");
            let rj = expr_json_of(&**right);
            s.append(rj.as_str());
            s.append("}}");
            s
        },
        Expr::Literal(lit) => {
            let mut s = String::from_str("{\"Literal\":");
            let j = literal_json_of(lit);
            s.append(j.as_str());
            s.append("}");
            s
        },
    }
}

} // verus!
verus! {

fn enum_value_json_of(v: &HirEnumValue) -> (r: String)
    ensures
        r@ == enum_value_json(*v),
{
    let mut s = String::from_str("{\"name\":");
    let j = json_string_of(v.name.as_str());
    s.append(j.as_str());
    s.append(",\"value\":");
    let d = crate::strutil::i64_to_string(v.value);
    s.append(d.as_str());
    s.append(",\"doc\":");
    let od = opt_doc_json_of(&v.doc);
    s.append(od.as_str());
    s.append("}");
    s
}

#[verifier::loop_isolation(false)]
fn enum_values_arr_of(vs: &Vec<HirEnumValue>) -> (r: String)
    ensures
        r@ == enum_values_arr(vs@, 0, "["@) + "]"@,
{
    let mut s = String::from_str("[");
    let mut i: usize = 0;
    while i < vs.len()
        invariant
            i <= vs@.len(),
            enum_values_arr(vs@, i as int, s@) == enum_values_arr(vs@, 0, "["@),
        decreases vs@.len() - i,
    {
        if i > 0 {
            s.append(",");
        }
        let ej = enum_value_json_of(&vs[i]);
        s.append(ej.as_str());
        i += 1;
    }
    s.append("]");
    s
}

fn henum_json_of(e: &HirEnum) -> (r: String)
    ensures
        r@ == henum_json(*e),
{
    let mut s = String::from_str("{\"name\":");
    let j = json_string_of(e.name.as_str());
    s.append(j.as_str());
    s.append(",\"doc\":");
    let od = opt_doc_json_of(&e.doc);
    s.append(od.as_str());
    s.append(",\"underlying_type\":");
    let p = prim_json_of(e.underlying_type);
    s.append(p.as_str());
    s.append(",\"values\":");
    let va = enum_values_arr_of(&e.values);
    s.append(va.as_str());
    s.append("}");
    s
}

fn opt_assertion_json_of(o: &Option<HirAssertion>) -> (r: String)
    ensures
        r@ == opt_assertion_json(*o),
{
    match o {
        Some(a) => assertion_json_of(a),
        None => String::from_str("null"),
    }
}

fn lfield_json_of(f: &LirField) -> (r: String)
    ensures
        r@ == lfield_json(*f),
{
    let mut s = String::from_str("{\"name\":");
    let j = json_string_of(f.name.as_str());
    s.append(j.as_str());
    s.append(",\"doc\":");
    let od = opt_doc_json_of(&f.doc);
    s.append(od.as_str());
    s.append(",\"var_id\":");
    let d = crate::strutil::usize_to_string(f.var_id);
    s.append(d.as_str());
    s.append(",\"type_info\":");
    let t = json_string_of(f.type_info.as_str());
    s.append(t.as_str());
    s.append(",\"assertion\":");
    let a = opt_assertion_json_of(&f.assertion);
    s.append(a.as_str());
    s.append("}");
    s
}

#[verifier::loop_isolation(false)]
fn var_arr_of(vs: &Vec<VarId>) -> (r: String)
    ensures
        r@ == var_arr(vs@, 0, "["@) + "]"@,
{
    let mut s = String::from_str("[");
    let mut i: usize = 0;
    while i < vs.len()
        invariant
            i <= vs@.len(),
            var_arr(vs@, i as int, s@) == var_arr(vs@, 0, "["@),
        decreases vs@.len() - i,
    {
        if i > 0 {
            s.append(",");
        }
        let d = crate::strutil::usize_to_string(vs[i]);
        s.append(d.as_str());
        i += 1;
    }
    s.append("]");
    s
}

fn num_field(prefix: &str, n: usize, suffix: &str) -> (r: String)
    ensures
        r@ == prefix@ + dec_str(n as nat) + suffix@,
{
    let mut s = String::from_str(prefix);
    let d = crate::strutil::usize_to_string(n);
    s.append(d.as_str());
    s.append(suffix);
    s
}

fn op_json_of(op: &LirOperation) -> (r: String)
    ensures
        r@ == op_json(*op),
    decreases *op,
{
    match op {
        LirOperation::ReadU8 { dest } => num_field("{\"ReadU8\":{\"dest\":", *dest, "}}"),
        LirOperation::ReadI8 { dest } => num_field("{\"ReadI8\":{\"dest\":", *dest, "}}"),
        LirOperation::WriteU8 { src } => num_field("{\"WriteU8\":{\"src\":", *src, "}}"),
        LirOperation::WriteI8 { src } => num_field("{\"WriteI8\":{\"src\":", *src, "}}"),
        LirOperation::ReadU16 { dest, endianness } => {
            let mut s = num_field("{\"ReadU16\":{\"dest\":", *dest, ",\"endianness\":");
            let e = endianness_json_of(*endianness);
            s.append(e.as_str());
            s.append("}}");
            s
        },
        LirOperation::ReadU32 { dest, endianness } => {
            let mut s = num_field("{\"ReadU32\":{\"dest\":", *dest, ",\"endianness\":");
            let e = endianness_json_of(*endianness);
            s.append(e.as_str());
            s.append("}}");
            s
        },
        LirOperation::ReadU64 { dest, endianness } => {
            let mut s = num_field("{\"ReadU64\":{\"dest\":", *dest, ",\"endianness\":");
            let e = endianness_json_of(*endianness);
            s.append(e.as_str());
            s.append("}}");
            s
        },
        LirOperation::ReadI16 { dest, endianness } => {
            let mut s = num_field("{\"ReadI16\":{\"dest\":", *dest, ",\"endianness\":");
            let e = endianness_json_of(*endianness);
            s.append(e.as_str());
            s.append("}}");
            s
        },
        LirOperation::ReadI32 { dest, endianness } => {
            let mut s = num_field("{\"ReadI32\":{\"dest\":", *dest, ",\"endianness\":");
            let e = endianness_json_of(*endianness);
            s.append(e.as_str());
            s.append("}}");
            s
        },
        LirOperation::ReadI64 { dest, endianness } => {
            let mut s = num_field("{\"ReadI64\":{\"dest\":", *dest, ",\"endianness\":");
            let e = endianness_json_of(*endianness);
            s.append(e.as_str());
            s.append("}}");
            s
        },
        LirOperation::WriteU16 { src, endianness } => {
            let mut s = num_field("{\"WriteU16\":{\"src\":", *src, ",\"endianness\":");
            let e = endianness_json_of(*endianness);
            s.append(e.as_str());
            s.append("}}");
            s
        },
        LirOperation::WriteU32 { src, endianness } => {
            let mut s = num_field("{\"WriteU32\":{\"src\":", *src, ",\"endianness\":");
            let e = endianness_json_of(*endianness);
            s.append(e.as_str());
            s.append("}}");
            s
        },
        LirOperation::WriteU64 { src, endianness } => {
            let mut s = num_field("{\"WriteU64\":{\"src\":", *src, ",\"endianness\":");
            let e = endianness_json_of(*endianness);
            s.append(e.as_str());
            s.append("}}");
            s
        },
        LirOperation::WriteI16 { src, endianness } => {
            let mut s = num_field("{\"WriteI16\":{\"src\":", *src, ",\"endianness\":");
            let e = endianness_json_of(*endianness);
            s.append(e.as_str());
            s.append("}}");
            s
        },
        LirOperation::WriteI32 { src, endianness } => {
            let mut s = num_field("{\"WriteI32\":{\"src\":", *src, ",\"endianness\":");
            let e = endianness_json_of(*endianness);
            s.append(e.as_str());
            s.append("}}");
            s
        },
        LirOperation::WriteI64 { src, endianness } => {
            let mut s = num_field("{\"WriteI64\":{\"src\":", *src, ",\"endianness\":");
            let e = endianness_json_of(*endianness);
            s.append(e.as_str());
            s.append("}}");
            s
        },
        LirOperation::ReadArray { dest, element_op, count } => {
            let mut s = num_field("{\"ReadArray\":{\"dest\":", *dest, ",\"element_op\":");
            let e = op_json_of(&**element_op);
            s.append(e.as_str());
            s.append(",\"count\":");
            let d = crate::strutil::usize_to_string(*count);
            s.append(d.as_str());
            s.append("}}");
            s
        },
        LirOperation::ReadDynamicArray { dest, element_op, size_var } => {
            let mut s = num_field("{\"ReadDynamicArray\":{\"dest\":", *dest, ",\"element_op\":");
            let e = op_json_of(&**element_op);
            s.append(e.as_str());
            s.append(",\"size_var\":");
            let d = crate::strutil::usize_to_string(*size_var);
            s.append(d.as_str());
            s.append("}}");
            s
        },
        LirOperation::ReadUntilEofArray { dest, element_op } => {
            let mut s = num_field("{\"ReadUntilEofArray\":{\"dest\":", *dest, ",\"element_op\":");
            let e = op_json_of(&**element_op);
            s.append(e.as_str());
            s.append("}}");
            s
        },
        LirOperation::ReadUntilConditionArray { dest, element_op, condition } => {
            let mut s = num_field(
                "{\"ReadUntilConditionArray\":{\"dest\":",
                *dest,
                ",\"element_op\":",
            );
            let e = op_json_of(&**element_op);
            s.append(e.as_str());
            s.append(",\"condition\":");
            let c = expr_json_of(condition);
            s.append(c.as_str());
            s.append("}}");
            s
        },
        LirOperation::ReadFixedString { dest, length } => {
            let mut s = num_field("{\"ReadFixedString\":{\"dest\":", *dest, ",\"length\":");
            let d = crate::strutil::usize_to_string(*length);
            s.append(d.as_str());
            s.append("}}");
            s
        },
        LirOperation::ReadNullTerminatedString { dest } => num_field(
            "{\"ReadNullTerminatedString\":{\"dest\":",
            *dest,
            "}}",
        ),
        LirOperation::ReadLengthPrefixedString { dest, length_var } => {
            let mut s = num_field(
                "{\"ReadLengthPrefixedString\":{\"dest\":",
                *dest,
                ",\"length_var\":",
            );
            let d = crate::strutil::usize_to_string(*length_var);
            s.append(d.as_str());
            s.append("}}");
            s
        },
        LirOperation::ReadStruct { dest, struct_name: tn } => {
            let mut s = num_field("{\"ReadStruct\":{\"dest\":", *dest, ",\"struct_name\":");
            let j = json_string_of(tn.as_str());
            s.append(j.as_str());
            s.append("}}");
            s
        },
        LirOperation::WriteArray { src, element_op, count } => {
            let mut s = num_field("{\"WriteArray\":{\"src\":", *src, ",\"element_op\":");
            let e = op_json_of(&**element_op);
            s.append(e.as_str());
            s.append(",\"count\":");
            let d = crate::strutil::usize_to_string(*count);
            s.append(d.as_str());
            s.append("}}");
            s
        },
        LirOperation::WriteDynamicArray { src, element_op, size_var, size_field_name } => {
            let mut s = num_field("{\"WriteDynamicArray\":{\"src\":", *src, ",\"element_op\":");
            let e = op_json_of(&**element_op);
            s.append(e.as_str());
            s.append(",\"size_var\":");
            let d = crate::strutil::usize_to_string(*size_var);
            s.append(d.as_str());
            s.append(",\"size_field_name\":");
            let j = json_string_of(size_field_name.as_str());
            s.append(j.as_str());
            s.append("}}");
            s
        },
        LirOperation::WriteUntilEofArray { src, element_op } => {
            let mut s = num_field("{\"WriteUntilEofArray\":{\"src\":", *src, ",\"element_op\":");
            let e = op_json_of(&**element_op);
            s.append(e.as_str());
            s.append("}}");
            s
        },
        LirOperation::WriteUntilConditionArray { src, element_op } => {
            let mut s = num_field(
                "{\"WriteUntilConditionArray\":{\"src\":",
                *src,
                ",\"element_op\":",
            );
            let e = op_json_of(&**element_op);
            s.append(e.as_str());
            s.append("}}");
            s
        },
        LirOperation::WriteFixedString { src, length } => {
            let mut s = num_field("{\"WriteFixedString\":{\"src\":", *src, ",\"length\":");
            let d = crate::strutil::usize_to_string(*length);
            s.append(d.as_str());
            s.append("}}");
            s
        },
        LirOperation::WriteNullTerminatedString { src } => num_field(
            "{\"WriteNullTerminatedString\":{\"src\":",
            *src,
            "}}",
        ),
        LirOperation::WriteLengthPrefixedString { src, length_var } => {
            let mut s = num_field(
                "{\"WriteLengthPrefixedString\":{\"src\":",
                *src,
                ",\"length_var\":",
            );
            let d = crate::strutil::usize_to_string(*length_var);
            s.append(d.as_str());
            s.append("}}");
            s
        },
        LirOperation::WriteStruct { src, struct_name: tn } => {
            let mut s = num_field("{\"WriteStruct\":{\"src\":", *src, ",\"struct_name\":");
            let j = json_string_of(tn.as_str());
            s.append(j.as_str());
            s.append("}}");
            s
        },
        LirOperation::CreateStruct { dest, struct_name: tn, fields } => {
            let mut s = num_field("{\"CreateStruct\":{\"dest\":", *dest, ",\"struct_name\":");
            let j = json_string_of(tn.as_str());
            s.append(j.as_str());
            s.append(",\"fields\":");
            let va = var_arr_of(fields);
            s.append(va.as_str());
            s.append("}}");
            s
        },
        LirOperation::AccessField { dest, struct_var, field_index } => {
            let mut s = num_field("{\"AccessField\":{\"dest\":", *dest, ",\"struct_var\":");
            let d1 = crate::strutil::usize_to_string(*struct_var);
            s.append(d1.as_str());
            s.append(",\"field_index\":");
            let d2 = crate::strutil::usize_to_string(*field_index);
            s.append(d2.as_str());
            s.append("}}");
            s
        },
    }
}

#[verifier::loop_isolation(false)]
fn lfields_arr_of(fs: &Vec<LirField>) -> (r: String)
    ensures
        r@ == lfields_arr(fs@, 0, "["@) + "]"@,
{
    let mut s = String::from_str("[");
    let mut i: usize = 0;
    while i < fs.len()
        invariant
            i <= fs@.len(),
            lfields_arr(fs@, i as int, s@) == lfields_arr(fs@, 0, "["@),
        decreases fs@.len() - i,
    {
        if i > 0 {
            s.append(",");
        }
        let j = lfield_json_of(&fs[i]);
        s.append(j.as_str());
        i += 1;
    }
    s.append("]");
    s
}

#[verifier::loop_isolation(false)]
fn ops_arr_of(ops: &Vec<LirOperation>) -> (r: String)
    ensures
        r@ == ops_arr(ops@, 0, "["@) + "]"@,
{
    let mut s = String::from_str("[");
    let mut i: usize = 0;
    while i < ops.len()
        invariant
            i <= ops@.len(),
            ops_arr(ops@, i as int, s@) == ops_arr(ops@, 0, "["@),
        decreases ops@.len() - i,
    {
        if i > 0 {
            s.append(",");
        }
        let j = op_json_of(&ops[i]);
        s.append(j.as_str());
        i += 1;
    }
    s.append("]");
    s
}

fn ltype_json_of(t: &LirType) -> (r: String)
    ensures
        r@ == ltype_json(*t),
{
    let mut s = String::from_str("{\"name\":");
    let j = json_string_of(t.name.as_str());
    s.append(j.as_str());
    s.append(",\"fields\":");
    let fa = lfields_arr_of(&t.fields);
    s.append(fa.as_str());
    s.append(",\"operations\":");
    let oa = ops_arr_of(&t.operations);
    s.append(oa.as_str());
    s.append(",\"read_result\":");
    let d1 = crate::strutil::usize_to_string(t.read_result);
    s.append(d1.as_str());
    s.append(",\"write_param\":");
    let d2 = crate::strutil::usize_to_string(t.write_param);
    s.append(d2.as_str());
    s.append("}");
    s
}

/// The canonical exchange text of a lowered format.
#[verifier::loop_isolation(false)]
pub fn lir_to_exchange(l: &LirFormat) -> (r: String)
    ensures
        r@ == lir_json(*l),
{
    let mut s = String::from_str("{\"name\":");
    let j = json_string_of(l.name.as_str());
    s.append(j.as_str());
    s.append(",\"endianness\":");
    let e = endianness_json_of(l.endianness);
    s.append(e.as_str());
    s.append(",\"enums\":");
    let mut ea = String::from_str("[");
    let mut i: usize = 0;
    while i < l.enums.len()
        invariant
            i <= l.enums@.len(),
            henums_arr(l.enums@, i as int, ea@) == henums_arr(l.enums@, 0, "["@),
        decreases l.enums@.len() - i,
    {
        if i > 0 {
            ea.append(",");
        }
        let ej = henum_json_of(&l.enums[i]);
        ea.append(ej.as_str());
        i += 1;
    }
    ea.append("]");
    s.append(ea.as_str());
    s.append(",\"types\":");
    let mut ta = String::from_str("[");
    let mut k: usize = 0;
    while k < l.types.len()
        invariant
            k <= l.types@.len(),
            ltypes_arr(l.types@, k as int, ta@) == ltypes_arr(l.types@, 0, "["@),
        decreases l.types@.len() - k,
    {
        if k > 0 {
            ta.append(",");
        }
        let tj = ltype_json_of(&l.types[k]);
        ta.append(tj.as_str());
        k += 1;
    }
    ta.append("]");
    s.append(ta.as_str());
    s.append("}");
    s
}

} // verus!
