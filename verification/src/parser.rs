//! The semantic analyzer: turns a decoded configuration document into a
//! typed [`HirFormat`], resolving type-name strings, assertions and
//! until-conditions.  The `*_model` functions state the analysis exactly.

use vstd::prelude::*;
use vstd::string::{StrSliceExecFns, StringExecFns};
use crate::error::{ParseError, SpecParseError};
use crate::expr_parser::{parse_expr, parse_expr_model};
use crate::hir::{
    Endianness, HirEnum, HirEnumValue, HirField, HirFormat, HirPrimitiveType, HirStruct, HirType,
    HirTypeDef, HirAssertion, HirAssertValue, SpecHirEnum, SpecHirEnumValue, SpecHirField,
    SpecHirFormat, SpecHirStruct, SpecHirType, SpecHirTypeDef, SpecHirAssertion,
    SpecHirAssertValue, view_opt_string,
};
use crate::raw::{RawEnum, RawField, RawFormat, RawTypeDef, RawValue};
use crate::seq_view::view_seq;
use crate::strutil::{chars_of, str_eq, string_from_chars};
use crate::topo_sort::first_bracket;

verus! {

// ------------------------------------------------------------------
// Primitive names and endianness
// ------------------------------------------------------------------

/// The primitive named by a type string, if any.
pub open spec fn prim_type_of(s: Seq<char>) -> Option<HirPrimitiveType> {
    if s == "u8"@ {
        Some(HirPrimitiveType::U8)
    } else if s == "u16"@ {
        Some(HirPrimitiveType::U16)
    } else if s == "u32"@ {
        Some(HirPrimitiveType::U32)
    } else if s == "u64"@ {
        Some(HirPrimitiveType::U64)
    } else if s == "i8"@ {
        Some(HirPrimitiveType::I8)
    } else if s == "i16"@ {
        Some(HirPrimitiveType::I16)
    } else if s == "i32"@ {
        Some(HirPrimitiveType::I32)
    } else if s == "i64"@ {
        Some(HirPrimitiveType::I64)
    } else {
        None
    }
}

/// What parsing an enum's underlying type yields.
pub open spec fn parse_primitive_type_model(s: Seq<char>) -> Result<
    HirPrimitiveType,
    SpecParseError,
> {
    match prim_type_of(s) {
        Some(p) => Ok(p),
        None => Err(
            SpecParseError::InvalidValue {
                field: "type"@,
                message: "Unknown primitive type '"@ + s + "'"@,
            },
        ),
    }
}

/// What parsing the format's endianness yields; absent means little.
pub open spec fn parse_endianness_model(o: Option<Seq<char>>) -> Result<
    Endianness,
    SpecParseError,
> {
    match o {
        None => Ok(Endianness::Little),
        Some(s) => {
            if s == "little"@ {
                Ok(Endianness::Little)
            } else if s == "big"@ {
                Ok(Endianness::Big)
            } else if s == "native"@ {
                Ok(Endianness::Native)
            } else {
                Err(
                    SpecParseError::InvalidValue {
                        field: "endianness"@,
                        message: "Unknown endianness '"@ + s
                            + "', expected 'little', 'big', or 'native'"@,
                    },
                )
            }
        },
    }
}

// ------------------------------------------------------------------
// Assertion values
// ------------------------------------------------------------------

/// What reading one integer leaf yields.
pub open spec fn parse_int_model(v: RawValue, fname: Seq<char>, ctx: Seq<char>) -> Result<
    i64,
    SpecParseError,
> {
    match v {
        RawValue::Int(i) => Ok(i),
        _ => Err(
            SpecParseError::InvalidValue {
                field: ctx + " for field '"@ + fname + "'"@,
                message: "Value must be an integer"@,
            },
        ),
    }
}

/// The integers of a sequence value, element by element.
pub open spec fn int_list_rest(
    xs: Seq<RawValue>,
    i: int,
    fname: Seq<char>,
    ctx: Seq<char>,
    acc: Seq<i64>,
) -> Result<Seq<i64>, SpecParseError>
    decreases xs.len() - i,
{
    if i < 0 || i >= xs.len() {
        Ok(acc)
    } else {
        match parse_int_model(xs[i], fname, ctx) {
            Err(e) => Err(e),
            Ok(n) => int_list_rest(xs, i + 1, fname, ctx, acc.push(n)),
        }
    }
}

/// What reading a list of integers yields.
pub open spec fn parse_int_list_model(v: RawValue, fname: Seq<char>, ctx: Seq<char>) -> Result<
    Seq<i64>,
    SpecParseError,
> {
    match v {
        RawValue::List(xs) => int_list_rest(xs@, 0, fname, ctx, Seq::empty()),
        _ => Err(
            SpecParseError::InvalidValue {
                field: ctx + " for field '"@ + fname + "'"@,
                message: "Value must be a sequence"@,
            },
        ),
    }
}

/// What reading an equality assertion's constant yields: a sequence turns
/// into an integer array, anything else must be a single integer.
pub open spec fn parse_assert_value_model(v: RawValue, fname: Seq<char>) -> Result<
    SpecHirAssertValue,
    SpecParseError,
> {
    match v {
        RawValue::List(xs) => match int_list_rest(xs@, 0, fname, "array element"@, Seq::empty()) {
            Err(e) => Err(e),
            Ok(ns) => Ok(SpecHirAssertValue::IntArray(ns)),
        },
        _ => match parse_int_model(v, fname, "value"@) {
            Err(e) => Err(e),
            Ok(n) => Ok(SpecHirAssertValue::Int(n)),
        },
    }
}

/// What parsing a field's `assert` entry yields: a single-entry mapping
/// whose key names the operation.
pub open spec fn parse_assertion_model(v: RawValue, fname: Seq<char>) -> Result<
    SpecHirAssertion,
    SpecParseError,
> {
    match v {
        RawValue::Entries(entries) => {
            if entries@.len() != 1 {
                Err(
                    SpecParseError::InvalidValue {
                        field: "assert for field '"@ + fname + "'"@,
                        message: "Assertion must have exactly one operation"@,
                    },
                )
            } else {
                let kv = entries@[0];
                match kv.0 {
                    RawValue::Text(ks) => parse_assertion_op(ks@, kv.1, fname),
                    _ => Err(
                        SpecParseError::InvalidValue {
                            field: "assert for field '"@ + fname + "'"@,
                            message: "Assertion key must be a string"@,
                        },
                    ),
                }
            }
        },
        _ => Err(
            SpecParseError::InvalidValue {
                field: "assert for field '"@ + fname + "'"@,
                message: "Assertion must be a mapping (e.g., { equals: 42 })"@,
            },
        ),
    }
}

/// The assertion denoted by one operation key and its value.
pub open spec fn parse_assertion_op(ks: Seq<char>, val: RawValue, fname: Seq<char>) -> Result<
    SpecHirAssertion,
    SpecParseError,
> {
    if ks == "equals"@ {
        match parse_assert_value_model(val, fname) {
            Err(e) => Err(e),
            Ok(av) => Ok(SpecHirAssertion::Equals(av)),
        }
    } else if ks == "not_equals"@ {
        match parse_assert_value_model(val, fname) {
            Err(e) => Err(e),
            Ok(av) => Ok(SpecHirAssertion::NotEquals(av)),
        }
    } else if ks == "greater_than"@ {
        match parse_int_model(val, fname, "greater_than"@) {
            Err(e) => Err(e),
            Ok(n) => Ok(SpecHirAssertion::GreaterThan(n)),
        }
    } else if ks == "greater_or_equal"@ {
        match parse_int_model(val, fname, "greater_or_equal"@) {
            Err(e) => Err(e),
            Ok(n) => Ok(SpecHirAssertion::GreaterOrEqual(n)),
        }
    } else if ks == "less_than"@ {
        match parse_int_model(val, fname, "less_than"@) {
            Err(e) => Err(e),
            Ok(n) => Ok(SpecHirAssertion::LessThan(n)),
        }
    } else if ks == "less_or_equal"@ {
        match parse_int_model(val, fname, "less_or_equal"@) {
            Err(e) => Err(e),
            Ok(n) => Ok(SpecHirAssertion::LessOrEqual(n)),
        }
    } else if ks == "in"@ {
        match parse_int_list_model(val, fname, "in"@) {
            Err(e) => Err(e),
            Ok(ns) => Ok(SpecHirAssertion::In(ns)),
        }
    } else if ks == "not_in"@ {
        match parse_int_list_model(val, fname, "not_in"@) {
            Err(e) => Err(e),
            Ok(ns) => Ok(SpecHirAssertion::NotIn(ns)),
        }
    } else if ks == "range"@ {
        match val {
            RawValue::List(xs) => {
                if xs@.len() != 2 {
                    Err(
                        SpecParseError::InvalidValue {
                            field: "assert.range for field '"@ + fname + "'"@,
                            message: "Range must have exactly two values [min, max]"@,
                        },
                    )
                } else {
                    match parse_int_model(xs@[0], fname, "range[0]"@) {
                        Err(e) => Err(e),
                        Ok(mn) => match parse_int_model(xs@[1], fname, "range[1]"@) {
                            Err(e) => Err(e),
                            Ok(mx) => Ok(SpecHirAssertion::Range { min: mn, max: mx }),
                        },
                    }
                }
            },
            _ => Err(
                SpecParseError::InvalidValue {
                    field: "assert.range for field '"@ + fname + "'"@,
                    message: "Range must be a sequence [min, max]"@,
                },
            ),
        }
    } else {
        Err(
            SpecParseError::InvalidValue {
                field: "assert for field '"@ + fname + "'"@,
                message: "Unknown assertion type '"@ + ks + "'"@,
            },
        )
    }
}

// ------------------------------------------------------------------
// Type strings
// ------------------------------------------------------------------

/// The value of a digits-only size text, or `None` on a stray character
/// or a value beyond `usize::MAX`.
pub open spec fn usize_value(s: Seq<char>, j: int, acc: int) -> Option<int>
    decreases s.len() - j,
{
    if j < 0 || j >= s.len() {
        Some(acc)
    } else if !crate::expr_parser::is_dec_digit(s[j]) {
        None
    } else {
        let v = acc * 10 + (s[j] as int - 48);
        if v > usize::MAX {
            None
        } else {
            usize_value(s, j + 1, acc * 10 + (s[j] as int - 48))
        }
    }
}

/// The numeric value of a size text, if it is all digits and fits.
pub open spec fn parse_usize_of(s: Seq<char>) -> Option<int> {
    if s.len() == 0 {
        None
    } else {
        usize_value(s, 0, 0)
    }
}

/// What splitting a type string at its first bracket yields: the element
/// text and the size text, or nothing for a bracket-free string.
pub open spec fn parse_array_type_model(s: Seq<char>) -> Result<
    Option<(Seq<char>, Seq<char>)>,
    SpecParseError,
> {
    let b = first_bracket(s, 0);
    if b >= s.len() {
        Ok(None)
    } else if s[s.len() - 1] != ']' {
        Err(
            SpecParseError::InvalidValue {
                field: "type"@,
                message: "Invalid array syntax: "@ + s,
            },
        )
    } else {
        Ok(Some((s.take(b), s.subrange(b + 1, s.len() - 1))))
    }
}

/// What classifying a type string yields, per the table of the surface
/// language: strings, arrays (fixed, dynamic, unbounded), primitives,
/// enum and struct references.
pub open spec fn parse_type_model(
    s: Seq<char>,
    known: Seq<Seq<char>>,
    enums: Seq<Seq<char>>,
    until: Option<Seq<char>>,
) -> Result<SpecHirType, SpecParseError>
    decreases s.len(),
{
    if s == "cstr"@ {
        Ok(SpecHirType::NullTerminatedString)
    } else if s.len() >= 4 && s.subrange(0, 4) == "str("@ && s[s.len() - 1] == ')' {
        Ok(SpecHirType::LengthPrefixedString { length_field: s.subrange(4, s.len() - 1) })
    } else {
        match parse_array_type_model(s) {
            Err(e) => Err(e),
            Ok(Some((elem, size))) => {
                if elem == "str"@ {
                    match parse_usize_of(size) {
                        Some(n) => Ok(SpecHirType::FixedString { size: n as usize }),
                        None => Err(
                            SpecParseError::InvalidValue {
                                field: "type"@,
                                message: "Fixed-length string must have numeric size, got '"@
                                    + size + "'"@,
                            },
                        ),
                    }
                } else if elem.len() < s.len() {
                    match parse_type_model(elem, known, enums, None) {
                        Err(e) => Err(e),
                        Ok(et) => {
                            if size.len() == 0 {
                                match until {
                                    Some(u) => {
                                        if u == "eof"@ {
                                            Ok(
                                                SpecHirType::UntilEofArray {
                                                    element_type: Box::new(et),
                                                },
                                            )
                                        } else {
                                            match parse_expr_model(u) {
                                                Err(e) => Err(e),
                                                Ok(c) => Ok(
                                                    SpecHirType::UntilConditionArray {
                                                        element_type: Box::new(et),
                                                        condition: c,
                                                    },
                                                ),
                                            }
                                        }
                                    },
                                    None => Err(
                                        SpecParseError::InvalidValue {
                                            field: "type"@,
                                            message:
                                                "Array with empty size [] requires an 'until' clause (e.g., 'until: eof' or 'until: <expression>')"@,
                                        },
                                    ),
                                }
                            } else {
                                match parse_usize_of(size) {
                                    Some(n) => Ok(
                                        SpecHirType::Array {
                                            element_type: Box::new(et),
                                            size: n as usize,
                                        },
                                    ),
                                    None => Ok(
                                        SpecHirType::DynamicArray {
                                            element_type: Box::new(et),
                                            size_field: size,
                                        },
                                    ),
                                }
                            }
                        },
                    }
                } else {
                    // the element text of a bracketed type is always
                    // shorter than the whole; this arm keeps the
                    // recursion well-founded
                    Err(SpecParseError::UnknownType(s))
                }
            },
            Ok(None) => {
                match prim_type_of(s) {
                    Some(p) => Ok(prim_spec_hir_type(p)),
                    None => {
                        if enums.contains(s) {
                            Ok(SpecHirType::Enum(s))
                        } else if known.contains(s) {
                            Ok(SpecHirType::UserDefined(s))
                        } else {
                            Err(SpecParseError::UnknownType(s))
                        }
                    },
                }
            },
        }
    }
}

/// The field type a primitive stands for.
pub open spec fn prim_spec_hir_type(p: HirPrimitiveType) -> SpecHirType {
    crate::pipeline::prim_hir_type_model(p)
}

} // verus!
verus! {

// ------------------------------------------------------------------
// Declarations
// ------------------------------------------------------------------

/// What parsing one field yields.  The surface schema reserves the
/// `skip`, `padding` and `align` keys; a field carrying one is rejected
/// rather than silently dropped.
pub open spec fn parse_field_model(
    f: RawField,
    known: Seq<Seq<char>>,
    enums: Seq<Seq<char>>,
) -> Result<SpecHirField, SpecParseError> {
    if f.skip is Some || f.padding is Some || f.align is Some {
        Err(
            SpecParseError::InvalidValue {
                field: f.name@,
                message: "positioning directives are not supported"@,
            },
        )
    } else {
        match parse_type_model(f.field_type@, known, enums, view_opt_string(f.until)) {
            Err(e) => Err(e),
            Ok(t) => match f.assertion {
                None => Ok(
                    SpecHirField {
                        name: f.name@,
                        doc: view_opt_string(f.doc),
                        field_type: t,
                        assertion: None,
                    },
                ),
                Some(av) => match parse_assertion_model(av, f.name@) {
                    Err(e) => Err(e),
                    Ok(a) => Ok(
                        SpecHirField {
                            name: f.name@,
                            doc: view_opt_string(f.doc),
                            field_type: t,
                            assertion: Some(a),
                        },
                    ),
                },
            },
        }
    }
}

/// The fields of a struct from index `i` on.
pub open spec fn fields_rest(
    fs: Seq<RawField>,
    i: int,
    known: Seq<Seq<char>>,
    enums: Seq<Seq<char>>,
    acc: Seq<SpecHirField>,
) -> Result<Seq<SpecHirField>, SpecParseError>
    decreases fs.len() - i,
{
    if i < 0 || i >= fs.len() {
        Ok(acc)
    } else {
        match parse_field_model(fs[i], known, enums) {
            Err(e) => Err(e),
            Ok(f) => fields_rest(fs, i + 1, known, enums, acc.push(f)),
        }
    }
}

/// What parsing one type declaration yields: only `struct` kinds exist,
/// and they must carry a `fields` entry.
pub open spec fn parse_type_def_model(
    td: RawTypeDef,
    known: Seq<Seq<char>>,
    enums: Seq<Seq<char>>,
) -> Result<SpecHirTypeDef, SpecParseError> {
    if td.type_kind@ == "struct"@ {
        match td.fields {
            None => Err(SpecParseError::MissingField("fields"@)),
            Some(fs) => match fields_rest(fs@, 0, known, enums, Seq::empty()) {
                Err(e) => Err(e),
                Ok(hfs) => Ok(
                    SpecHirTypeDef::Struct(
                        SpecHirStruct {
                            name: td.name@,
                            doc: view_opt_string(td.doc),
                            fields: hfs,
                        },
                    ),
                ),
            },
        }
    } else {
        Err(
            SpecParseError::InvalidValue {
                field: "type"@,
                message: "Unknown type kind '"@ + td.type_kind@ + "', expected 'struct'"@,
            },
        )
    }
}

/// The values of an enum from entry `i` on: keys must be strings, values
/// integers.
pub open spec fn enum_values_rest(
    entries: Seq<(RawValue, RawValue)>,
    i: int,
    acc: Seq<SpecHirEnumValue>,
) -> Result<Seq<SpecHirEnumValue>, SpecParseError>
    decreases entries.len() - i,
{
    if i < 0 || i >= entries.len() {
        Ok(acc)
    } else {
        match entries[i].0 {
            RawValue::Text(ks) => match entries[i].1 {
                RawValue::Int(n) => enum_values_rest(
                    entries,
                    i + 1,
                    acc.push(SpecHirEnumValue { name: ks@, value: n, doc: None }),
                ),
                _ => Err(
                    SpecParseError::InvalidValue {
                        field: "enum value '"@ + ks@ + "'"@,
                        message: "Enum values must be integers"@,
                    },
                ),
            },
            _ => Err(
                SpecParseError::InvalidValue {
                    field: "enum value name"@,
                    message: "Enum value names must be strings"@,
                },
            ),
        }
    }
}

/// What parsing one enum declaration yields.
pub open spec fn parse_enum_model(e: RawEnum) -> Result<SpecHirEnum, SpecParseError> {
    match parse_primitive_type_model(e.underlying_type@) {
        Err(er) => Err(er),
        Ok(ut) => match enum_values_rest(e.values@, 0, Seq::empty()) {
            Err(er) => Err(er),
            Ok(vals) => Ok(
                SpecHirEnum {
                    name: e.name@,
                    doc: view_opt_string(e.doc),
                    underlying_type: ut,
                    values: vals,
                },
            ),
        },
    }
}

/// The enums from index `i` on, with their names collected and checked
/// for duplicates.
pub open spec fn enums_rest(
    es: Seq<RawEnum>,
    i: int,
    names: Seq<Seq<char>>,
    acc: Seq<SpecHirEnum>,
) -> Result<(Seq<Seq<char>>, Seq<SpecHirEnum>), SpecParseError>
    decreases es.len() - i,
{
    if i < 0 || i >= es.len() {
        Ok((names, acc))
    } else if names.contains(es[i].name@) {
        Err(SpecParseError::DuplicateType(es[i].name@))
    } else {
        match parse_enum_model(es[i]) {
            Err(e) => Err(e),
            Ok(he) => enums_rest(es, i + 1, names.push(es[i].name@), acc.push(he)),
        }
    }
}

/// The type names from index `i` on, appended to the enum names and
/// checked for duplicates.
pub open spec fn type_names_rest(ts: Seq<RawTypeDef>, i: int, names: Seq<Seq<char>>) -> Result<
    Seq<Seq<char>>,
    SpecParseError,
>
    decreases ts.len() - i,
{
    if i < 0 || i >= ts.len() {
        Ok(names)
    } else if names.contains(ts[i].name@) {
        Err(SpecParseError::DuplicateType(ts[i].name@))
    } else {
        type_names_rest(ts, i + 1, names.push(ts[i].name@))
    }
}

/// The type declarations from index `i` on.
pub open spec fn typedefs_rest(
    ts: Seq<RawTypeDef>,
    i: int,
    known: Seq<Seq<char>>,
    enums: Seq<Seq<char>>,
    acc: Seq<SpecHirTypeDef>,
) -> Result<Seq<SpecHirTypeDef>, SpecParseError>
    decreases ts.len() - i,
{
    if i < 0 || i >= ts.len() {
        Ok(acc)
    } else {
        match parse_type_def_model(ts[i], known, enums) {
            Err(e) => Err(e),
            Ok(ht) => typedefs_rest(ts, i + 1, known, enums, acc.push(ht)),
        }
    }
}

/// What analyzing a whole document yields: the endianness, the enums
/// (names unique), the type names (unique against enums and each other),
/// then every struct against the full name tables.
pub open spec fn analyze_format_model(doc: RawFormat) -> Result<SpecHirFormat, SpecParseError> {
    match parse_endianness_model(view_opt_string(doc.endianness)) {
        Err(e) => Err(e),
        Ok(endianness) => match enums_rest(doc.enums@, 0, Seq::empty(), Seq::empty()) {
            Err(e) => Err(e),
            Ok(ne) => match type_names_rest(doc.types@, 0, ne.0) {
                Err(e) => Err(e),
                Ok(all_names) => match typedefs_rest(doc.types@, 0, all_names, ne.0, Seq::empty()) {
                    Err(e) => Err(e),
                    Ok(hts) => Ok(
                        SpecHirFormat {
                            name: doc.name@,
                            version: view_opt_string(doc.version),
                            endianness,
                            enums: ne.1,
                            types: hts,
                        },
                    ),
                },
            },
        },
    }
}

} // verus!
verus! {

// ------------------------------------------------------------------
// Executable analysis
// ------------------------------------------------------------------

fn name_list_contains(names: &Vec<String>, s: &str) -> (r: bool)
    ensures
        r == view_seq(names@).contains(s@),
{
    proof {
        assert(view_seq(names@).len() == names@.len());
    }
    let mut i: usize = 0;
    while i < names.len()
        invariant
            i <= names@.len(),
            forall|j: int| 0 <= j < i ==> view_seq(names@)[j] != s@,
        decreases names@.len() - i,
    {
        proof {
            crate::seq_view::lemma_view_seq_index(names@, i as int);
        }
        if str_eq(names[i].as_str(), s) {
            return true;
        }
        i += 1;
    }
    proof {
        if view_seq(names@).contains(s@) {
            let j = choose|j: int| 0 <= j < view_seq(names@).len() && view_seq(names@)[j] == s@;
            assert(false);
        }
    }
    false
}

/// The primitive named by an underlying-type string, or `InvalidValue`.
pub fn parse_primitive_type(type_str: &str) -> (r: Result<HirPrimitiveType, ParseError>)
    ensures
        ({
            let m = parse_primitive_type_model(type_str@);
            match r {
                Ok(p) => m == Ok::<HirPrimitiveType, SpecParseError>(p),
                Err(e) => m == Err::<HirPrimitiveType, SpecParseError>(e@),
            }
        }),
{
    if str_eq(type_str, "u8") {
        Ok(HirPrimitiveType::U8)
    } else if str_eq(type_str, "u16") {
        Ok(HirPrimitiveType::U16)
    } else if str_eq(type_str, "u32") {
        Ok(HirPrimitiveType::U32)
    } else if str_eq(type_str, "u64") {
        Ok(HirPrimitiveType::U64)
    } else if str_eq(type_str, "i8") {
        Ok(HirPrimitiveType::I8)
    } else if str_eq(type_str, "i16") {
        Ok(HirPrimitiveType::I16)
    } else if str_eq(type_str, "i32") {
        Ok(HirPrimitiveType::I32)
    } else if str_eq(type_str, "i64") {
        Ok(HirPrimitiveType::I64)
    } else {
        let mut m = String::from_str("Unknown primitive type '");
        m.append(type_str);
        m.append("'");
        Err(ParseError::InvalidValue { field: String::from_str("type"), message: m })
    }
}

/// The endianness named by the document, little when absent.
pub fn parse_endianness(endianness: Option<&String>) -> (r: Result<Endianness, ParseError>)
    ensures
        ({
            let o = match endianness {
                Some(s) => Some(s@),
                None => None,
            };
            let m = parse_endianness_model(o);
            match r {
                Ok(e) => m == Ok::<Endianness, SpecParseError>(e),
                Err(e) => m == Err::<Endianness, SpecParseError>(e@),
            }
        }),
{
    match endianness {
        None => Ok(Endianness::Little),
        Some(s) => {
            if str_eq(s.as_str(), "little") {
                Ok(Endianness::Little)
            } else if str_eq(s.as_str(), "big") {
                Ok(Endianness::Big)
            } else if str_eq(s.as_str(), "native") {
                Ok(Endianness::Native)
            } else {
                let mut m = String::from_str("Unknown endianness '");
                m.append(s.as_str());
                m.append("', expected 'little', 'big', or 'native'");
                Err(
                    ParseError::InvalidValue {
                        field: String::from_str("endianness"),
                        message: m,
                    },
                )
            }
        },
    }
}

fn parse_int(value: &RawValue, field_name: &String, context: &str) -> (r: Result<i64, ParseError>)
    ensures
        ({
            let m = parse_int_model(*value, field_name@, context@);
            match r {
                Ok(n) => m == Ok::<i64, SpecParseError>(n),
                Err(e) => m == Err::<i64, SpecParseError>(e@),
            }
        }),
{
    match value {
        RawValue::Int(i) => Ok(*i),
        _ => {
            let mut f = String::from_str(context);
            f.append(" for field '");
            f.append(field_name.as_str());
            f.append("'");
            Err(
                ParseError::InvalidValue {
                    field: f,
                    message: String::from_str("Value must be an integer"),
                },
            )
        },
    }
}

#[verifier::loop_isolation(false)]
fn parse_int_elems(xs: &Vec<RawValue>, field_name: &String, context: &str) -> (r: Result<
    Vec<i64>,
    ParseError,
>)
    ensures
        ({
            let m = int_list_rest(xs@, 0, field_name@, context@, Seq::empty());
            match r {
                Ok(ns) => m == Ok::<Seq<i64>, SpecParseError>(ns@),
                Err(e) => m == Err::<Seq<i64>, SpecParseError>(e@),
            }
        }),
{
    let mut ns: Vec<i64> = Vec::new();
    let mut i: usize = 0;
    while i < xs.len()
        invariant
            i <= xs@.len(),
            int_list_rest(xs@, 0, field_name@, context@, Seq::empty()) == int_list_rest(
                xs@,
                i as int,
                field_name@,
                context@,
                ns@,
            ),
        decreases xs@.len() - i,
    {
        match parse_int(&xs[i], field_name, context) {
            Ok(n) => {
                ns.push(n);
            },
            Err(e) => {
                return Err(e);
            },
        }
        i += 1;
    }
    Ok(ns)
}

fn parse_int_list(value: &RawValue, field_name: &String, context: &str) -> (r: Result<
    Vec<i64>,
    ParseError,
>)
    ensures
        ({
            let m = parse_int_list_model(*value, field_name@, context@);
            match r {
                Ok(ns) => m == Ok::<Seq<i64>, SpecParseError>(ns@),
                Err(e) => m == Err::<Seq<i64>, SpecParseError>(e@),
            }
        }),
{
    match value {
        RawValue::List(xs) => parse_int_elems(xs, field_name, context),
        _ => {
            let mut f = String::from_str(context);
            f.append(" for field '");
            f.append(field_name.as_str());
            f.append("'");
            Err(
                ParseError::InvalidValue {
                    field: f,
                    message: String::from_str("Value must be a sequence"),
                },
            )
        },
    }
}

fn parse_assert_value(value: &RawValue, field_name: &String) -> (r: Result<
    HirAssertValue,
    ParseError,
>)
    ensures
        ({
            let m = parse_assert_value_model(*value, field_name@);
            match r {
                Ok(av) => m matches Ok(ma) && av@ == ma,
                Err(e) => m matches Err(me) && e@ == me,
            }
        }),
{
    match value {
        RawValue::List(xs) => match parse_int_elems(xs, field_name, "array element") {
            Ok(ns) => Ok(HirAssertValue::IntArray(ns)),
            Err(e) => Err(e),
        },
        _ => match parse_int(value, field_name, "value") {
            Ok(n) => Ok(HirAssertValue::Int(n)),
            Err(e) => Err(e),
        },
    }
}

fn assert_err(prefix: &str, field_name: &String, message: &str) -> (r: ParseError)
    ensures
        r@ == (SpecParseError::InvalidValue {
            field: prefix@ + field_name@ + "'"@,
            message: message@,
        }),
{
    let mut f = String::from_str(prefix);
    f.append(field_name.as_str());
    f.append("'");
    ParseError::InvalidValue { field: f, message: String::from_str(message) }
}

fn parse_assertion(value: &RawValue, field_name: &String) -> (r: Result<HirAssertion, ParseError>)
    ensures
        ({
            let m = parse_assertion_model(*value, field_name@);
            match r {
                Ok(a) => m matches Ok(ma) && a@ == ma,
                Err(e) => m matches Err(me) && e@ == me,
            }
        }),
{
    match value {
        RawValue::Entries(entries) => {
            if entries.len() != 1 {
                return Err(
                    assert_err(
                        "assert for field '",
                        field_name,
                        "Assertion must have exactly one operation",
                    ),
                );
            }
            let kv = &entries[0];
            match &kv.0 {
                RawValue::Text(ks) => {
                    if str_eq(ks.as_str(), "equals") {
                        match parse_assert_value(&kv.1, field_name) {
                            Ok(av) => Ok(HirAssertion::Equals(av)),
                            Err(e) => Err(e),
                        }
                    } else if str_eq(ks.as_str(), "not_equals") {
                        match parse_assert_value(&kv.1, field_name) {
                            Ok(av) => Ok(HirAssertion::NotEquals(av)),
                            Err(e) => Err(e),
                        }
                    } else if str_eq(ks.as_str(), "greater_than") {
                        match parse_int(&kv.1, field_name, "greater_than") {
                            Ok(n) => Ok(HirAssertion::GreaterThan(n)),
                            Err(e) => Err(e),
                        }
                    } else if str_eq(ks.as_str(), "greater_or_equal") {
                        match parse_int(&kv.1, field_name, "greater_or_equal") {
                            Ok(n) => Ok(HirAssertion::GreaterOrEqual(n)),
                            Err(e) => Err(e),
                        }
                    } else if str_eq(ks.as_str(), "less_than") {
                        match parse_int(&kv.1, field_name, "less_than") {
                            Ok(n) => Ok(HirAssertion::LessThan(n)),
                            Err(e) => Err(e),
                        }
                    } else if str_eq(ks.as_str(), "less_or_equal") {
                        match parse_int(&kv.1, field_name, "less_or_equal") {
                            Ok(n) => Ok(HirAssertion::LessOrEqual(n)),
                            Err(e) => Err(e),
                        }
                    } else if str_eq(ks.as_str(), "in") {
                        match parse_int_list(&kv.1, field_name, "in") {
                            Ok(ns) => Ok(HirAssertion::In(ns)),
                            Err(e) => Err(e),
                        }
                    } else if str_eq(ks.as_str(), "not_in") {
                        match parse_int_list(&kv.1, field_name, "not_in") {
                            Ok(ns) => Ok(HirAssertion::NotIn(ns)),
                            Err(e) => Err(e),
                        }
                    } else if str_eq(ks.as_str(), "range") {
                        match &kv.1 {
                            RawValue::List(xs) => {
                                if xs.len() != 2 {
                                    return Err(
                                        assert_err(
                                            "assert.range for field '",
                                            field_name,
                                            "Range must have exactly two values [min, max]",
                                        ),
                                    );
                                }
                                let mn = match parse_int(&xs[0], field_name, "range[0]") {
                                    Ok(n) => n,
                                    Err(e) => {
                                        return Err(e);
                                    },
                                };
                                let mx = match parse_int(&xs[1], field_name, "range[1]") {
                                    Ok(n) => n,
                                    Err(e) => {
                                        return Err(e);
                                    },
                                };
                                Ok(HirAssertion::Range { min: mn, max: mx })
                            },
                            _ => Err(
                                assert_err(
                                    "assert.range for field '",
                                    field_name,
                                    "Range must be a sequence [min, max]",
                                ),
                            ),
                        }
                    } else {
                        let mut msg = String::from_str("Unknown assertion type '");
                        msg.append(ks.as_str());
                        msg.append("'");
                        let mut f = String::from_str("assert for field '");
                        f.append(field_name.as_str());
                        f.append("'");
                        Err(ParseError::InvalidValue { field: f, message: msg })
                    }
                },
                _ => Err(
                    assert_err(
                        "assert for field '",
                        field_name,
                        "Assertion key must be a string",
                    ),
                ),
            }
        },
        _ => Err(
            assert_err(
                "assert for field '",
                field_name,
                "Assertion must be a mapping (e.g., { equals: 42 })",
            ),
        ),
    }
}

} // verus!
verus! {

proof fn lemma_first_bracket_bounds(s: Seq<char>, j: int)
    requires
        0 <= j <= s.len(),
    ensures
        j <= first_bracket(s, j) <= s.len(),
    decreases s.len() - j,
{
    if j < s.len() && s[j] != '[' {
        lemma_first_bracket_bounds(s, j + 1);
    }
}

pub(crate) fn parse_usize_chars(v: &Vec<char>) -> (r: Option<usize>)
    ensures
        ({
            let m = parse_usize_of(v@);
            match r {
                Some(u) => m == Some(u as int),
                None => m is None,
            }
        }),
{
    if v.len() == 0 {
        return None;
    }
    let mut acc: usize = 0;
    let mut k: usize = 0;
    let mut fail: bool = false;
    while k < v.len() && !fail
        invariant
            k <= v@.len(),
            !fail ==> usize_value(v@, 0, 0) == usize_value(v@, k as int, acc as int),
            fail ==> usize_value(v@, 0, 0) is None,
        decreases v@.len() - k, (if fail { 0int } else { 1int }),
    {
        let c = v[k];
        if crate::expr_parser::ec_is_dec_digit(c) {
            let d32 = crate::expr_parser::ec_hex_digit_val(c);
            let d = d32 as usize;
            proof {
                assert(d as int == v@[k as int] as int - 48);
            }
            match acc.checked_mul(10) {
                Some(a1) => match a1.checked_add(d) {
                    Some(a2) => {
                        acc = a2;
                        k += 1;
                    },
                    None => {
                        fail = true;
                    },
                },
                None => {
                    fail = true;
                },
            }
        } else {
            fail = true;
        }
    }
    if fail {
        None
    } else {
        Some(acc)
    }
}

/// Splits a type string at its first `[`: the element text and the size
/// text, or `None` for a bracket-free string; a missing closing bracket
/// is malformed.
pub fn parse_array_type(type_str: &str) -> (r: Result<Option<(String, String)>, ParseError>)
    ensures
        ({
            let m = parse_array_type_model(type_str@);
            match r {
                Ok(Some(p)) => m matches Ok(mo) && mo matches Some(mp) && p.0@ == mp.0 && p.1@
                    == mp.1,
                Ok(None) => m matches Ok(mo) && mo is None,
                Err(e) => m matches Err(me) && e@ == me,
            }
        }),
{
    let cs = chars_of(type_str);
    let n = cs.len();
    let mut b: usize = 0;
    while b < n && cs[b] != '['
        invariant
            b <= n,
            n == type_str@.len(),
            cs@ == type_str@,
            first_bracket(type_str@, 0) == first_bracket(type_str@, b as int),
        decreases n - b,
    {
        b += 1;
    }
    if b >= n {
        return Ok(None);
    }
    if cs[n - 1] != ']' {
        let mut m = String::from_str("Invalid array syntax: ");
        m.append(type_str);
        return Err(ParseError::InvalidValue { field: String::from_str("type"), message: m });
    }
    let mut elemv: Vec<char> = Vec::new();
    let mut i: usize = 0;
    while i < b
        invariant
            i <= b <= n,
            cs@ == type_str@,
            n == type_str@.len(),
            elemv@ == type_str@.subrange(0, i as int),
        decreases b - i,
    {
        elemv.push(cs[i]);
        proof {
            assert(elemv@ =~= type_str@.subrange(0, i + 1 as int));
        }
        i += 1;
    }
    let mut sizev: Vec<char> = Vec::new();
    let mut j: usize = b + 1;
    while j < n - 1
        invariant
            b + 1 <= j <= n - 1,
            cs@ == type_str@,
            n == type_str@.len(),
            sizev@ == type_str@.subrange(b + 1 as int, j as int),
        decreases n - 1 - j,
    {
        sizev.push(cs[j]);
        proof {
            assert(sizev@ =~= type_str@.subrange(b + 1 as int, j + 1 as int));
        }
        j += 1;
    }
    proof {
        assert(elemv@ =~= type_str@.take(b as int));
    }
    Ok(Some((string_from_chars(&elemv), string_from_chars(&sizev))))
}

/// Classifies a type string against the known enum and type names, per
/// the table of the surface language.
#[verifier::loop_isolation(false)]
#[verifier::rlimit(100)]
pub fn parse_type(
    type_str: &String,
    known_types: &Vec<String>,
    enum_names: &Vec<String>,
    until: Option<&String>,
) -> (r: Result<HirType, ParseError>)
    ensures
        ({
            let uv = match until {
                Some(u) => Some(u@),
                None => None,
            };
            let m = parse_type_model(
                type_str@,
                view_seq(known_types@),
                view_seq(enum_names@),
                uv,
            );
            match r {
                Ok(t) => m matches Ok(mt) && t@ == mt,
                Err(e) => m matches Err(me) && e@ == me,
            }
        }),
    decreases type_str@.len(),
{
    if str_eq(type_str.as_str(), "cstr") {
        return Ok(HirType::NullTerminatedString);
    }
    let cs = chars_of(type_str.as_str());
    let n = cs.len();
    proof {
        reveal_strlit("str(");
        assert("str("@.len() == 4);
    }
    if n >= 4 && cs[0] == 's' && cs[1] == 't' && cs[2] == 'r' && cs[3] == '(' && cs[n - 1]
        == ')' {
        proof {
            assert(type_str@.subrange(0, 4) =~= "str("@);
        }
        let mut midv: Vec<char> = Vec::new();
        let mut i: usize = 4;
        while i < n - 1
            invariant
                4 <= i <= n - 1,
                cs@ == type_str@,
                n == type_str@.len(),
                midv@ == type_str@.subrange(4, i as int),
            decreases n - 1 - i,
        {
            midv.push(cs[i]);
            proof {
                assert(midv@ =~= type_str@.subrange(4, i + 1 as int));
            }
            i += 1;
        }
        return Ok(HirType::LengthPrefixedString { length_field: string_from_chars(&midv) });
    }
    proof {
        if n >= 4 && type_str@.subrange(0, 4) == "str("@ {
            assert(type_str@[0] == 's' && type_str@[1] == 't' && type_str@[2] == 'r'
                && type_str@[3] == '(') by {
                assert(type_str@.subrange(0, 4)[0] == 's');
                assert(type_str@.subrange(0, 4)[1] == 't');
                assert(type_str@.subrange(0, 4)[2] == 'r');
                assert(type_str@.subrange(0, 4)[3] == '(');
            }
        }
    }
    let arr = match parse_array_type(type_str.as_str()) {
        Ok(a) => a,
        Err(e) => {
            return Err(e);
        },
    };
    match arr {
        Some(pair) => {
            let (elem_s, size_s) = pair;
            let sizev = chars_of(size_s.as_str());
            if str_eq(elem_s.as_str(), "str") {
                match parse_usize_chars(&sizev) {
                    Some(sz) => Ok(HirType::FixedString { size: sz }),
                    None => {
                        let mut m = String::from_str(
                            "Fixed-length string must have numeric size, got '",
                        );
                        m.append(size_s.as_str());
                        m.append("'");
                        Err(
                            ParseError::InvalidValue {
                                field: String::from_str("type"),
                                message: m,
                            },
                        )
                    },
                }
            } else {
                proof {
                    lemma_first_bracket_bounds(type_str@, 0);
                    assert(elem_s@.len() < type_str@.len());
                }
                let et = match parse_type(&elem_s, known_types, enum_names, None) {
                    Ok(t) => t,
                    Err(e) => {
                        return Err(e);
                    },
                };
                if size_s.as_str().unicode_len() == 0 {
                    match until {
                        Some(u) => {
                            if str_eq(u.as_str(), "eof") {
                                Ok(HirType::UntilEofArray { element_type: Box::new(et) })
                            } else {
                                match parse_expr(u.as_str()) {
                                    Ok(c) => Ok(
                                        HirType::UntilConditionArray {
                                            element_type: Box::new(et),
                                            condition: c,
                                        },
                                    ),
                                    Err(e) => Err(e),
                                }
                            }
                        },
                        None => Err(
                            ParseError::InvalidValue {
                                field: String::from_str("type"),
                                message: String::from_str(
                                    "Array with empty size [] requires an 'until' clause (e.g., 'until: eof' or 'until: <expression>')",
                                ),
                            },
                        ),
                    }
                } else {
                    match parse_usize_chars(&sizev) {
                        Some(sz) => Ok(
                            HirType::Array { element_type: Box::new(et), size: sz },
                        ),
                        None => Ok(
                            HirType::DynamicArray {
                                element_type: Box::new(et),
                                size_field: size_s,
                            },
                        ),
                    }
                }
            }
        },
        None => {
            match parse_primitive_type(type_str.as_str()) {
                Ok(p) => Ok(crate::pipeline::primitive_to_hir_type(p)),
                Err(_) => {
                    if name_list_contains(enum_names, type_str.as_str()) {
                        Ok(HirType::Enum(type_str.clone()))
                    } else if name_list_contains(known_types, type_str.as_str()) {
                        Ok(HirType::UserDefined(type_str.clone()))
                    } else {
                        Err(ParseError::UnknownType(type_str.clone()))
                    }
                },
            }
        },
    }
}

} // verus!
verus! {

fn parse_field(
    field: &RawField,
    known_types: &Vec<String>,
    enum_names: &Vec<String>,
) -> (r: Result<HirField, ParseError>)
    ensures
        ({
            let m = parse_field_model(*field, view_seq(known_types@), view_seq(enum_names@));
            match r {
                Ok(f) => m matches Ok(mf) && f@ == mf,
                Err(e) => m matches Err(me) && e@ == me,
            }
        }),
{
    if field.skip.is_some() || field.padding.is_some() || field.align.is_some() {
        return Err(
            ParseError::InvalidValue {
                field: field.name.clone(),
                message: String::from_str("positioning directives are not supported"),
            },
        );
    }
    let until_ref = match &field.until {
        Some(u) => Some(u),
        None => None,
    };
    let t = match parse_type(&field.field_type, known_types, enum_names, until_ref) {
        Ok(t) => t,
        Err(e) => {
            return Err(e);
        },
    };
    let assertion = match &field.assertion {
        None => None,
        Some(av) => match parse_assertion(av, &field.name) {
            Ok(a) => Some(a),
            Err(e) => {
                return Err(e);
            },
        },
    };
    Ok(
        HirField {
            name: field.name.clone(),
            doc: crate::lir::clone_opt_string(&field.doc),
            field_type: t,
            assertion,
        },
    )
}

#[verifier::loop_isolation(false)]
fn parse_type_def(
    type_def: &RawTypeDef,
    known_types: &Vec<String>,
    enum_names: &Vec<String>,
) -> (r: Result<HirTypeDef, ParseError>)
    ensures
        ({
            let m = parse_type_def_model(*type_def, view_seq(known_types@), view_seq(enum_names@));
            match r {
                Ok(t) => m matches Ok(mt) && t@ == mt,
                Err(e) => m matches Err(me) && e@ == me,
            }
        }),
{
    if !str_eq(type_def.type_kind.as_str(), "struct") {
        let mut m = String::from_str("Unknown type kind '");
        m.append(type_def.type_kind.as_str());
        m.append("', expected 'struct'");
        return Err(ParseError::InvalidValue { field: String::from_str("type"), message: m });
    }
    let fields = match &type_def.fields {
        None => {
            return Err(ParseError::MissingField(String::from_str("fields")));
        },
        Some(fs) => fs,
    };
    let mut hir_fields: Vec<HirField> = Vec::new();
    proof {
        assert(view_seq(hir_fields@) =~= Seq::<crate::hir::SpecHirField>::empty());
    }
    let mut i: usize = 0;
    while i < fields.len()
        invariant
            i <= fields@.len(),
            fields_rest(
                fields@,
                0,
                view_seq(known_types@),
                view_seq(enum_names@),
                Seq::empty(),
            ) == fields_rest(
                fields@,
                i as int,
                view_seq(known_types@),
                view_seq(enum_names@),
                view_seq(hir_fields@),
            ),
        decreases fields@.len() - i,
    {
        match parse_field(&fields[i], known_types, enum_names) {
            Ok(f) => {
                proof {
                    crate::seq_view::lemma_view_seq_push_any(hir_fields@, f);
                }
                hir_fields.push(f);
            },
            Err(e) => {
                return Err(e);
            },
        }
        i += 1;
    }
    Ok(
        HirTypeDef::Struct(
            HirStruct {
                name: type_def.name.clone(),
                doc: crate::lir::clone_opt_string(&type_def.doc),
                fields: hir_fields,
            },
        ),
    )
}

#[verifier::loop_isolation(false)]
fn parse_enum(enum_def: &RawEnum) -> (r: Result<HirEnum, ParseError>)
    ensures
        ({
            let m = parse_enum_model(*enum_def);
            match r {
                Ok(e) => m matches Ok(me) && e@ == me,
                Err(e) => m matches Err(me) && e@ == me,
            }
        }),
{
    let underlying_type = match parse_primitive_type(enum_def.underlying_type.as_str()) {
        Ok(p) => p,
        Err(e) => {
            return Err(e);
        },
    };
    let mut values: Vec<HirEnumValue> = Vec::new();
    proof {
        assert(view_seq(values@) =~= Seq::<crate::hir::SpecHirEnumValue>::empty());
    }
    let mut i: usize = 0;
    while i < enum_def.values.len()
        invariant
            i <= enum_def.values@.len(),
            enum_values_rest(enum_def.values@, 0, Seq::empty()) == enum_values_rest(
                enum_def.values@,
                i as int,
                view_seq(values@),
            ),
        decreases enum_def.values@.len() - i,
    {
        let kv = &enum_def.values[i];
        match &kv.0 {
            RawValue::Text(ks) => match &kv.1 {
                RawValue::Int(n) => {
                    let hv = HirEnumValue { name: ks.clone(), value: *n, doc: None };
                    proof {
                        crate::seq_view::lemma_view_seq_push_any(values@, hv);
                    }
                    values.push(hv);
                },
                _ => {
                    let mut f = String::from_str("enum value '");
                    f.append(ks.as_str());
                    f.append("'");
                    return Err(
                        ParseError::InvalidValue {
                            field: f,
                            message: String::from_str("Enum values must be integers"),
                        },
                    );
                },
            },
            _ => {
                return Err(
                    ParseError::InvalidValue {
                        field: String::from_str("enum value name"),
                        message: String::from_str("Enum value names must be strings"),
                    },
                );
            },
        }
        i += 1;
    }
    Ok(
        HirEnum {
            name: enum_def.name.clone(),
            doc: crate::lir::clone_opt_string(&enum_def.doc),
            underlying_type,
            values,
        },
    )
}

/// Turns a decoded configuration document into a typed format: resolves
/// the endianness, the enums (names unique), the type names (unique
/// against enums and one another), and every struct field against the
/// collected name tables.
#[verifier::loop_isolation(false)]
#[verifier::rlimit(100)]
pub fn analyze_format(doc: &RawFormat) -> (r: Result<HirFormat, ParseError>)
    ensures
        ({
            let m = analyze_format_model(*doc);
            match r {
                Ok(h) => m matches Ok(mh) && h@ == mh,
                Err(e) => m matches Err(me) && e@ == me,
            }
        }),
{
    let endianness_ref = match &doc.endianness {
        Some(s) => Some(s),
        None => None,
    };
    let endianness = match parse_endianness(endianness_ref) {
        Ok(e) => e,
        Err(e) => {
            return Err(e);
        },
    };
    let mut enum_names: Vec<String> = Vec::new();
    let mut hir_enums: Vec<HirEnum> = Vec::new();
    proof {
        assert(view_seq(enum_names@) =~= Seq::<Seq<char>>::empty());
        assert(view_seq(hir_enums@) =~= Seq::<crate::hir::SpecHirEnum>::empty());
    }
    let mut i: usize = 0;
    while i < doc.enums.len()
        invariant
            i <= doc.enums@.len(),
            enums_rest(doc.enums@, 0, Seq::empty(), Seq::empty()) == enums_rest(
                doc.enums@,
                i as int,
                view_seq(enum_names@),
                view_seq(hir_enums@),
            ),
        decreases doc.enums@.len() - i,
    {
        let e = &doc.enums[i];
        if name_list_contains(&enum_names, e.name.as_str()) {
            return Err(ParseError::DuplicateType(e.name.clone()));
        }
        match parse_enum(e) {
            Ok(he) => {
                let nm = e.name.clone();
                proof {
                    crate::seq_view::lemma_view_seq_push_any(enum_names@, nm);
                    crate::seq_view::lemma_view_seq_push_any(hir_enums@, he);
                }
                enum_names.push(nm);
                hir_enums.push(he);
            },
            Err(er) => {
                return Err(er);
            },
        }
        i += 1;
    }
    let ghost enames = view_seq(enum_names@);
    let mut all_names: Vec<String> = Vec::new();
    let mut c: usize = 0;
    while c < enum_names.len()
        invariant
            c <= enum_names@.len(),
            view_seq(all_names@) == enames.subrange(0, c as int),
        decreases enum_names@.len() - c,
    {
        proof {
            crate::seq_view::lemma_view_seq_index(enum_names@, c as int);
        }
        let nm = enum_names[c].clone();
        proof {
            crate::seq_view::lemma_view_seq_push_any(all_names@, nm);
            assert(view_seq(all_names@).push(nm@) =~= enames.subrange(0, c + 1 as int));
        }
        all_names.push(nm);
        c += 1;
    }
    proof {
        assert(view_seq(all_names@) =~= enames);
    }
    let mut t: usize = 0;
    while t < doc.types.len()
        invariant
            t <= doc.types@.len(),
            type_names_rest(doc.types@, 0, enames) == type_names_rest(
                doc.types@,
                t as int,
                view_seq(all_names@),
            ),
        decreases doc.types@.len() - t,
    {
        let td = &doc.types[t];
        if name_list_contains(&all_names, td.name.as_str()) {
            return Err(ParseError::DuplicateType(td.name.clone()));
        }
        let nm = td.name.clone();
        proof {
            crate::seq_view::lemma_view_seq_push_any(all_names@, nm);
        }
        all_names.push(nm);
        t += 1;
    }
    let mut hir_types: Vec<HirTypeDef> = Vec::new();
    proof {
        assert(view_seq(hir_types@) =~= Seq::<crate::hir::SpecHirTypeDef>::empty());
    }
    let mut k: usize = 0;
    while k < doc.types.len()
        invariant
            k <= doc.types@.len(),
            typedefs_rest(doc.types@, 0, view_seq(all_names@), enames, Seq::empty())
                == typedefs_rest(
                doc.types@,
                k as int,
                view_seq(all_names@),
                enames,
                view_seq(hir_types@),
            ),
        decreases doc.types@.len() - k,
    {
        match parse_type_def(&doc.types[k], &all_names, &enum_names) {
            Ok(ht) => {
                proof {
                    crate::seq_view::lemma_view_seq_push_any(hir_types@, ht);
                }
                hir_types.push(ht);
            },
            Err(e) => {
                return Err(e);
            },
        }
        k += 1;
    }
    Ok(
        HirFormat {
            name: doc.name.clone(),
            version: crate::lir::clone_opt_string(&doc.version),
            endianness,
            enums: hir_enums,
            types: hir_types,
        },
    )
}

} // verus!
