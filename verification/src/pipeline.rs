//! The lowering pipeline: rewrites HIR into LIR, allocating dense variable
//! identifiers from a monotone counter.
//!
//! The whole rewrite is specified by the `*_model` functions over the views
//! of the HIR, and every executable function is proved to return exactly
//! what its model says.

use vstd::prelude::*;
use vstd::string::{StrSliceExecFns, StringExecFns};
use crate::hir::{
    Endianness, HirEnum, HirField, HirFormat, HirPrimitiveType, HirStruct, HirType, HirTypeDef,
    SpecHirEnum, SpecHirField, SpecHirFormat, SpecHirStruct, SpecHirType, SpecHirTypeDef,
};
use crate::lir::{
    LirField, LirFormat, LirOperation, LirType, SpecLirField, SpecLirFormat, SpecLirOp,
    SpecLirType, VarId, view_vars,
};
use crate::seq_view::view_seq;
use crate::strutil::dec_str;

verus! {

/// A failure of the lowering pipeline.
#[derive(Debug, PartialEq)]
pub enum PipelineError {
    /// A size field, length field, enum or struct reference cannot be
    /// resolved.
    UnknownType(String),
    /// Reserved for cyclic definitions; cycles are reported by the
    /// topological sort instead.
    RecursiveType(String),
}

/// View of [`PipelineError`].
#[verifier::ext_equal]
pub enum SpecPipelineError {
    UnknownType(Seq<char>),
    RecursiveType(Seq<char>),
}

impl View for PipelineError {
    type V = SpecPipelineError;

    open spec fn view(&self) -> SpecPipelineError {
        match self {
            PipelineError::UnknownType(s) => SpecPipelineError::UnknownType(s@),
            PipelineError::RecursiveType(s) => SpecPipelineError::RecursiveType(s@),
        }
    }
}

/// The human-readable message of a [`PipelineError`].
pub open spec fn pipeline_error_text(e: SpecPipelineError) -> Seq<char> {
    match e {
        SpecPipelineError::UnknownType(s) => "Unknown type reference: "@ + s,
        SpecPipelineError::RecursiveType(s) => "Recursive type reference: "@ + s,
    }
}

impl PipelineError {
    /// The human-readable message of this error.
    pub fn message(&self) -> (r: String)
        ensures
            r@ == pipeline_error_text(self@),
    {
        match self {
            PipelineError::UnknownType(s) => {
                let mut m = String::from_str("Unknown type reference: ");
                m.append(s.as_str());
                m
            },
            PipelineError::RecursiveType(s) => {
                let mut m = String::from_str("Recursive type reference: ");
                m.append(s.as_str());
                m
            },
        }
    }
}

/// View of a sibling map from field name to variable identifier.
pub open spec fn view_var_map(s: Seq<(String, VarId)>) -> Seq<(Seq<char>, int)> {
    s.map_values(|p: (String, VarId)| (p.0@, p.1 as int))
}

// ------------------------------------------------------------------
// The model
// ------------------------------------------------------------------

/// The HIR type a primitive stands for.
pub open spec fn prim_hir_type_model(p: HirPrimitiveType) -> SpecHirType {
    match p {
        HirPrimitiveType::U8 => SpecHirType::U8,
        HirPrimitiveType::U16 => SpecHirType::U16,
        HirPrimitiveType::U32 => SpecHirType::U32,
        HirPrimitiveType::U64 => SpecHirType::U64,
        HirPrimitiveType::I8 => SpecHirType::I8,
        HirPrimitiveType::I16 => SpecHirType::I16,
        HirPrimitiveType::I32 => SpecHirType::I32,
        HirPrimitiveType::I64 => SpecHirType::I64,
    }
}

/// A structural measure under which the rewrite of an enum field to its
/// underlying primitive is still descending.
pub open spec fn ty_size(t: SpecHirType) -> nat
    decreases t,
{
    match t {
        SpecHirType::Array { element_type, .. } => 1 + ty_size(*element_type),
        SpecHirType::DynamicArray { element_type, .. } => 1 + ty_size(*element_type),
        SpecHirType::UntilEofArray { element_type } => 1 + ty_size(*element_type),
        SpecHirType::UntilConditionArray { element_type, .. } => 1 + ty_size(*element_type),
        SpecHirType::Enum(_) => 2,
        _ => 1,
    }
}

/// How many fresh variables lowering one type allocates (one dummy per
/// array nesting level), the same for the read and the write direction.
pub open spec fn ty_demand(t: SpecHirType) -> nat
    decreases t,
{
    match t {
        SpecHirType::Array { element_type, .. } => 1 + ty_demand(*element_type),
        SpecHirType::DynamicArray { element_type, .. } => 1 + ty_demand(*element_type),
        SpecHirType::UntilEofArray { element_type } => 1 + ty_demand(*element_type),
        SpecHirType::UntilConditionArray { element_type, .. } => 1 + ty_demand(*element_type),
        _ => 0,
    }
}

/// Fresh variables demanded by one pass over the fields from index `i` on.
pub open spec fn fields_pass_demand(fields: Seq<SpecHirField>, i: int) -> nat
    decreases fields.len() - i,
{
    if i < 0 || i >= fields.len() {
        0
    } else {
        1 + ty_demand(fields[i].field_type) + fields_pass_demand(fields, i + 1)
    }
}

/// Fresh variables demanded by lowering one struct.
pub open spec fn struct_demand(s: SpecHirStruct) -> nat {
    fields_pass_demand(s.fields, 0) + 2 + fields_pass_demand(s.fields, 0)
}

/// Fresh variables demanded by lowering the structs from index `i` on.
pub open spec fn types_demand(types: Seq<SpecHirTypeDef>, i: int) -> nat
    decreases types.len() - i,
{
    if i < 0 || i >= types.len() {
        0
    } else {
        (match types[i] {
            SpecHirTypeDef::Struct(s) => struct_demand(s),
        }) + types_demand(types, i + 1)
    }
}

/// Fresh variables demanded by lowering a whole format.
pub open spec fn format_demand(h: SpecHirFormat) -> nat {
    types_demand(h.types, 0)
}

/// The first enum of the given name, searching from index `i`.
pub open spec fn find_enum_model(enums: Seq<SpecHirEnum>, name: Seq<char>, i: int) -> Option<
    SpecHirEnum,
>
    decreases enums.len() - i,
{
    if i < 0 || i >= enums.len() {
        None
    } else if enums[i].name == name {
        Some(enums[i])
    } else {
        find_enum_model(enums, name, i + 1)
    }
}

/// The binding of `name` in the sibling map, the latest insertion winning;
/// `i` counts how many leading entries are still to be searched.
pub open spec fn lookup_var_model(map: Seq<(Seq<char>, int)>, name: Seq<char>, i: int) -> Option<
    int,
>
    decreases i,
{
    if i <= 0 || i > map.len() {
        None
    } else if map[i - 1].0 == name {
        Some(map[i - 1].1)
    } else {
        lookup_var_model(map, name, i - 1)
    }
}

/// The text form of a type, as recorded in [`SpecLirField::type_info`].
pub open spec fn hir_type_text(t: SpecHirType) -> Seq<char>
    decreases t,
{
    match t {
        SpecHirType::U8 => "u8"@,
        SpecHirType::U16 => "u16"@,
        SpecHirType::U32 => "u32"@,
        SpecHirType::U64 => "u64"@,
        SpecHirType::I8 => "i8"@,
        SpecHirType::I16 => "i16"@,
        SpecHirType::I32 => "i32"@,
        SpecHirType::I64 => "i64"@,
        SpecHirType::Array { element_type, size } => hir_type_text(*element_type) + "["@ + dec_str(
            size as nat,
        ) + "]"@,
        SpecHirType::DynamicArray { element_type, size_field } => hir_type_text(*element_type)
            + "["@ + size_field + "]"@,
        SpecHirType::UntilEofArray { element_type } => hir_type_text(*element_type) + "[]"@,
        SpecHirType::UntilConditionArray { element_type, .. } => hir_type_text(*element_type)
            + "[]"@,
        SpecHirType::FixedString { size } => "str["@ + dec_str(size as nat) + "]"@,
        SpecHirType::NullTerminatedString => "cstr"@,
        SpecHirType::LengthPrefixedString { length_field } => "str("@ + length_field + ")"@,
        SpecHirType::Enum(name) => name,
        SpecHirType::UserDefined(name) => name,
    }
}

/// The read operation for one type.  Returns the operation and the counter
/// after the dummy variables of nested element operations were allocated.
pub open spec fn lower_read_model(
    t: SpecHirType,
    dest: int,
    e: Endianness,
    enums: Seq<SpecHirEnum>,
    map: Seq<(Seq<char>, int)>,
    ctr: int,
) -> Result<(SpecLirOp, int), SpecPipelineError>
    decreases ty_size(t),
{
    match t {
        SpecHirType::U8 => Ok((SpecLirOp::ReadU8 { dest }, ctr)),
        SpecHirType::U16 => Ok((SpecLirOp::ReadU16 { dest, endianness: e }, ctr)),
        SpecHirType::U32 => Ok((SpecLirOp::ReadU32 { dest, endianness: e }, ctr)),
        SpecHirType::U64 => Ok((SpecLirOp::ReadU64 { dest, endianness: e }, ctr)),
        SpecHirType::I8 => Ok((SpecLirOp::ReadI8 { dest }, ctr)),
        SpecHirType::I16 => Ok((SpecLirOp::ReadI16 { dest, endianness: e }, ctr)),
        SpecHirType::I32 => Ok((SpecLirOp::ReadI32 { dest, endianness: e }, ctr)),
        SpecHirType::I64 => Ok((SpecLirOp::ReadI64 { dest, endianness: e }, ctr)),
        SpecHirType::Array { element_type, size } => {
            match lower_read_model(*element_type, ctr, e, enums, map, ctr + 1) {
                Err(er) => Err(er),
                Ok((eop, c2)) => Ok(
                    (SpecLirOp::ReadArray { dest, element_op: Box::new(eop), count: size }, c2),
                ),
            }
        },
        SpecHirType::DynamicArray { element_type, size_field } => {
            match lookup_var_model(map, size_field, map.len() as int) {
                None => Err(
                    SpecPipelineError::UnknownType(
                        "Size field '"@ + size_field + "' not found"@,
                    ),
                ),
                Some(sv) => match lower_read_model(*element_type, ctr, e, enums, map, ctr + 1) {
                    Err(er) => Err(er),
                    Ok((eop, c2)) => Ok(
                        (
                            SpecLirOp::ReadDynamicArray {
                                dest,
                                element_op: Box::new(eop),
                                size_var: sv,
                            },
                            c2,
                        ),
                    ),
                },
            }
        },
        SpecHirType::UntilEofArray { element_type } => {
            match lower_read_model(*element_type, ctr, e, enums, map, ctr + 1) {
                Err(er) => Err(er),
                Ok((eop, c2)) => Ok(
                    (SpecLirOp::ReadUntilEofArray { dest, element_op: Box::new(eop) }, c2),
                ),
            }
        },
        SpecHirType::UntilConditionArray { element_type, condition } => {
            match lower_read_model(*element_type, ctr, e, enums, map, ctr + 1) {
                Err(er) => Err(er),
                Ok((eop, c2)) => Ok(
                    (
                        SpecLirOp::ReadUntilConditionArray {
                            dest,
                            element_op: Box::new(eop),
                            condition,
                        },
                        c2,
                    ),
                ),
            }
        },
        SpecHirType::FixedString { size } => Ok(
            (SpecLirOp::ReadFixedString { dest, length: size }, ctr),
        ),
        SpecHirType::NullTerminatedString => Ok(
            (SpecLirOp::ReadNullTerminatedString { dest }, ctr),
        ),
        SpecHirType::LengthPrefixedString { length_field } => {
            match lookup_var_model(map, length_field, map.len() as int) {
                None => Err(
                    SpecPipelineError::UnknownType(
                        "Length field '"@ + length_field + "' not found"@,
                    ),
                ),
                Some(lv) => Ok(
                    (SpecLirOp::ReadLengthPrefixedString { dest, length_var: lv }, ctr),
                ),
            }
        },
        SpecHirType::Enum(name) => {
            match find_enum_model(enums, name, 0) {
                None => Err(
                    SpecPipelineError::UnknownType("Enum '"@ + name + "' not found"@),
                ),
                Some(ed) => lower_read_model(
                    prim_hir_type_model(ed.underlying_type),
                    dest,
                    e,
                    enums,
                    map,
                    ctr,
                ),
            }
        },
        SpecHirType::UserDefined(name) => Ok(
            (SpecLirOp::ReadStruct { dest, struct_name: name }, ctr),
        ),
    }
}

/// The write operation for one type, symmetric to [`lower_read_model`].
pub open spec fn lower_write_model(
    t: SpecHirType,
    src: int,
    e: Endianness,
    enums: Seq<SpecHirEnum>,
    map: Seq<(Seq<char>, int)>,
    ctr: int,
) -> Result<(SpecLirOp, int), SpecPipelineError>
    decreases ty_size(t),
{
    match t {
        SpecHirType::U8 => Ok((SpecLirOp::WriteU8 { src }, ctr)),
        SpecHirType::U16 => Ok((SpecLirOp::WriteU16 { src, endianness: e }, ctr)),
        SpecHirType::U32 => Ok((SpecLirOp::WriteU32 { src, endianness: e }, ctr)),
        SpecHirType::U64 => Ok((SpecLirOp::WriteU64 { src, endianness: e }, ctr)),
        SpecHirType::I8 => Ok((SpecLirOp::WriteI8 { src }, ctr)),
        SpecHirType::I16 => Ok((SpecLirOp::WriteI16 { src, endianness: e }, ctr)),
        SpecHirType::I32 => Ok((SpecLirOp::WriteI32 { src, endianness: e }, ctr)),
        SpecHirType::I64 => Ok((SpecLirOp::WriteI64 { src, endianness: e }, ctr)),
        SpecHirType::Array { element_type, size } => {
            match lower_write_model(*element_type, ctr, e, enums, map, ctr + 1) {
                Err(er) => Err(er),
                Ok((eop, c2)) => Ok(
                    (SpecLirOp::WriteArray { src, element_op: Box::new(eop), count: size }, c2),
                ),
            }
        },
        SpecHirType::DynamicArray { element_type, size_field } => {
            match lookup_var_model(map, size_field, map.len() as int) {
                None => Err(
                    SpecPipelineError::UnknownType(
                        "Size field '"@ + size_field + "' not found"@,
                    ),
                ),
                Some(sv) => match lower_write_model(*element_type, ctr, e, enums, map, ctr + 1) {
                    Err(er) => Err(er),
                    Ok((eop, c2)) => Ok(
                        (
                            SpecLirOp::WriteDynamicArray {
                                src,
                                element_op: Box::new(eop),
                                size_var: sv,
                                size_field_name: size_field,
                            },
                            c2,
                        ),
                    ),
                },
            }
        },
        SpecHirType::UntilEofArray { element_type } => {
            match lower_write_model(*element_type, ctr, e, enums, map, ctr + 1) {
                Err(er) => Err(er),
                Ok((eop, c2)) => Ok(
                    (SpecLirOp::WriteUntilEofArray { src, element_op: Box::new(eop) }, c2),
                ),
            }
        },
        SpecHirType::UntilConditionArray { element_type, .. } => {
            match lower_write_model(*element_type, ctr, e, enums, map, ctr + 1) {
                Err(er) => Err(er),
                Ok((eop, c2)) => Ok(
                    (SpecLirOp::WriteUntilConditionArray { src, element_op: Box::new(eop) }, c2),
                ),
            }
        },
        SpecHirType::FixedString { size } => Ok(
            (SpecLirOp::WriteFixedString { src, length: size }, ctr),
        ),
        SpecHirType::NullTerminatedString => Ok(
            (SpecLirOp::WriteNullTerminatedString { src }, ctr),
        ),
        SpecHirType::LengthPrefixedString { length_field } => {
            match lookup_var_model(map, length_field, map.len() as int) {
                None => Err(
                    SpecPipelineError::UnknownType(
                        "Length field '"@ + length_field + "' not found"@,
                    ),
                ),
                Some(lv) => Ok(
                    (SpecLirOp::WriteLengthPrefixedString { src, length_var: lv }, ctr),
                ),
            }
        },
        SpecHirType::Enum(name) => {
            match find_enum_model(enums, name, 0) {
                None => Err(
                    SpecPipelineError::UnknownType("Enum '"@ + name + "' not found"@),
                ),
                Some(ed) => lower_write_model(
                    prim_hir_type_model(ed.underlying_type),
                    src,
                    e,
                    enums,
                    map,
                    ctr,
                ),
            }
        },
        SpecHirType::UserDefined(name) => Ok(
            (SpecLirOp::WriteStruct { src, struct_name: name }, ctr),
        ),
    }
}

/// The state of the read pass over a struct's fields.
#[verifier::ext_equal]
pub struct SpecReadState {
    pub ops: Seq<SpecLirOp>,
    pub lfields: Seq<SpecLirField>,
    pub fvars: Seq<int>,
    pub map: Seq<(Seq<char>, int)>,
    pub ctr: int,
}

/// The read pass from field index `i` on: allocates the field's variable,
/// records it, resolves the read operation against the earlier siblings,
/// and only then adds the field to the sibling map.
pub open spec fn read_pass_model(
    fields: Seq<SpecHirField>,
    i: int,
    e: Endianness,
    enums: Seq<SpecHirEnum>,
    st: SpecReadState,
) -> Result<SpecReadState, SpecPipelineError>
    decreases fields.len() - i,
{
    if i < 0 || i >= fields.len() {
        Ok(st)
    } else {
        let f = fields[i];
        let fv = st.ctr;
        let lf = SpecLirField {
            name: f.name,
            doc: f.doc,
            var_id: fv,
            type_info: hir_type_text(f.field_type),
            assertion: f.assertion,
        };
        match lower_read_model(f.field_type, fv, e, enums, st.map, st.ctr + 1) {
            Err(er) => Err(er),
            Ok((op, c2)) => read_pass_model(
                fields,
                i + 1,
                e,
                enums,
                SpecReadState {
                    ops: st.ops.push(op),
                    lfields: st.lfields.push(lf),
                    fvars: st.fvars.push(fv),
                    map: st.map.push((f.name, fv)),
                    ctr: c2,
                },
            ),
        }
    }
}

/// The write pass from field index `i` on: one `AccessField` and one write
/// operation per field, resolved against the complete sibling map.
pub open spec fn write_pass_model(
    fields: Seq<SpecHirField>,
    i: int,
    e: Endianness,
    enums: Seq<SpecHirEnum>,
    map: Seq<(Seq<char>, int)>,
    wp: int,
    ops: Seq<SpecLirOp>,
    ctr: int,
) -> Result<(Seq<SpecLirOp>, int), SpecPipelineError>
    decreases fields.len() - i,
{
    if i < 0 || i >= fields.len() {
        Ok((ops, ctr))
    } else {
        let f = fields[i];
        let fv = ctr;
        let acc = SpecLirOp::AccessField { dest: fv, struct_var: wp, field_index: i as usize };
        match lower_write_model(f.field_type, fv, e, enums, map, ctr + 1) {
            Err(er) => Err(er),
            Ok((op, c2)) => write_pass_model(
                fields,
                i + 1,
                e,
                enums,
                map,
                wp,
                ops.push(acc).push(op),
                c2,
            ),
        }
    }
}

/// The lowering of one struct: the read pass, the `CreateStruct` marker,
/// the write parameter, and the write pass.
pub open spec fn lower_struct_model(
    s: SpecHirStruct,
    e: Endianness,
    enums: Seq<SpecHirEnum>,
    ctr: int,
) -> Result<(SpecLirType, int), SpecPipelineError> {
    let st0 = SpecReadState {
        ops: Seq::empty(),
        lfields: Seq::empty(),
        fvars: Seq::empty(),
        map: Seq::empty(),
        ctr,
    };
    match read_pass_model(s.fields, 0, e, enums, st0) {
        Err(er) => Err(er),
        Ok(st) => {
            let result_var = st.ctr;
            let ops1 = st.ops.push(
                SpecLirOp::CreateStruct {
                    dest: result_var,
                    struct_name: s.name,
                    fields: st.fvars,
                },
            );
            let wp = st.ctr + 1;
            match write_pass_model(s.fields, 0, e, enums, st.map, wp, ops1, st.ctr + 2) {
                Err(er) => Err(er),
                Ok((ops2, c2)) => Ok(
                    (
                        SpecLirType {
                            name: s.name,
                            fields: st.lfields,
                            operations: ops2,
                            read_result: result_var,
                            write_param: wp,
                        },
                        c2,
                    ),
                ),
            }
        },
    }
}

/// The lowering of the structs from index `i` on.
pub open spec fn lower_types_model(
    types: Seq<SpecHirTypeDef>,
    i: int,
    e: Endianness,
    enums: Seq<SpecHirEnum>,
    acc: Seq<SpecLirType>,
    ctr: int,
) -> Result<(Seq<SpecLirType>, int), SpecPipelineError>
    decreases types.len() - i,
{
    if i < 0 || i >= types.len() {
        Ok((acc, ctr))
    } else {
        match types[i] {
            SpecHirTypeDef::Struct(s) => match lower_struct_model(s, e, enums, ctr) {
                Err(er) => Err(er),
                Ok((lt, c2)) => lower_types_model(types, i + 1, e, enums, acc.push(lt), c2),
            },
        }
    }
}

/// The lowering of a whole format.
pub open spec fn lower_model(h: SpecHirFormat, ctr: int) -> Result<
    (SpecLirFormat, int),
    SpecPipelineError,
> {
    match lower_types_model(h.types, 0, h.endianness, h.enums, Seq::empty(), ctr) {
        Err(er) => Err(er),
        Ok((ts, c2)) => Ok(
            (
                SpecLirFormat {
                    name: h.name,
                    endianness: h.endianness,
                    enums: h.enums,
                    types: ts,
                },
                c2,
            ),
        ),
    }
}

// ------------------------------------------------------------------
// Small lemmas tying executable views to the model's sequences
// ------------------------------------------------------------------

proof fn lemma_var_map_len(m: Seq<(String, VarId)>)
    ensures
        view_var_map(m).len() == m.len(),
{
}

proof fn lemma_var_map_index(m: Seq<(String, VarId)>, i: int)
    requires
        0 <= i < m.len(),
    ensures
        view_var_map(m).len() == m.len(),
        view_var_map(m)[i] == (m[i].0@, m[i].1 as int),
{
}

proof fn lemma_var_map_push(m: Seq<(String, VarId)>, s: String, v: VarId)
    ensures
        view_var_map(m.push((s, v))) == view_var_map(m).push((s@, v as int)),
{
    lemma_var_map_len(m);
    assert(view_var_map(m.push((s, v))) =~= view_var_map(m).push((s@, v as int)));
}

proof fn lemma_vars_push(s: Seq<VarId>, x: VarId)
    ensures
        view_vars(s.push(x)) == view_vars(s).push(x as int),
{
    assert(view_vars(s).len() == s.len());
    assert(view_vars(s.push(x)) =~= view_vars(s).push(x as int));
}

// ------------------------------------------------------------------
// Executable lowering
// ------------------------------------------------------------------

/// The HIR type a primitive stands for.
pub fn primitive_to_hir_type(prim: HirPrimitiveType) -> (t: HirType)
    ensures
        t@ == prim_hir_type_model(prim),
{
    match prim {
        HirPrimitiveType::U8 => HirType::U8,
        HirPrimitiveType::U16 => HirType::U16,
        HirPrimitiveType::U32 => HirType::U32,
        HirPrimitiveType::U64 => HirType::U64,
        HirPrimitiveType::I8 => HirType::I8,
        HirPrimitiveType::I16 => HirType::I16,
        HirPrimitiveType::I32 => HirType::I32,
        HirPrimitiveType::I64 => HirType::I64,
    }
}

fn find_enum(enums: &Vec<HirEnum>, name: &String) -> (r: Option<HirPrimitiveType>)
    ensures
        match find_enum_model(view_seq(enums@), name@, 0) {
            Some(ed) => r == Some(ed.underlying_type),
            None => r is None,
        },
{
    proof {
        assert(view_seq(enums@).len() == enums@.len());
    }
    let mut i: usize = 0;
    while i < enums.len()
        invariant
            i <= enums@.len(),
            view_seq(enums@).len() == enums@.len(),
            find_enum_model(view_seq(enums@), name@, 0) == find_enum_model(
                view_seq(enums@),
                name@,
                i as int,
            ),
        decreases enums@.len() - i,
    {
        proof {
            crate::seq_view::lemma_view_seq_index(enums@, i as int);
        }
        if crate::strutil::str_eq(enums[i].name.as_str(), name.as_str()) {
            return Some(enums[i].underlying_type);
        }
        i += 1;
    }
    None
}

fn lookup_var(map: &Vec<(String, VarId)>, name: &String) -> (r: Option<VarId>)
    ensures
        match lookup_var_model(view_var_map(map@), name@, map@.len() as int) {
            Some(v) => r matches Some(x) && x as int == v,
            None => r is None,
        },
{
    proof {
        lemma_var_map_len(map@);
    }
    let mut i: usize = map.len();
    while i > 0
        invariant
            i <= map@.len(),
            lookup_var_model(view_var_map(map@), name@, map@.len() as int)
                == lookup_var_model(view_var_map(map@), name@, i as int),
        decreases i,
    {
        let idx = i - 1;
        proof {
            lemma_var_map_index(map@, idx as int);
        }
        if crate::strutil::str_eq(map[idx].0.as_str(), name.as_str()) {
            return Some(map[idx].1);
        }
        i = idx;
    }
    None
}

fn size_field_msg(name: &String) -> (r: String)
    ensures
        r@ == "Size field '"@ + name@ + "' not found"@,
{
    let mut s = String::from_str("Size field '");
    s.append(name.as_str());
    s.append("' not found");
    s
}

fn length_field_msg(name: &String) -> (r: String)
    ensures
        r@ == "Length field '"@ + name@ + "' not found"@,
{
    let mut s = String::from_str("Length field '");
    s.append(name.as_str());
    s.append("' not found");
    s
}

fn enum_msg(name: &String) -> (r: String)
    ensures
        r@ == "Enum '"@ + name@ + "' not found"@,
{
    let mut s = String::from_str("Enum '");
    s.append(name.as_str());
    s.append("' not found");
    s
}

/// The lowering pipeline.  One instance owns the variable-identifier
/// counter for a single lowering session.
pub struct Pipeline {
    pub next_var_id: VarId,
}

impl Pipeline {
    /// A fresh pipeline whose counter starts at zero.
    pub fn new() -> (p: Pipeline)
        ensures
            p.next_var_id == 0,
    {
        Pipeline { next_var_id: 0 }
    }

    fn next_var(&mut self) -> (id: VarId)
        requires
            old(self).next_var_id < usize::MAX,
        ensures
            id == old(self).next_var_id,
            final(self).next_var_id == old(self).next_var_id + 1,
    {
        let id = self.next_var_id;
        self.next_var_id = self.next_var_id + 1;
        id
    }

    /// The text form of a type, as recorded in [`LirField::type_info`].
    pub fn hir_type_to_string(&self, ty: &HirType) -> (r: String)
        ensures
            r@ == hir_type_text(ty@),
        decreases *ty,
    {
        match ty {
            HirType::U8 => String::from_str("u8"),
            HirType::U16 => String::from_str("u16"),
            HirType::U32 => String::from_str("u32"),
            HirType::U64 => String::from_str("u64"),
            HirType::I8 => String::from_str("i8"),
            HirType::I16 => String::from_str("i16"),
            HirType::I32 => String::from_str("i32"),
            HirType::I64 => String::from_str("i64"),
            HirType::Array { element_type, size } => {
                let mut s = self.hir_type_to_string(element_type);
                s.append("[");
                let n = crate::strutil::usize_to_string(*size);
                s.append(n.as_str());
                s.append("]");
                s
            },
            HirType::DynamicArray { element_type, size_field } => {
                let mut s = self.hir_type_to_string(element_type);
                s.append("[");
                s.append(size_field.as_str());
                s.append("]");
                s
            },
            HirType::UntilEofArray { element_type } => {
                let mut s = self.hir_type_to_string(element_type);
                s.append("[]");
                s
            },
            HirType::UntilConditionArray { element_type, .. } => {
                let mut s = self.hir_type_to_string(element_type);
                s.append("[]");
                s
            },
            HirType::FixedString { size } => {
                let mut s = String::from_str("str[");
                let n = crate::strutil::usize_to_string(*size);
                s.append(n.as_str());
                s.append("]");
                s
            },
            HirType::NullTerminatedString => String::from_str("cstr"),
            HirType::LengthPrefixedString { length_field } => {
                let mut s = String::from_str("str(");
                s.append(length_field.as_str());
                s.append(")");
                s
            },
            HirType::Enum(name) => name.clone(),
            HirType::UserDefined(name) => name.clone(),
        }
    }

    fn lower_read_type(
        &mut self,
        ty: &HirType,
        dest: VarId,
        format: &HirFormat,
        field_map: &Vec<(String, VarId)>,
    ) -> (r: Result<LirOperation, PipelineError>)
        requires
            old(self).next_var_id + ty_demand(ty@) <= usize::MAX,
        ensures
            final(self).next_var_id >= old(self).next_var_id,
            final(self).next_var_id as int <= old(self).next_var_id as int + ty_demand(ty@),
            ({
                let m = lower_read_model(
                    ty@,
                    dest as int,
                    format@.endianness,
                    format@.enums,
                    view_var_map(field_map@),
                    old(self).next_var_id as int,
                );
                match r {
                    Ok(op) => m matches Ok(p) && op@ == p.0 && final(self).next_var_id as int
                        == p.1,
                    Err(er) => m matches Err(me) && er@ == me,
                }
            }),
        decreases ty_size(ty@),
    {
        match ty {
            HirType::U8 => Ok(LirOperation::ReadU8 { dest }),
            HirType::U16 => Ok(
                LirOperation::ReadU16 { dest, endianness: format.endianness },
            ),
            HirType::U32 => Ok(
                LirOperation::ReadU32 { dest, endianness: format.endianness },
            ),
            HirType::U64 => Ok(
                LirOperation::ReadU64 { dest, endianness: format.endianness },
            ),
            HirType::I8 => Ok(LirOperation::ReadI8 { dest }),
            HirType::I16 => Ok(
                LirOperation::ReadI16 { dest, endianness: format.endianness },
            ),
            HirType::I32 => Ok(
                LirOperation::ReadI32 { dest, endianness: format.endianness },
            ),
            HirType::I64 => Ok(
                LirOperation::ReadI64 { dest, endianness: format.endianness },
            ),
            HirType::Array { element_type, size } => {
                let dummy = self.next_var();
                match self.lower_read_type(&**element_type, dummy, format, field_map) {
                    Err(e) => Err(e),
                    Ok(eop) => Ok(
                        LirOperation::ReadArray {
                            dest,
                            element_op: Box::new(eop),
                            count: *size,
                        },
                    ),
                }
            },
            HirType::DynamicArray { element_type, size_field } => {
                match lookup_var(field_map, size_field) {
                    None => Err(PipelineError::UnknownType(size_field_msg(size_field))),
                    Some(size_var) => {
                        let dummy = self.next_var();
                        match self.lower_read_type(&**element_type, dummy, format, field_map) {
                            Err(e) => Err(e),
                            Ok(eop) => Ok(
                                LirOperation::ReadDynamicArray {
                                    dest,
                                    element_op: Box::new(eop),
                                    size_var,
                                },
                            ),
                        }
                    },
                }
            },
            HirType::UntilEofArray { element_type } => {
                let dummy = self.next_var();
                match self.lower_read_type(&**element_type, dummy, format, field_map) {
                    Err(e) => Err(e),
                    Ok(eop) => Ok(
                        LirOperation::ReadUntilEofArray { dest, element_op: Box::new(eop) },
                    ),
                }
            },
            HirType::UntilConditionArray { element_type, condition } => {
                let dummy = self.next_var();
                match self.lower_read_type(&**element_type, dummy, format, field_map) {
                    Err(e) => Err(e),
                    Ok(eop) => Ok(
                        LirOperation::ReadUntilConditionArray {
                            dest,
                            element_op: Box::new(eop),
                            condition: condition.clone(),
                        },
                    ),
                }
            },
            HirType::FixedString { size } => Ok(
                LirOperation::ReadFixedString { dest, length: *size },
            ),
            HirType::NullTerminatedString => Ok(
                LirOperation::ReadNullTerminatedString { dest },
            ),
            HirType::LengthPrefixedString { length_field } => {
                match lookup_var(field_map, length_field) {
                    None => Err(PipelineError::UnknownType(length_field_msg(length_field))),
                    Some(length_var) => Ok(
                        LirOperation::ReadLengthPrefixedString { dest, length_var },
                    ),
                }
            },
            HirType::Enum(name) => {
                match find_enum(&format.enums, name) {
                    None => Err(PipelineError::UnknownType(enum_msg(name))),
                    Some(ut) => {
                        let underlying = primitive_to_hir_type(ut);
                        self.lower_read_type(&underlying, dest, format, field_map)
                    },
                }
            },
            HirType::UserDefined(name) => Ok(
                LirOperation::ReadStruct { dest, struct_name: name.clone() },
            ),
        }
    }

    fn lower_write_type(
        &mut self,
        ty: &HirType,
        src: VarId,
        format: &HirFormat,
        field_map: &Vec<(String, VarId)>,
    ) -> (r: Result<LirOperation, PipelineError>)
        requires
            old(self).next_var_id + ty_demand(ty@) <= usize::MAX,
        ensures
            final(self).next_var_id >= old(self).next_var_id,
            final(self).next_var_id as int <= old(self).next_var_id as int + ty_demand(ty@),
            ({
                let m = lower_write_model(
                    ty@,
                    src as int,
                    format@.endianness,
                    format@.enums,
                    view_var_map(field_map@),
                    old(self).next_var_id as int,
                );
                match r {
                    Ok(op) => m matches Ok(p) && op@ == p.0 && final(self).next_var_id as int
                        == p.1,
                    Err(er) => m matches Err(me) && er@ == me,
                }
            }),
        decreases ty_size(ty@),
    {
        match ty {
            HirType::U8 => Ok(LirOperation::WriteU8 { src }),
            HirType::U16 => Ok(
                LirOperation::WriteU16 { src, endianness: format.endianness },
            ),
            HirType::U32 => Ok(
                LirOperation::WriteU32 { src, endianness: format.endianness },
            ),
            HirType::U64 => Ok(
                LirOperation::WriteU64 { src, endianness: format.endianness },
            ),
            HirType::I8 => Ok(LirOperation::WriteI8 { src }),
            HirType::I16 => Ok(
                LirOperation::WriteI16 { src, endianness: format.endianness },
            ),
            HirType::I32 => Ok(
                LirOperation::WriteI32 { src, endianness: format.endianness },
            ),
            HirType::I64 => Ok(
                LirOperation::WriteI64 { src, endianness: format.endianness },
            ),
            HirType::Array { element_type, size } => {
                let dummy = self.next_var();
                match self.lower_write_type(&**element_type, dummy, format, field_map) {
                    Err(e) => Err(e),
                    Ok(eop) => Ok(
                        LirOperation::WriteArray {
                            src,
                            element_op: Box::new(eop),
                            count: *size,
                        },
                    ),
                }
            },
            HirType::DynamicArray { element_type, size_field } => {
                match lookup_var(field_map, size_field) {
                    None => Err(PipelineError::UnknownType(size_field_msg(size_field))),
                    Some(size_var) => {
                        let dummy = self.next_var();
                        match self.lower_write_type(&**element_type, dummy, format, field_map) {
                            Err(e) => Err(e),
                            Ok(eop) => Ok(
                                LirOperation::WriteDynamicArray {
                                    src,
                                    element_op: Box::new(eop),
                                    size_var,
                                    size_field_name: size_field.clone(),
                                },
                            ),
                        }
                    },
                }
            },
            HirType::UntilEofArray { element_type } => {
                let dummy = self.next_var();
                match self.lower_write_type(&**element_type, dummy, format, field_map) {
                    Err(e) => Err(e),
                    Ok(eop) => Ok(
                        LirOperation::WriteUntilEofArray { src, element_op: Box::new(eop) },
                    ),
                }
            },
            HirType::UntilConditionArray { element_type, .. } => {
                let dummy = self.next_var();
                match self.lower_write_type(&**element_type, dummy, format, field_map) {
                    Err(e) => Err(e),
                    Ok(eop) => Ok(
                        LirOperation::WriteUntilConditionArray {
                            src,
                            element_op: Box::new(eop),
                        },
                    ),
                }
            },
            HirType::FixedString { size } => Ok(
                LirOperation::WriteFixedString { src, length: *size },
            ),
            HirType::NullTerminatedString => Ok(
                LirOperation::WriteNullTerminatedString { src },
            ),
            HirType::LengthPrefixedString { length_field } => {
                match lookup_var(field_map, length_field) {
                    None => Err(PipelineError::UnknownType(length_field_msg(length_field))),
                    Some(length_var) => Ok(
                        LirOperation::WriteLengthPrefixedString { src, length_var },
                    ),
                }
            },
            HirType::Enum(name) => {
                match find_enum(&format.enums, name) {
                    None => Err(PipelineError::UnknownType(enum_msg(name))),
                    Some(ut) => {
                        let underlying = primitive_to_hir_type(ut);
                        self.lower_write_type(&underlying, src, format, field_map)
                    },
                }
            },
            HirType::UserDefined(name) => Ok(
                LirOperation::WriteStruct { src, struct_name: name.clone() },
            ),
        }
    }
}

impl Pipeline {
    /// Lowers one struct: the read pass, the `CreateStruct` marker, and
    /// the write pass, exactly as [`lower_struct_model`] states.
    #[verifier::loop_isolation(false)]
    fn lower_struct(&mut self, struct_def: &HirStruct, format: &HirFormat) -> (r: Result<
        LirType,
        PipelineError,
    >)
        requires
            old(self).next_var_id + struct_demand(struct_def@) <= usize::MAX,
        ensures
            final(self).next_var_id >= old(self).next_var_id,
            final(self).next_var_id as int <= old(self).next_var_id as int + struct_demand(
                struct_def@,
            ),
            ({
                let m = lower_struct_model(
                    struct_def@,
                    format@.endianness,
                    format@.enums,
                    old(self).next_var_id as int,
                );
                match r {
                    Ok(lt) => m matches Ok(p) && lt@ == p.0 && final(self).next_var_id as int
                        == p.1,
                    Err(er) => m matches Err(me) && er@ == me,
                }
            }),
    {
        let ghost ctr0 = self.next_var_id as int;
        let ghost e = format@.endianness;
        let ghost enums_v = format@.enums;
        let ghost fields_v = struct_def@.fields;
        let ghost st0 = SpecReadState {
            ops: Seq::empty(),
            lfields: Seq::empty(),
            fvars: Seq::empty(),
            map: Seq::empty(),
            ctr: ctr0,
        };
        let mut ops: Vec<LirOperation> = Vec::new();
        let mut lir_fields: Vec<LirField> = Vec::new();
        let mut field_vars: Vec<VarId> = Vec::new();
        let mut field_name_to_var: Vec<(String, VarId)> = Vec::new();
        proof {
            assert(fields_v.len() == struct_def.fields@.len());
            assert(view_seq(ops@) =~= Seq::<SpecLirOp>::empty());
            assert(view_seq(lir_fields@) =~= Seq::<SpecLirField>::empty());
            assert(view_vars(field_vars@) =~= Seq::<int>::empty());
            assert(view_var_map(field_name_to_var@) =~= Seq::<(Seq<char>, int)>::empty());
        }
        let mut i: usize = 0;
        while i < struct_def.fields.len()
            invariant
                i <= fields_v.len(),
                self.next_var_id as int + fields_pass_demand(fields_v, i as int) + 2
                    + fields_pass_demand(fields_v, 0) <= usize::MAX,
                self.next_var_id as int + fields_pass_demand(fields_v, i as int) <= ctr0
                    + fields_pass_demand(fields_v, 0),
                self.next_var_id as int >= ctr0,
                read_pass_model(
                    fields_v,
                    i as int,
                    e,
                    enums_v,
                    SpecReadState {
                        ops: view_seq(ops@),
                        lfields: view_seq(lir_fields@),
                        fvars: view_vars(field_vars@),
                        map: view_var_map(field_name_to_var@),
                        ctr: self.next_var_id as int,
                    },
                ) == read_pass_model(fields_v, 0, e, enums_v, st0),
            decreases fields_v.len() - i,
        {
            proof {
                crate::seq_view::lemma_view_seq_index(struct_def.fields@, i as int);
            }
            let field = &struct_def.fields[i];
            let field_var = self.next_var();
            let type_info = self.hir_type_to_string(&field.field_type);
            let lf = LirField {
                name: field.name.clone(),
                doc: crate::lir::clone_opt_string(&field.doc),
                var_id: field_var,
                type_info,
                assertion: crate::lir::clone_opt_assertion(&field.assertion),
            };
            let read_op = match self.lower_read_type(
                &field.field_type,
                field_var,
                format,
                &field_name_to_var,
            ) {
                Ok(op) => op,
                Err(er) => {
                    return Err(er);
                },
            };
            proof {
                crate::seq_view::lemma_view_seq_push_any(ops@, read_op);
                crate::seq_view::lemma_view_seq_push_any(lir_fields@, lf);
                lemma_vars_push(field_vars@, field_var);
                lemma_var_map_push(field_name_to_var@, lf.name, field_var);
                assert(lf@ =~= SpecLirField {
                    name: fields_v[i as int].name,
                    doc: fields_v[i as int].doc,
                    var_id: field_var as int,
                    type_info: hir_type_text(fields_v[i as int].field_type),
                    assertion: fields_v[i as int].assertion,
                });
            }
            let name_key = lf.name.clone();
            ops.push(read_op);
            lir_fields.push(lf);
            field_vars.push(field_var);
            field_name_to_var.push((name_key, field_var));
            i += 1;
        }
        let ghost st_read = SpecReadState {
            ops: view_seq(ops@),
            lfields: view_seq(lir_fields@),
            fvars: view_vars(field_vars@),
            map: view_var_map(field_name_to_var@),
            ctr: self.next_var_id as int,
        };
        proof {
            assert(read_pass_model(fields_v, 0, e, enums_v, st0) == Ok::<
                SpecReadState,
                SpecPipelineError,
            >(st_read));
        }
        let result_var = self.next_var();
        let create_op = LirOperation::CreateStruct {
            dest: result_var,
            struct_name: struct_def.name.clone(),
            fields: crate::lir::clone_var_vec(&field_vars),
        };
        proof {
            crate::seq_view::lemma_view_seq_push_any(ops@, create_op);
        }
        ops.push(create_op);
        let ghost ops1 = view_seq(ops@);
        let write_param = self.next_var();
        let ghost wp_spec = write_param as int;
        let ghost wctr0 = self.next_var_id as int;
        proof {
            assert(ops1 =~= st_read.ops.push(
                SpecLirOp::CreateStruct {
                    dest: st_read.ctr,
                    struct_name: struct_def@.name,
                    fields: st_read.fvars,
                },
            ));
        }
        let mut j: usize = 0;
        while j < struct_def.fields.len()
            invariant
                j <= fields_v.len(),
                self.next_var_id as int + fields_pass_demand(fields_v, j as int) <= usize::MAX,
                self.next_var_id as int + fields_pass_demand(fields_v, j as int) <= wctr0
                    + fields_pass_demand(fields_v, 0),
                self.next_var_id as int >= wctr0,
                view_seq(lir_fields@) == st_read.lfields,
                view_var_map(field_name_to_var@) == st_read.map,
                write_pass_model(
                    fields_v,
                    j as int,
                    e,
                    enums_v,
                    st_read.map,
                    wp_spec,
                    view_seq(ops@),
                    self.next_var_id as int,
                ) == write_pass_model(fields_v, 0, e, enums_v, st_read.map, wp_spec, ops1, wctr0),
            decreases fields_v.len() - j,
        {
            proof {
                crate::seq_view::lemma_view_seq_index(struct_def.fields@, j as int);
            }
            let field = &struct_def.fields[j];
            let field_var = self.next_var();
            let acc_op = LirOperation::AccessField {
                dest: field_var,
                struct_var: write_param,
                field_index: j,
            };
            let write_op = match self.lower_write_type(
                &field.field_type,
                field_var,
                format,
                &field_name_to_var,
            ) {
                Ok(op) => op,
                Err(er) => {
                    return Err(er);
                },
            };
            proof {
                crate::seq_view::lemma_view_seq_push_any(ops@, acc_op);
                crate::seq_view::lemma_view_seq_push_any(ops@.push(acc_op), write_op);
            }
            ops.push(acc_op);
            ops.push(write_op);
            j += 1;
        }
        let lt = LirType {
            name: struct_def.name.clone(),
            fields: lir_fields,
            operations: ops,
            read_result: result_var,
            write_param,
        };
        proof {
            let m = lower_struct_model(struct_def@, e, enums_v, ctr0);
            assert(m matches Ok(p) && lt@ =~= p.0 && self.next_var_id as int == p.1);
        }
        Ok(lt)
    }

    /// Lowers a whole format, exactly as [`lower_model`] states.
    #[verifier::loop_isolation(false)]
    pub fn lower(&mut self, hir: HirFormat) -> (r: Result<LirFormat, PipelineError>)
        requires
            old(self).next_var_id + format_demand(hir@) <= usize::MAX,
        ensures
            ({
                let m = lower_model(hir@, old(self).next_var_id as int);
                match r {
                    Ok(lir) => m matches Ok(p) && lir@ == p.0 && final(self).next_var_id as int
                        == p.1,
                    Err(er) => m matches Err(me) && er@ == me,
                }
            }),
    {
        let ghost ctr0 = self.next_var_id as int;
        let ghost e = hir@.endianness;
        let ghost enums_v = hir@.enums;
        let ghost types_v = hir@.types;
        let mut lir_types: Vec<LirType> = Vec::new();
        proof {
            assert(types_v.len() == hir.types@.len());
            assert(view_seq(lir_types@) =~= Seq::<SpecLirType>::empty());
        }
        let mut i: usize = 0;
        while i < hir.types.len()
            invariant
                i <= types_v.len(),
                self.next_var_id as int + types_demand(types_v, i as int) <= usize::MAX,
                lower_types_model(
                    types_v,
                    i as int,
                    e,
                    enums_v,
                    view_seq(lir_types@),
                    self.next_var_id as int,
                ) == lower_types_model(types_v, 0, e, enums_v, Seq::empty(), ctr0),
            decreases types_v.len() - i,
        {
            proof {
                crate::seq_view::lemma_view_seq_index(hir.types@, i as int);
            }
            match &hir.types[i] {
                HirTypeDef::Struct(struct_def) => {
                    let lt = match self.lower_struct(struct_def, &hir) {
                        Ok(t) => t,
                        Err(er) => {
                            return Err(er);
                        },
                    };
                    proof {
                        crate::seq_view::lemma_view_seq_push_any(lir_types@, lt);
                    }
                    lir_types.push(lt);
                },
            }
            i += 1;
        }
        let lir = LirFormat {
            name: hir.name,
            endianness: hir.endianness,
            enums: hir.enums,
            types: lir_types,
        };
        proof {
            let m = lower_model(hir@, ctr0);
            assert(m matches Ok(p) && lir@ =~= p.0 && self.next_var_id as int == p.1);
        }
        Ok(lir)
    }
}

impl Default for Pipeline {
    /// A fresh pipeline whose counter starts at zero.
    fn default() -> (p: Pipeline)
        ensures
            p.next_var_id == 0,
    {
        Pipeline::new()
    }
}

// ------------------------------------------------------------------
// The executable twin of the variable demand, so that callers can test
// the budget of `lower` before calling it.
// ------------------------------------------------------------------

fn ty_demand_exec(t: &HirType) -> (r: Option<u64>)
    ensures
        match r {
            Some(d) => d == ty_demand(t@),
            None => ty_demand(t@) > u64::MAX,
        },
    decreases *t,
{
    match t {
        HirType::Array { element_type, .. } => match ty_demand_exec(&**element_type) {
            Some(d) => d.checked_add(1),
            None => None,
        },
        HirType::DynamicArray { element_type, .. } => match ty_demand_exec(&**element_type) {
            Some(d) => d.checked_add(1),
            None => None,
        },
        HirType::UntilEofArray { element_type } => match ty_demand_exec(&**element_type) {
            Some(d) => d.checked_add(1),
            None => None,
        },
        HirType::UntilConditionArray { element_type, .. } => match ty_demand_exec(
            &**element_type,
        ) {
            Some(d) => d.checked_add(1),
            None => None,
        },
        _ => Some(0),
    }
}

#[verifier::loop_isolation(false)]
fn struct_demand_exec(s: &HirStruct) -> (r: Option<u64>)
    ensures
        match r {
            Some(d) => d == struct_demand(s@),
            None => struct_demand(s@) > u64::MAX,
        },
{
    let ghost fields_v = s@.fields;
    proof {
        assert(fields_v.len() == s.fields@.len());
    }
    let mut total: u64 = 0;
    let mut i: usize = s.fields.len();
    while i > 0
        invariant
            i <= fields_v.len(),
            total == fields_pass_demand(fields_v, i as int),
        decreases i,
    {
        let idx = i - 1;
        proof {
            crate::seq_view::lemma_view_seq_index(s.fields@, idx as int);
        }
        let d = match ty_demand_exec(&s.fields[idx].field_type) {
            Some(d) => d,
            None => {
                proof {
                    lemma_fields_pass_demand_ge(fields_v, idx as int);
                    lemma_fields_pass_demand_mono(fields_v, 0, idx as int);
                }
                return None;
            },
        };
        let step = match d.checked_add(1) {
            Some(x) => x,
            None => {
                proof {
                    lemma_fields_pass_demand_ge(fields_v, idx as int);
                    lemma_fields_pass_demand_mono(fields_v, 0, idx as int);
                }
                return None;
            },
        };
        total = match total.checked_add(step) {
            Some(x) => x,
            None => {
                proof {
                    lemma_fields_pass_demand_ge(fields_v, idx as int);
                    lemma_fields_pass_demand_mono(fields_v, 0, idx as int);
                }
                return None;
            },
        };
        i = idx;
    }
    match total.checked_mul(2) {
        Some(x) => x.checked_add(2),
        None => None,
    }
}

/// The pass demand from index `i` is at least the demand of field `i` plus
/// the demand of the rest.
proof fn lemma_fields_pass_demand_ge(fields: Seq<SpecHirField>, i: int)
    requires
        0 <= i < fields.len(),
    ensures
        fields_pass_demand(fields, i) >= 1 + ty_demand(fields[i].field_type),
        fields_pass_demand(fields, i) >= fields_pass_demand(fields, i + 1),
{
}

/// The pass demand shrinks as the start index grows.
proof fn lemma_fields_pass_demand_mono(fields: Seq<SpecHirField>, i: int, j: int)
    requires
        0 <= i <= j,
    ensures
        fields_pass_demand(fields, i) >= fields_pass_demand(fields, j),
    decreases j - i,
{
    if i < j {
        if i < fields.len() {
            lemma_fields_pass_demand_mono(fields, i + 1, j);
        } else {
            lemma_fields_pass_demand_mono(fields, i + 1, j);
        }
    }
}

/// The struct demand shrinks as the start index grows.
proof fn lemma_types_demand_mono(types: Seq<SpecHirTypeDef>, i: int, j: int)
    requires
        0 <= i <= j,
    ensures
        types_demand(types, i) >= types_demand(types, j),
    decreases j - i,
{
    if i < j {
        lemma_types_demand_mono(types, i + 1, j);
    }
}

/// How many fresh variables `lower` will allocate for this format, or
/// `None` where the count does not fit in `u64`.
#[verifier::loop_isolation(false)]
pub fn lower_demand(hir: &HirFormat) -> (r: Option<u64>)
    ensures
        match r {
            Some(d) => d == format_demand(hir@),
            None => format_demand(hir@) > u64::MAX,
        },
{
    let ghost types_v = hir@.types;
    proof {
        assert(types_v.len() == hir.types@.len());
    }
    let mut total: u64 = 0;
    let mut i: usize = hir.types.len();
    while i > 0
        invariant
            i <= types_v.len(),
            total == types_demand(types_v, i as int),
        decreases i,
    {
        let idx = i - 1;
        proof {
            crate::seq_view::lemma_view_seq_index(hir.types@, idx as int);
        }
        let sd = match &hir.types[idx] {
            HirTypeDef::Struct(s) => struct_demand_exec(s),
        };
        let sd = match sd {
            Some(d) => d,
            None => {
                proof {
                    lemma_types_demand_ge(types_v, idx as int);
                    lemma_types_demand_mono(types_v, 0, idx as int);
                }
                return None;
            },
        };
        total = match total.checked_add(sd) {
            Some(x) => x,
            None => {
                proof {
                    lemma_types_demand_ge(types_v, idx as int);
                    lemma_types_demand_mono(types_v, 0, idx as int);
                }
                return None;
            },
        };
        i = idx;
    }
    Some(total)
}

/// The demand of the structs from index `i` covers the struct at `i`.
proof fn lemma_types_demand_ge(types: Seq<SpecHirTypeDef>, i: int)
    requires
        0 <= i < types.len(),
    ensures
        types_demand(types, i) >= (match types[i] {
            SpecHirTypeDef::Struct(s) => struct_demand(s),
        }),
        types_demand(types, i) >= types_demand(types, i + 1),
{
}

} // verus!
