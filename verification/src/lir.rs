//! The low-level intermediate representation (LIR): a flat operation list
//! per struct with integer-identified dataflow, together with its view.

use vstd::prelude::*;
use crate::expr::{Expr, SpecExpr, view_expr};
use crate::hir::{
    Endianness, HirEnum, HirEnumValue, HirAssertion, HirAssertValue, SpecHirEnum,
    SpecHirAssertion, view_opt_string,
};

verus! {

broadcast use vstd::seq_lib::group_seq_properties;

/// A dense identifier of an SSA-style slot in an operation list.
pub type VarId = usize;

/// A lowered format: carried-through enums and one [`LirType`] per struct.
#[derive(Debug, PartialEq)]
pub struct LirFormat {
    pub name: String,
    pub endianness: Endianness,
    pub enums: Vec<HirEnum>,
    pub types: Vec<LirType>,
}

/// A lowered struct: its fields, its operations, and the two distinguished
/// variables holding the read result and the write parameter.
#[derive(Debug, PartialEq)]
pub struct LirType {
    pub name: String,
    pub fields: Vec<LirField>,
    pub operations: Vec<LirOperation>,
    pub read_result: VarId,
    pub write_param: VarId,
}

/// A field of a lowered struct: the text form of its type, its variable
/// identifier, and its carried assertion.
#[derive(Debug, PartialEq)]
pub struct LirField {
    pub name: String,
    pub doc: Option<String>,
    pub var_id: VarId,
    pub type_info: String,
    pub assertion: Option<HirAssertion>,
}

/// One operation of a lowered struct.  Reads name the variable they fill,
/// writes the variable they drain; multibyte primitives carry the format's
/// endianness.
#[derive(Debug, PartialEq)]
pub enum LirOperation {
    ReadU8 { dest: VarId },
    ReadU16 { dest: VarId, endianness: Endianness },
    ReadU32 { dest: VarId, endianness: Endianness },
    ReadU64 { dest: VarId, endianness: Endianness },
    ReadI8 { dest: VarId },
    ReadI16 { dest: VarId, endianness: Endianness },
    ReadI32 { dest: VarId, endianness: Endianness },
    ReadI64 { dest: VarId, endianness: Endianness },
    ReadArray { dest: VarId, element_op: Box<LirOperation>, count: usize },
    ReadDynamicArray { dest: VarId, element_op: Box<LirOperation>, size_var: VarId },
    ReadUntilEofArray { dest: VarId, element_op: Box<LirOperation> },
    ReadUntilConditionArray { dest: VarId, element_op: Box<LirOperation>, condition: Expr },
    ReadFixedString { dest: VarId, length: usize },
    ReadNullTerminatedString { dest: VarId },
    ReadLengthPrefixedString { dest: VarId, length_var: VarId },
    ReadStruct { dest: VarId, struct_name: String },
    WriteU8 { src: VarId },
    WriteU16 { src: VarId, endianness: Endianness },
    WriteU32 { src: VarId, endianness: Endianness },
    WriteU64 { src: VarId, endianness: Endianness },
    WriteI8 { src: VarId },
    WriteI16 { src: VarId, endianness: Endianness },
    WriteI32 { src: VarId, endianness: Endianness },
    WriteI64 { src: VarId, endianness: Endianness },
    WriteArray { src: VarId, element_op: Box<LirOperation>, count: usize },
    WriteDynamicArray {
        src: VarId,
        element_op: Box<LirOperation>,
        size_var: VarId,
        size_field_name: String,
    },
    WriteUntilEofArray { src: VarId, element_op: Box<LirOperation> },
    WriteUntilConditionArray { src: VarId, element_op: Box<LirOperation> },
    WriteFixedString { src: VarId, length: usize },
    WriteNullTerminatedString { src: VarId },
    WriteLengthPrefixedString { src: VarId, length_var: VarId },
    WriteStruct { src: VarId, struct_name: String },
    CreateStruct { dest: VarId, struct_name: String, fields: Vec<VarId> },
    AccessField { dest: VarId, struct_var: VarId, field_index: usize },
}

// ------------------------------------------------------------------
// Views
// ------------------------------------------------------------------

/// View of [`LirOperation`].
#[verifier::ext_equal]
pub enum SpecLirOp {
    ReadU8 { dest: int },
    ReadU16 { dest: int, endianness: Endianness },
    ReadU32 { dest: int, endianness: Endianness },
    ReadU64 { dest: int, endianness: Endianness },
    ReadI8 { dest: int },
    ReadI16 { dest: int, endianness: Endianness },
    ReadI32 { dest: int, endianness: Endianness },
    ReadI64 { dest: int, endianness: Endianness },
    ReadArray { dest: int, element_op: Box<SpecLirOp>, count: usize },
    ReadDynamicArray { dest: int, element_op: Box<SpecLirOp>, size_var: int },
    ReadUntilEofArray { dest: int, element_op: Box<SpecLirOp> },
    ReadUntilConditionArray { dest: int, element_op: Box<SpecLirOp>, condition: SpecExpr },
    ReadFixedString { dest: int, length: usize },
    ReadNullTerminatedString { dest: int },
    ReadLengthPrefixedString { dest: int, length_var: int },
    ReadStruct { dest: int, struct_name: Seq<char> },
    WriteU8 { src: int },
    WriteU16 { src: int, endianness: Endianness },
    WriteU32 { src: int, endianness: Endianness },
    WriteU64 { src: int, endianness: Endianness },
    WriteI8 { src: int },
    WriteI16 { src: int, endianness: Endianness },
    WriteI32 { src: int, endianness: Endianness },
    WriteI64 { src: int, endianness: Endianness },
    WriteArray { src: int, element_op: Box<SpecLirOp>, count: usize },
    WriteDynamicArray {
        src: int,
        element_op: Box<SpecLirOp>,
        size_var: int,
        size_field_name: Seq<char>,
    },
    WriteUntilEofArray { src: int, element_op: Box<SpecLirOp> },
    WriteUntilConditionArray { src: int, element_op: Box<SpecLirOp> },
    WriteFixedString { src: int, length: usize },
    WriteNullTerminatedString { src: int },
    WriteLengthPrefixedString { src: int, length_var: int },
    WriteStruct { src: int, struct_name: Seq<char> },
    CreateStruct { dest: int, struct_name: Seq<char>, fields: Seq<int> },
    AccessField { dest: int, struct_var: int, field_index: usize },
}

/// View of [`LirField`].
#[verifier::ext_equal]
pub struct SpecLirField {
    pub name: Seq<char>,
    pub doc: Option<Seq<char>>,
    pub var_id: int,
    pub type_info: Seq<char>,
    pub assertion: Option<SpecHirAssertion>,
}

/// View of [`LirType`].
#[verifier::ext_equal]
pub struct SpecLirType {
    pub name: Seq<char>,
    pub fields: Seq<SpecLirField>,
    pub operations: Seq<SpecLirOp>,
    pub read_result: int,
    pub write_param: int,
}

/// View of [`LirFormat`].
#[verifier::ext_equal]
pub struct SpecLirFormat {
    pub name: Seq<char>,
    pub endianness: Endianness,
    pub enums: Seq<SpecHirEnum>,
    pub types: Seq<SpecLirType>,
}

/// View of a sequence of variable identifiers.
pub open spec fn view_vars(s: Seq<VarId>) -> Seq<int> {
    s.map_values(|v: VarId| v as int)
}

/// View of a [`LirOperation`] tree.
pub open spec fn view_lir_op(op: LirOperation) -> SpecLirOp
    decreases op,
{
    match op {
        LirOperation::ReadU8 { dest } => SpecLirOp::ReadU8 { dest: dest as int },
        LirOperation::ReadU16 { dest, endianness } => SpecLirOp::ReadU16 { dest: dest as int, endianness },
        LirOperation::ReadU32 { dest, endianness } => SpecLirOp::ReadU32 { dest: dest as int, endianness },
        LirOperation::ReadU64 { dest, endianness } => SpecLirOp::ReadU64 { dest: dest as int, endianness },
        LirOperation::ReadI8 { dest } => SpecLirOp::ReadI8 { dest: dest as int },
        LirOperation::ReadI16 { dest, endianness } => SpecLirOp::ReadI16 { dest: dest as int, endianness },
        LirOperation::ReadI32 { dest, endianness } => SpecLirOp::ReadI32 { dest: dest as int, endianness },
        LirOperation::ReadI64 { dest, endianness } => SpecLirOp::ReadI64 { dest: dest as int, endianness },
        LirOperation::ReadArray { dest, element_op, count } => SpecLirOp::ReadArray {
            dest: dest as int,
            element_op: Box::new(view_lir_op(*element_op)),
            count,
        },
        LirOperation::ReadDynamicArray { dest, element_op, size_var } => {
            SpecLirOp::ReadDynamicArray {
                dest: dest as int,
                element_op: Box::new(view_lir_op(*element_op)),
                size_var: size_var as int,
            }
        },
        LirOperation::ReadUntilEofArray { dest, element_op } => SpecLirOp::ReadUntilEofArray {
            dest: dest as int,
            element_op: Box::new(view_lir_op(*element_op)),
        },
        LirOperation::ReadUntilConditionArray { dest, element_op, condition } => {
            SpecLirOp::ReadUntilConditionArray {
                dest: dest as int,
                element_op: Box::new(view_lir_op(*element_op)),
                condition: view_expr(condition),
            }
        },
        LirOperation::ReadFixedString { dest, length } => SpecLirOp::ReadFixedString {
            dest: dest as int,
            length,
        },
        LirOperation::ReadNullTerminatedString { dest } => SpecLirOp::ReadNullTerminatedString {
            dest: dest as int,
        },
        LirOperation::ReadLengthPrefixedString { dest, length_var } => {
            SpecLirOp::ReadLengthPrefixedString { dest: dest as int, length_var: length_var as int }
        },
        LirOperation::ReadStruct { dest, struct_name: tn } => SpecLirOp::ReadStruct {
            dest: dest as int,
            struct_name: tn@,
        },
        LirOperation::WriteU8 { src } => SpecLirOp::WriteU8 { src: src as int },
        LirOperation::WriteU16 { src, endianness } => SpecLirOp::WriteU16 { src: src as int, endianness },
        LirOperation::WriteU32 { src, endianness } => SpecLirOp::WriteU32 { src: src as int, endianness },
        LirOperation::WriteU64 { src, endianness } => SpecLirOp::WriteU64 { src: src as int, endianness },
        LirOperation::WriteI8 { src } => SpecLirOp::WriteI8 { src: src as int },
        LirOperation::WriteI16 { src, endianness } => SpecLirOp::WriteI16 { src: src as int, endianness },
        LirOperation::WriteI32 { src, endianness } => SpecLirOp::WriteI32 { src: src as int, endianness },
        LirOperation::WriteI64 { src, endianness } => SpecLirOp::WriteI64 { src: src as int, endianness },
        LirOperation::WriteArray { src, element_op, count } => SpecLirOp::WriteArray {
            src: src as int,
            element_op: Box::new(view_lir_op(*element_op)),
            count,
        },
        LirOperation::WriteDynamicArray { src, element_op, size_var, size_field_name } => {
            SpecLirOp::WriteDynamicArray {
                src: src as int,
                element_op: Box::new(view_lir_op(*element_op)),
                size_var: size_var as int,
                size_field_name: size_field_name@,
            }
        },
        LirOperation::WriteUntilEofArray { src, element_op } => SpecLirOp::WriteUntilEofArray {
            src: src as int,
            element_op: Box::new(view_lir_op(*element_op)),
        },
        LirOperation::WriteUntilConditionArray { src, element_op } => {
            SpecLirOp::WriteUntilConditionArray {
                src: src as int,
                element_op: Box::new(view_lir_op(*element_op)),
            }
        },
        LirOperation::WriteFixedString { src, length } => SpecLirOp::WriteFixedString {
            src: src as int,
            length,
        },
        LirOperation::WriteNullTerminatedString { src } => SpecLirOp::WriteNullTerminatedString {
            src: src as int,
        },
        LirOperation::WriteLengthPrefixedString { src, length_var } => {
            SpecLirOp::WriteLengthPrefixedString { src: src as int, length_var: length_var as int }
        },
        LirOperation::WriteStruct { src, struct_name: tn } => SpecLirOp::WriteStruct {
            src: src as int,
            struct_name: tn@,
        },
        LirOperation::CreateStruct { dest, struct_name: tn, fields } => SpecLirOp::CreateStruct {
            dest: dest as int,
            struct_name: tn@,
            fields: view_vars(fields@),
        },
        LirOperation::AccessField { dest, struct_var, field_index } => SpecLirOp::AccessField {
            dest: dest as int,
            struct_var: struct_var as int,
            field_index,
        },
    }
}

impl View for LirOperation {
    type V = SpecLirOp;

    open spec fn view(&self) -> SpecLirOp {
        view_lir_op(*self)
    }
}

impl View for LirField {
    type V = SpecLirField;

    open spec fn view(&self) -> SpecLirField {
        SpecLirField {
            name: self.name@,
            doc: view_opt_string(self.doc),
            var_id: self.var_id as int,
            type_info: self.type_info@,
            assertion: crate::hir::view_opt_assertion(self.assertion),
        }
    }
}

impl View for LirType {
    type V = SpecLirType;

    open spec fn view(&self) -> SpecLirType {
        SpecLirType {
            name: self.name@,
            fields: crate::seq_view::view_seq(self.fields@),
            operations: crate::seq_view::view_seq(self.operations@),
            read_result: self.read_result as int,
            write_param: self.write_param as int,
        }
    }
}

impl View for LirFormat {
    type V = SpecLirFormat;

    open spec fn view(&self) -> SpecLirFormat {
        SpecLirFormat {
            name: self.name@,
            endianness: self.endianness,
            enums: crate::seq_view::view_seq(self.enums@),
            types: crate::seq_view::view_seq(self.types@),
        }
    }
}

// ------------------------------------------------------------------
// The destination a single operation fills, if any.
// ------------------------------------------------------------------

/// The variable an operation writes into: the `dest` of every read, of
/// `CreateStruct` and of `AccessField`.  Write operations drain a variable
/// and fill none.
pub open spec fn spec_op_dest(op: SpecLirOp) -> Option<int> {
    match op {
        SpecLirOp::ReadU8 { dest } => Some(dest),
        SpecLirOp::ReadU16 { dest, .. } => Some(dest),
        SpecLirOp::ReadU32 { dest, .. } => Some(dest),
        SpecLirOp::ReadU64 { dest, .. } => Some(dest),
        SpecLirOp::ReadI8 { dest } => Some(dest),
        SpecLirOp::ReadI16 { dest, .. } => Some(dest),
        SpecLirOp::ReadI32 { dest, .. } => Some(dest),
        SpecLirOp::ReadI64 { dest, .. } => Some(dest),
        SpecLirOp::ReadArray { dest, .. } => Some(dest),
        SpecLirOp::ReadDynamicArray { dest, .. } => Some(dest),
        SpecLirOp::ReadUntilEofArray { dest, .. } => Some(dest),
        SpecLirOp::ReadUntilConditionArray { dest, .. } => Some(dest),
        SpecLirOp::ReadFixedString { dest, .. } => Some(dest),
        SpecLirOp::ReadNullTerminatedString { dest } => Some(dest),
        SpecLirOp::ReadLengthPrefixedString { dest, .. } => Some(dest),
        SpecLirOp::ReadStruct { dest, .. } => Some(dest),
        SpecLirOp::CreateStruct { dest, .. } => Some(dest),
        SpecLirOp::AccessField { dest, .. } => Some(dest),
        _ => None,
    }
}

/// Whether an operation is a read operation: one that consumes input
/// bytes and produces a value.
pub open spec fn spec_op_is_read(op: SpecLirOp) -> bool {
    match op {
        SpecLirOp::ReadU8 { .. } => true,
        SpecLirOp::ReadU16 { .. } => true,
        SpecLirOp::ReadU32 { .. } => true,
        SpecLirOp::ReadU64 { .. } => true,
        SpecLirOp::ReadI8 { .. } => true,
        SpecLirOp::ReadI16 { .. } => true,
        SpecLirOp::ReadI32 { .. } => true,
        SpecLirOp::ReadI64 { .. } => true,
        SpecLirOp::ReadArray { .. } => true,
        SpecLirOp::ReadDynamicArray { .. } => true,
        SpecLirOp::ReadUntilEofArray { .. } => true,
        SpecLirOp::ReadUntilConditionArray { .. } => true,
        SpecLirOp::ReadFixedString { .. } => true,
        SpecLirOp::ReadNullTerminatedString { .. } => true,
        SpecLirOp::ReadLengthPrefixedString { .. } => true,
        SpecLirOp::ReadStruct { .. } => true,
        _ => false,
    }
}

/// Every destination an operation tree fills, in tree order: the
/// operation's own destination first, then the nested dummy
/// destinations of its array element operations.
pub open spec fn deep_dests(op: SpecLirOp) -> Seq<int>
    decreases op,
{
    let head = match spec_op_dest(op) {
        Some(d) => Seq::empty().push(d),
        None => Seq::empty(),
    };
    match op {
        SpecLirOp::ReadArray { element_op, .. } => head + deep_dests(*element_op),
        SpecLirOp::ReadDynamicArray { element_op, .. } => head + deep_dests(*element_op),
        SpecLirOp::ReadUntilEofArray { element_op, .. } => head + deep_dests(*element_op),
        SpecLirOp::ReadUntilConditionArray { element_op, .. } => head + deep_dests(*element_op),
        _ => head,
    }
}

/// The source variable a write operation serialises, if the operation
/// is a write.
pub open spec fn spec_op_src(op: SpecLirOp) -> Option<int> {
    match op {
        SpecLirOp::WriteU8 { src } => Some(src),
        SpecLirOp::WriteU16 { src, .. } => Some(src),
        SpecLirOp::WriteU32 { src, .. } => Some(src),
        SpecLirOp::WriteU64 { src, .. } => Some(src),
        SpecLirOp::WriteI8 { src } => Some(src),
        SpecLirOp::WriteI16 { src, .. } => Some(src),
        SpecLirOp::WriteI32 { src, .. } => Some(src),
        SpecLirOp::WriteI64 { src, .. } => Some(src),
        SpecLirOp::WriteArray { src, .. } => Some(src),
        SpecLirOp::WriteDynamicArray { src, .. } => Some(src),
        SpecLirOp::WriteUntilEofArray { src, .. } => Some(src),
        SpecLirOp::WriteUntilConditionArray { src, .. } => Some(src),
        SpecLirOp::WriteFixedString { src, .. } => Some(src),
        SpecLirOp::WriteNullTerminatedString { src } => Some(src),
        SpecLirOp::WriteLengthPrefixedString { src, .. } => Some(src),
        SpecLirOp::WriteStruct { src, .. } => Some(src),
        _ => None,
    }
}

/// The endianness annotation an operation carries, if any.  Nested element
/// operations are not consulted.
pub open spec fn spec_op_endianness(op: SpecLirOp) -> Option<Endianness> {
    match op {
        SpecLirOp::ReadU16 { endianness, .. } => Some(endianness),
        SpecLirOp::ReadU32 { endianness, .. } => Some(endianness),
        SpecLirOp::ReadU64 { endianness, .. } => Some(endianness),
        SpecLirOp::ReadI16 { endianness, .. } => Some(endianness),
        SpecLirOp::ReadI32 { endianness, .. } => Some(endianness),
        SpecLirOp::ReadI64 { endianness, .. } => Some(endianness),
        SpecLirOp::WriteU16 { endianness, .. } => Some(endianness),
        SpecLirOp::WriteU32 { endianness, .. } => Some(endianness),
        SpecLirOp::WriteU64 { endianness, .. } => Some(endianness),
        SpecLirOp::WriteI16 { endianness, .. } => Some(endianness),
        SpecLirOp::WriteI32 { endianness, .. } => Some(endianness),
        SpecLirOp::WriteI64 { endianness, .. } => Some(endianness),
        _ => None,
    }
}

/// Every endianness annotation in an operation tree equals `e`, nested
/// element operations included.
pub open spec fn spec_op_endianness_deep(op: SpecLirOp, e: Endianness) -> bool
    decreases op,
{
    match op {
        SpecLirOp::ReadArray { element_op, .. } => spec_op_endianness_deep(*element_op, e),
        SpecLirOp::ReadDynamicArray { element_op, .. } => spec_op_endianness_deep(*element_op, e),
        SpecLirOp::ReadUntilEofArray { element_op, .. } => spec_op_endianness_deep(*element_op, e),
        SpecLirOp::ReadUntilConditionArray { element_op, .. } => spec_op_endianness_deep(
            *element_op,
            e,
        ),
        SpecLirOp::WriteArray { element_op, .. } => spec_op_endianness_deep(*element_op, e),
        SpecLirOp::WriteDynamicArray { element_op, .. } => spec_op_endianness_deep(*element_op, e),
        SpecLirOp::WriteUntilEofArray { element_op, .. } => spec_op_endianness_deep(*element_op, e),
        SpecLirOp::WriteUntilConditionArray { element_op, .. } => spec_op_endianness_deep(
            *element_op,
            e,
        ),
        _ => match spec_op_endianness(op) {
            Some(x) => x == e,
            None => true,
        },
    }
}

// ------------------------------------------------------------------
// Copies
// ------------------------------------------------------------------

/// A copy of an optional string, with the same view.
pub fn clone_opt_string(o: &Option<String>) -> (r: Option<String>)
    ensures
        view_opt_string(r) == view_opt_string(*o),
{
    match o {
        Some(s) => Some(s.clone()),
        None => None,
    }
}

/// A copy of an `i64` vector.
pub fn clone_i64_vec(v: &Vec<i64>) -> (r: Vec<i64>)
    ensures
        r@ == v@,
{
    let mut r: Vec<i64> = Vec::new();
    let mut i: usize = 0;
    while i < v.len()
        invariant
            i <= v@.len(),
            r@ == v@.subrange(0, i as int),
        decreases v@.len() - i,
    {
        r.push(v[i]);
        proof {
            assert(r@ =~= v@.subrange(0, i + 1 as int));
        }
        i += 1;
    }
    proof {
        assert(r@ =~= v@);
    }
    r
}

/// A copy of a variable-identifier vector.
pub fn clone_var_vec(v: &Vec<VarId>) -> (r: Vec<VarId>)
    ensures
        r@ == v@,
{
    let mut r: Vec<VarId> = Vec::new();
    let mut i: usize = 0;
    while i < v.len()
        invariant
            i <= v@.len(),
            r@ == v@.subrange(0, i as int),
        decreases v@.len() - i,
    {
        r.push(v[i]);
        proof {
            assert(r@ =~= v@.subrange(0, i + 1 as int));
        }
        i += 1;
    }
    proof {
        assert(r@ =~= v@);
    }
    r
}

impl Clone for HirEnumValue {
    /// A copy with the same view.
    fn clone(&self) -> (r: Self)
        ensures
            r@ == self@,
    {
        HirEnumValue {
            name: self.name.clone(),
            value: self.value,
            doc: clone_opt_string(&self.doc),
        }
    }
}

impl Clone for HirEnum {
    /// A copy with the same view.
    fn clone(&self) -> (r: Self)
        ensures
            r@ == self@,
    {
        let mut values: Vec<HirEnumValue> = Vec::new();
        proof {
            crate::seq_view::lemma_view_seq_empty(self.values@, values@);
        }
        let mut i: usize = 0;
        while i < self.values.len()
            invariant
                i <= self.values@.len(),
                crate::seq_view::view_seq(values@) == crate::seq_view::view_seq(
                    self.values@,
                ).subrange(0, i as int),
            decreases self.values@.len() - i,
        {
            let x = self.values[i].clone();
            proof {
                crate::seq_view::lemma_view_seq_push(self.values@, values@, x, i as int);
            }
            values.push(x);
            i += 1;
        }
        proof {
            crate::seq_view::lemma_view_seq_whole(self.values@);
        }
        HirEnum {
            name: self.name.clone(),
            doc: clone_opt_string(&self.doc),
            underlying_type: self.underlying_type,
            values,
        }
    }
}

impl Clone for HirAssertValue {
    /// A copy with the same view.
    fn clone(&self) -> (r: Self)
        ensures
            r@ == self@,
    {
        match self {
            HirAssertValue::Int(v) => HirAssertValue::Int(*v),
            HirAssertValue::IntArray(v) => HirAssertValue::IntArray(clone_i64_vec(v)),
        }
    }
}

impl Clone for HirAssertion {
    /// A copy with the same view.
    fn clone(&self) -> (r: Self)
        ensures
            r@ == self@,
    {
        match self {
            HirAssertion::Equals(v) => HirAssertion::Equals(v.clone()),
            HirAssertion::NotEquals(v) => HirAssertion::NotEquals(v.clone()),
            HirAssertion::GreaterThan(t) => HirAssertion::GreaterThan(*t),
            HirAssertion::GreaterOrEqual(t) => HirAssertion::GreaterOrEqual(*t),
            HirAssertion::LessThan(t) => HirAssertion::LessThan(*t),
            HirAssertion::LessOrEqual(t) => HirAssertion::LessOrEqual(*t),
            HirAssertion::In(v) => HirAssertion::In(clone_i64_vec(v)),
            HirAssertion::NotIn(v) => HirAssertion::NotIn(clone_i64_vec(v)),
            HirAssertion::Range { min, max } => HirAssertion::Range { min: *min, max: *max },
        }
    }
}

/// A copy of an optional assertion, with the same view.
pub fn clone_opt_assertion(o: &Option<HirAssertion>) -> (r: Option<HirAssertion>)
    ensures
        crate::hir::view_opt_assertion(r) == crate::hir::view_opt_assertion(*o),
{
    match o {
        Some(a) => Some(a.clone()),
        None => None,
    }
}

impl Clone for LirField {
    /// A copy with the same view.
    fn clone(&self) -> (r: Self)
        ensures
            r@ == self@,
    {
        LirField {
            name: self.name.clone(),
            doc: clone_opt_string(&self.doc),
            var_id: self.var_id,
            type_info: self.type_info.clone(),
            assertion: clone_opt_assertion(&self.assertion),
        }
    }
}

impl Clone for LirOperation {
    /// A copy with the same view.
    fn clone(&self) -> (r: Self)
        ensures
            r@ == self@,
        decreases *self,
    {
        match self {
            LirOperation::ReadU8 { dest } => LirOperation::ReadU8 { dest: *dest },
            LirOperation::ReadU16 { dest, endianness } => LirOperation::ReadU16 {
                dest: *dest,
                endianness: *endianness,
            },
            LirOperation::ReadU32 { dest, endianness } => LirOperation::ReadU32 {
                dest: *dest,
                endianness: *endianness,
            },
            LirOperation::ReadU64 { dest, endianness } => LirOperation::ReadU64 {
                dest: *dest,
                endianness: *endianness,
            },
            LirOperation::ReadI8 { dest } => LirOperation::ReadI8 { dest: *dest },
            LirOperation::ReadI16 { dest, endianness } => LirOperation::ReadI16 {
                dest: *dest,
                endianness: *endianness,
            },
            LirOperation::ReadI32 { dest, endianness } => LirOperation::ReadI32 {
                dest: *dest,
                endianness: *endianness,
            },
            LirOperation::ReadI64 { dest, endianness } => LirOperation::ReadI64 {
                dest: *dest,
                endianness: *endianness,
            },
            LirOperation::ReadArray { dest, element_op, count } => LirOperation::ReadArray {
                dest: *dest,
                element_op: Box::new((**element_op).clone()),
                count: *count,
            },
            LirOperation::ReadDynamicArray { dest, element_op, size_var } => {
                LirOperation::ReadDynamicArray {
                    dest: *dest,
                    element_op: Box::new((**element_op).clone()),
                    size_var: *size_var,
                }
            },
            LirOperation::ReadUntilEofArray { dest, element_op } => {
                LirOperation::ReadUntilEofArray {
                    dest: *dest,
                    element_op: Box::new((**element_op).clone()),
                }
            },
            LirOperation::ReadUntilConditionArray { dest, element_op, condition } => {
                LirOperation::ReadUntilConditionArray {
                    dest: *dest,
                    element_op: Box::new((**element_op).clone()),
                    condition: condition.clone(),
                }
            },
            LirOperation::ReadFixedString { dest, length } => LirOperation::ReadFixedString {
                dest: *dest,
                length: *length,
            },
            LirOperation::ReadNullTerminatedString { dest } => {
                LirOperation::ReadNullTerminatedString { dest: *dest }
            },
            LirOperation::ReadLengthPrefixedString { dest, length_var } => {
                LirOperation::ReadLengthPrefixedString {
                    dest: *dest,
                    length_var: *length_var,
                }
            },
            LirOperation::ReadStruct { dest, struct_name: tn } => LirOperation::ReadStruct {
                dest: *dest,
                struct_name: tn.clone(),
            },
            LirOperation::WriteU8 { src } => LirOperation::WriteU8 { src: *src },
            LirOperation::WriteU16 { src, endianness } => LirOperation::WriteU16 {
                src: *src,
                endianness: *endianness,
            },
            LirOperation::WriteU32 { src, endianness } => LirOperation::WriteU32 {
                src: *src,
                endianness: *endianness,
            },
            LirOperation::WriteU64 { src, endianness } => LirOperation::WriteU64 {
                src: *src,
                endianness: *endianness,
            },
            LirOperation::WriteI8 { src } => LirOperation::WriteI8 { src: *src },
            LirOperation::WriteI16 { src, endianness } => LirOperation::WriteI16 {
                src: *src,
                endianness: *endianness,
            },
            LirOperation::WriteI32 { src, endianness } => LirOperation::WriteI32 {
                src: *src,
                endianness: *endianness,
            },
            LirOperation::WriteI64 { src, endianness } => LirOperation::WriteI64 {
                src: *src,
                endianness: *endianness,
            },
            LirOperation::WriteArray { src, element_op, count } => LirOperation::WriteArray {
                src: *src,
                element_op: Box::new((**element_op).clone()),
                count: *count,
            },
            LirOperation::WriteDynamicArray { src, element_op, size_var, size_field_name } => {
                LirOperation::WriteDynamicArray {
                    src: *src,
                    element_op: Box::new((**element_op).clone()),
                    size_var: *size_var,
                    size_field_name: size_field_name.clone(),
                }
            },
            LirOperation::WriteUntilEofArray { src, element_op } => {
                LirOperation::WriteUntilEofArray {
                    src: *src,
                    element_op: Box::new((**element_op).clone()),
                }
            },
            LirOperation::WriteUntilConditionArray { src, element_op } => {
                LirOperation::WriteUntilConditionArray {
                    src: *src,
                    element_op: Box::new((**element_op).clone()),
                }
            },
            LirOperation::WriteFixedString { src, length } => LirOperation::WriteFixedString {
                src: *src,
                length: *length,
            },
            LirOperation::WriteNullTerminatedString { src } => {
                LirOperation::WriteNullTerminatedString { src: *src }
            },
            LirOperation::WriteLengthPrefixedString { src, length_var } => {
                LirOperation::WriteLengthPrefixedString {
                    src: *src,
                    length_var: *length_var,
                }
            },
            LirOperation::WriteStruct { src, struct_name: tn } => LirOperation::WriteStruct {
                src: *src,
                struct_name: tn.clone(),
            },
            LirOperation::CreateStruct { dest, struct_name: tn, fields } => {
                LirOperation::CreateStruct {
                    dest: *dest,
                    struct_name: tn.clone(),
                    fields: clone_var_vec(fields),
                }
            },
            LirOperation::AccessField { dest, struct_var, field_index } => {
                LirOperation::AccessField {
                    dest: *dest,
                    struct_var: *struct_var,
                    field_index: *field_index,
                }
            },
        }
    }
}

impl Clone for LirType {
    /// A copy with the same view.
    fn clone(&self) -> (r: Self)
        ensures
            r@ == self@,
    {
        let mut fields: Vec<LirField> = Vec::new();
        proof {
            crate::seq_view::lemma_view_seq_empty(self.fields@, fields@);
        }
        let mut i: usize = 0;
        while i < self.fields.len()
            invariant
                i <= self.fields@.len(),
                crate::seq_view::view_seq(fields@) == crate::seq_view::view_seq(
                    self.fields@,
                ).subrange(0, i as int),
            decreases self.fields@.len() - i,
        {
            let x = self.fields[i].clone();
            proof {
                crate::seq_view::lemma_view_seq_push(self.fields@, fields@, x, i as int);
            }
            fields.push(x);
            i += 1;
        }
        let mut operations: Vec<LirOperation> = Vec::new();
        proof {
            crate::seq_view::lemma_view_seq_empty(self.operations@, operations@);
        }
        let mut j: usize = 0;
        while j < self.operations.len()
            invariant
                j <= self.operations@.len(),
                crate::seq_view::view_seq(operations@) == crate::seq_view::view_seq(
                    self.operations@,
                ).subrange(0, j as int),
            decreases self.operations@.len() - j,
        {
            let x = self.operations[j].clone();
            proof {
                crate::seq_view::lemma_view_seq_push(self.operations@, operations@, x, j as int);
            }
            operations.push(x);
            j += 1;
        }
        proof {
            crate::seq_view::lemma_view_seq_whole(self.fields@);
            crate::seq_view::lemma_view_seq_whole(self.operations@);
        }
        LirType {
            name: self.name.clone(),
            fields,
            operations,
            read_result: self.read_result,
            write_param: self.write_param,
        }
    }
}

impl Clone for LirFormat {
    /// A copy with the same view.
    fn clone(&self) -> (r: Self)
        ensures
            r@ == self@,
    {
        let mut enums: Vec<HirEnum> = Vec::new();
        proof {
            crate::seq_view::lemma_view_seq_empty(self.enums@, enums@);
        }
        let mut i: usize = 0;
        while i < self.enums.len()
            invariant
                i <= self.enums@.len(),
                crate::seq_view::view_seq(enums@) == crate::seq_view::view_seq(
                    self.enums@,
                ).subrange(0, i as int),
            decreases self.enums@.len() - i,
        {
            let x = self.enums[i].clone();
            proof {
                crate::seq_view::lemma_view_seq_push(self.enums@, enums@, x, i as int);
            }
            enums.push(x);
            i += 1;
        }
        let mut types: Vec<LirType> = Vec::new();
        proof {
            crate::seq_view::lemma_view_seq_empty(self.types@, types@);
        }
        let mut j: usize = 0;
        while j < self.types.len()
            invariant
                j <= self.types@.len(),
                crate::seq_view::view_seq(types@) == crate::seq_view::view_seq(
                    self.types@,
                ).subrange(0, j as int),
            decreases self.types@.len() - j,
        {
            let x = self.types[j].clone();
            proof {
                crate::seq_view::lemma_view_seq_push(self.types@, types@, x, j as int);
            }
            types.push(x);
            j += 1;
        }
        proof {
            crate::seq_view::lemma_view_seq_whole(self.enums@);
            crate::seq_view::lemma_view_seq_whole(self.types@);
        }
        LirFormat {
            name: self.name.clone(),
            endianness: self.endianness,
            enums,
            types,
        }
    }
}

} // verus!
