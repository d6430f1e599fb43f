//! The typed high-level intermediate representation (HIR) of a format
//! description, together with its mathematical view.

use vstd::prelude::*;
use crate::expr::{Expr, SpecExpr};

verus! {

/// Byte order of every multibyte primitive in a format.
#[derive(Debug, Clone, Copy, PartialEq, Eq, Structural)]
pub enum Endianness {
    Little,
    Big,
    Native,
}

/// The eight primitive integer types a field or an enum can have.
#[derive(Debug, Clone, Copy, PartialEq, Eq, Structural)]
pub enum HirPrimitiveType {
    U8,
    U16,
    U32,
    U64,
    I8,
    I16,
    I32,
    I64,
}

/// A whole format description: enums and type definitions in declaration
/// order.
#[derive(Debug, PartialEq)]
pub struct HirFormat {
    pub name: String,
    pub version: Option<String>,
    pub endianness: Endianness,
    pub enums: Vec<HirEnum>,
    pub types: Vec<HirTypeDef>,
}

/// A named enumeration over an underlying primitive integer type.
#[derive(Debug, PartialEq)]
pub struct HirEnum {
    pub name: String,
    pub doc: Option<String>,
    pub underlying_type: HirPrimitiveType,
    pub values: Vec<HirEnumValue>,
}

/// One named value of an enum.
#[derive(Debug, PartialEq)]
pub struct HirEnumValue {
    pub name: String,
    pub value: i64,
    pub doc: Option<String>,
}

/// A type definition of the format.
#[derive(Debug, PartialEq)]
pub enum HirTypeDef {
    Struct(HirStruct),
}

/// A struct whose fields are laid out in wire order.
#[derive(Debug, PartialEq)]
pub struct HirStruct {
    pub name: String,
    pub doc: Option<String>,
    pub fields: Vec<HirField>,
}

/// One field of a struct.
#[derive(Debug, PartialEq)]
pub struct HirField {
    pub name: String,
    pub doc: Option<String>,
    pub field_type: HirType,
    pub assertion: Option<HirAssertion>,
}

/// A value check performed immediately after a field is read.
#[derive(Debug, PartialEq)]
pub enum HirAssertion {
    /// Value must equal the given constant.
    Equals(HirAssertValue),
    /// Value must not equal the given constant.
    NotEquals(HirAssertValue),
    /// Value must be greater than the threshold.
    GreaterThan(i64),
    /// Value must be greater than or equal to the threshold.
    GreaterOrEqual(i64),
    /// Value must be less than the threshold.
    LessThan(i64),
    /// Value must be less than or equal to the threshold.
    LessOrEqual(i64),
    /// Value must be one of the given values.
    In(Vec<i64>),
    /// Value must not be one of the given values.
    NotIn(Vec<i64>),
    /// Value must lie in `[min, max]`, both ends included.
    Range { min: i64, max: i64 },
}

/// The constant an equality assertion compares against.
#[derive(Debug, PartialEq)]
pub enum HirAssertValue {
    /// A single integer.
    Int(i64),
    /// An array of integers, for byte-array fields.
    IntArray(Vec<i64>),
}

/// The type of a field.
#[derive(Debug, PartialEq)]
pub enum HirType {
    U8,
    U16,
    U32,
    U64,
    I8,
    I16,
    I32,
    I64,
    /// A fixed number of elements.
    Array { element_type: Box<HirType>, size: usize },
    /// As many elements as the value of an earlier sibling field.
    DynamicArray { element_type: Box<HirType>, size_field: String },
    /// Elements until the input is exhausted.
    UntilEofArray { element_type: Box<HirType> },
    /// Elements until the condition over the read elements becomes true.
    UntilConditionArray { element_type: Box<HirType>, condition: Expr },
    /// A string of exactly `size` bytes.
    FixedString { size: usize },
    /// A string of bytes up to and excluding a zero terminator.
    NullTerminatedString,
    /// A string of as many bytes as the value of an earlier sibling field.
    LengthPrefixedString { length_field: String },
    /// A reference to an enum of the format.
    Enum(String),
    /// A reference to a struct of the format.
    UserDefined(String),
}

// ------------------------------------------------------------------
// Views
// ------------------------------------------------------------------

/// View of [`HirType`].
#[verifier::ext_equal]
pub enum SpecHirType {
    U8,
    U16,
    U32,
    U64,
    I8,
    I16,
    I32,
    I64,
    Array { element_type: Box<SpecHirType>, size: usize },
    DynamicArray { element_type: Box<SpecHirType>, size_field: Seq<char> },
    UntilEofArray { element_type: Box<SpecHirType> },
    UntilConditionArray { element_type: Box<SpecHirType>, condition: SpecExpr },
    FixedString { size: usize },
    NullTerminatedString,
    LengthPrefixedString { length_field: Seq<char> },
    Enum(Seq<char>),
    UserDefined(Seq<char>),
}

/// View of [`HirAssertValue`].
#[verifier::ext_equal]
pub enum SpecHirAssertValue {
    Int(i64),
    IntArray(Seq<i64>),
}

/// View of [`HirAssertion`].
#[verifier::ext_equal]
pub enum SpecHirAssertion {
    Equals(SpecHirAssertValue),
    NotEquals(SpecHirAssertValue),
    GreaterThan(i64),
    GreaterOrEqual(i64),
    LessThan(i64),
    LessOrEqual(i64),
    In(Seq<i64>),
    NotIn(Seq<i64>),
    Range { min: i64, max: i64 },
}

/// View of [`HirEnumValue`].
#[verifier::ext_equal]
pub struct SpecHirEnumValue {
    pub name: Seq<char>,
    pub value: i64,
    pub doc: Option<Seq<char>>,
}

/// View of [`HirEnum`].
#[verifier::ext_equal]
pub struct SpecHirEnum {
    pub name: Seq<char>,
    pub doc: Option<Seq<char>>,
    pub underlying_type: HirPrimitiveType,
    pub values: Seq<SpecHirEnumValue>,
}

/// View of [`HirField`].
#[verifier::ext_equal]
pub struct SpecHirField {
    pub name: Seq<char>,
    pub doc: Option<Seq<char>>,
    pub field_type: SpecHirType,
    pub assertion: Option<SpecHirAssertion>,
}

/// View of [`HirStruct`].
#[verifier::ext_equal]
pub struct SpecHirStruct {
    pub name: Seq<char>,
    pub doc: Option<Seq<char>>,
    pub fields: Seq<SpecHirField>,
}

/// View of [`HirTypeDef`].
#[verifier::ext_equal]
pub enum SpecHirTypeDef {
    Struct(SpecHirStruct),
}

/// View of [`HirFormat`].
#[verifier::ext_equal]
pub struct SpecHirFormat {
    pub name: Seq<char>,
    pub version: Option<Seq<char>>,
    pub endianness: Endianness,
    pub enums: Seq<SpecHirEnum>,
    pub types: Seq<SpecHirTypeDef>,
}

/// View of an optional string.
pub open spec fn view_opt_string(o: Option<String>) -> Option<Seq<char>> {
    match o {
        Option::Some(s) => Option::Some(s@),
        Option::None => Option::None,
    }
}

/// View of a [`HirType`] tree.
pub open spec fn view_hir_type(t: HirType) -> SpecHirType
    decreases t,
{
    {
        match t {
            HirType::U8 => SpecHirType::U8,
            HirType::U16 => SpecHirType::U16,
            HirType::U32 => SpecHirType::U32,
            HirType::U64 => SpecHirType::U64,
            HirType::I8 => SpecHirType::I8,
            HirType::I16 => SpecHirType::I16,
            HirType::I32 => SpecHirType::I32,
            HirType::I64 => SpecHirType::I64,
            HirType::Array { element_type, size } => SpecHirType::Array {
                element_type: Box::new(view_hir_type(*element_type)),
                size: size,
            },
            HirType::DynamicArray { element_type, size_field } => SpecHirType::DynamicArray {
                element_type: Box::new(view_hir_type(*element_type)),
                size_field: size_field@,
            },
            HirType::UntilEofArray { element_type } => SpecHirType::UntilEofArray {
                element_type: Box::new(view_hir_type(*element_type)),
            },
            HirType::UntilConditionArray { element_type, condition } => {
                SpecHirType::UntilConditionArray {
                    element_type: Box::new(view_hir_type(*element_type)),
                    condition: condition@,
                }
            },
            HirType::FixedString { size } => SpecHirType::FixedString { size: size },
            HirType::NullTerminatedString => SpecHirType::NullTerminatedString,
            HirType::LengthPrefixedString { length_field } => SpecHirType::LengthPrefixedString {
                length_field: length_field@,
            },
            HirType::Enum(name) => SpecHirType::Enum(name@),
            HirType::UserDefined(name) => SpecHirType::UserDefined(name@),
        }
    }
}

impl View for HirType {
    type V = SpecHirType;

    open spec fn view(&self) -> SpecHirType {
        view_hir_type(*self)
    }
}

impl View for HirAssertValue {
    type V = SpecHirAssertValue;

    open spec fn view(&self) -> SpecHirAssertValue {
        match self {
            HirAssertValue::Int(v) => SpecHirAssertValue::Int(*v),
            HirAssertValue::IntArray(v) => SpecHirAssertValue::IntArray(v@),
        }
    }
}

impl View for HirAssertion {
    type V = SpecHirAssertion;

    open spec fn view(&self) -> SpecHirAssertion {
        match self {
            HirAssertion::Equals(v) => SpecHirAssertion::Equals(v@),
            HirAssertion::NotEquals(v) => SpecHirAssertion::NotEquals(v@),
            HirAssertion::GreaterThan(t) => SpecHirAssertion::GreaterThan(*t),
            HirAssertion::GreaterOrEqual(t) => SpecHirAssertion::GreaterOrEqual(*t),
            HirAssertion::LessThan(t) => SpecHirAssertion::LessThan(*t),
            HirAssertion::LessOrEqual(t) => SpecHirAssertion::LessOrEqual(*t),
            HirAssertion::In(v) => SpecHirAssertion::In(v@),
            HirAssertion::NotIn(v) => SpecHirAssertion::NotIn(v@),
            HirAssertion::Range { min, max } => SpecHirAssertion::Range { min: *min, max: *max },
        }
    }
}

/// View of an optional assertion.
pub open spec fn view_opt_assertion(o: Option<HirAssertion>) -> Option<SpecHirAssertion> {
    match o {
        Option::Some(a) => Option::Some(a@),
        Option::None => Option::None,
    }
}

impl View for HirEnumValue {
    type V = SpecHirEnumValue;

    open spec fn view(&self) -> SpecHirEnumValue {
        SpecHirEnumValue { name: self.name@, value: self.value, doc: view_opt_string(self.doc) }
    }
}

impl View for HirEnum {
    type V = SpecHirEnum;

    open spec fn view(&self) -> SpecHirEnum {
        SpecHirEnum {
            name: self.name@,
            doc: view_opt_string(self.doc),
            underlying_type: self.underlying_type,
            values: crate::seq_view::view_seq(self.values@),
        }
    }
}

impl View for HirField {
    type V = SpecHirField;

    open spec fn view(&self) -> SpecHirField {
        SpecHirField {
            name: self.name@,
            doc: view_opt_string(self.doc),
            field_type: self.field_type@,
            assertion: view_opt_assertion(self.assertion),
        }
    }
}

impl View for HirStruct {
    type V = SpecHirStruct;

    open spec fn view(&self) -> SpecHirStruct {
        SpecHirStruct {
            name: self.name@,
            doc: view_opt_string(self.doc),
            fields: crate::seq_view::view_seq(self.fields@),
        }
    }
}

impl View for HirTypeDef {
    type V = SpecHirTypeDef;

    open spec fn view(&self) -> SpecHirTypeDef {
        match self {
            HirTypeDef::Struct(s) => SpecHirTypeDef::Struct(s@),
        }
    }
}

impl View for HirFormat {
    type V = SpecHirFormat;

    open spec fn view(&self) -> SpecHirFormat {
        SpecHirFormat {
            name: self.name@,
            version: view_opt_string(self.version),
            endianness: self.endianness,
            enums: crate::seq_view::view_seq(self.enums@),
            types: crate::seq_view::view_seq(self.types@),
        }
    }
}

// ------------------------------------------------------------------
// Size helpers
// ------------------------------------------------------------------

/// The fixed wire size of a type, when it has one.  An array whose byte
/// count would not fit in `usize` has no representable size.
pub open spec fn spec_size_in_bytes(t: SpecHirType) -> Option<usize>
    decreases t,
{
    match t {
        SpecHirType::U8 | SpecHirType::I8 => Option::Some(1usize),
        SpecHirType::U16 | SpecHirType::I16 => Option::Some(2usize),
        SpecHirType::U32 | SpecHirType::I32 => Option::Some(4usize),
        SpecHirType::U64 | SpecHirType::I64 => Option::Some(8usize),
        SpecHirType::Array { element_type, size } => match spec_size_in_bytes(*element_type) {
            Option::Some(es) => if es * size <= usize::MAX {
                Option::Some((es * size) as usize)
            } else {
                Option::None
            },
            Option::None => Option::None,
        },
        _ => Option::None,
    }
}

/// Whether a type is one of the eight primitive integers.
pub open spec fn spec_is_primitive(t: SpecHirType) -> bool {
    match t {
        SpecHirType::U8 | SpecHirType::U16 | SpecHirType::U32 | SpecHirType::U64
            | SpecHirType::I8 | SpecHirType::I16 | SpecHirType::I32 | SpecHirType::I64 => true,
        _ => false,
    }
}

impl HirType {
    /// The fixed wire size of this type in bytes, if it has one.  Arrays
    /// multiply the element size by the count; a product beyond `usize`
    /// yields `None`.
    pub fn size_in_bytes(&self) -> (r: Option<usize>)
        ensures
            r == spec_size_in_bytes(self@),
        decreases self,
    {
        match self {
            HirType::U8 | HirType::I8 => Some(1),
            HirType::U16 | HirType::I16 => Some(2),
            HirType::U32 | HirType::I32 => Some(4),
            HirType::U64 | HirType::I64 => Some(8),
            HirType::Array { element_type, size } => match element_type.size_in_bytes() {
                Some(es) => es.checked_mul(*size),
                None => None,
            },
            _ => None,
        }
    }

    /// Whether this type is one of the eight primitive integers.
    pub fn is_primitive(&self) -> (r: bool)
        ensures
            r == spec_is_primitive(self@),
    {
        match self {
            HirType::U8 | HirType::U16 | HirType::U32 | HirType::U64 | HirType::I8
                | HirType::I16 | HirType::I32 | HirType::I64 => true,
            _ => false,
        }
    }
}

} // verus!
