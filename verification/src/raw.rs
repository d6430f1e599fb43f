//! The library's own model of a decoded configuration document.  The
//! document decoder (outside the verified core) fills these types with
//! plain values; the semantic analyzer consumes them.

use vstd::prelude::*;

verus! {

/// A leaf or container value of the configuration document.  Values the
/// analyzer has no use for (floats, timestamps and the like) decode to
/// `Other` and are rejected where a specific shape is required.
#[derive(Debug, PartialEq)]
pub enum RawValue {
    Null,
    Bool(bool),
    Int(i64),
    Text(String),
    List(Vec<RawValue>),
    /// An ordered mapping; keys are arbitrary values.
    Entries(Vec<(RawValue, RawValue)>),
    Other,
}

/// One field of a struct declaration.
#[derive(Debug, PartialEq)]
pub struct RawField {
    pub name: String,
    pub field_type: String,
    pub doc: Option<String>,
    pub until: Option<String>,
    pub assertion: Option<RawValue>,
    pub skip: Option<String>,
    pub padding: Option<u64>,
    pub align: Option<u64>,
}

/// One type declaration.
#[derive(Debug, PartialEq)]
pub struct RawTypeDef {
    pub name: String,
    pub type_kind: String,
    pub doc: Option<String>,
    pub fields: Option<Vec<RawField>>,
}

/// One enum declaration; `values` is an ordered mapping.
#[derive(Debug, PartialEq)]
pub struct RawEnum {
    pub name: String,
    pub underlying_type: String,
    pub doc: Option<String>,
    pub values: Vec<(RawValue, RawValue)>,
}

/// A whole configuration document.
#[derive(Debug, PartialEq)]
pub struct RawFormat {
    pub name: String,
    pub version: Option<String>,
    pub endianness: Option<String>,
    pub enums: Vec<RawEnum>,
    pub types: Vec<RawTypeDef>,
}

} // verus!
