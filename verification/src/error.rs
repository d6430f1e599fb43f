//! The error taxonomy of the front end.

use vstd::prelude::*;
use vstd::string::StringExecFns;

verus! {

/// A failure while turning a configuration document into HIR.
#[derive(Debug, Clone, PartialEq)]
pub enum ParseError {
    /// The configuration document itself could not be decoded; holds the
    /// decoder's message.
    YamlError(String),
    /// Two enums or two type definitions share a name.
    DuplicateType(String),
    /// A type reference (field type, size field, enum or struct lookup)
    /// cannot be resolved.
    UnknownType(String),
    /// A required sub-entry is absent.
    MissingField(String),
    /// A malformed leaf value.
    InvalidValue { field: String, message: String },
}

/// View of [`ParseError`].
#[verifier::ext_equal]
pub enum SpecParseError {
    YamlError(Seq<char>),
    DuplicateType(Seq<char>),
    UnknownType(Seq<char>),
    MissingField(Seq<char>),
    InvalidValue { field: Seq<char>, message: Seq<char> },
}

impl View for ParseError {
    type V = SpecParseError;

    open spec fn view(&self) -> SpecParseError {
        match self {
            ParseError::YamlError(m) => SpecParseError::YamlError(m@),
            ParseError::DuplicateType(n) => SpecParseError::DuplicateType(n@),
            ParseError::UnknownType(n) => SpecParseError::UnknownType(n@),
            ParseError::MissingField(n) => SpecParseError::MissingField(n@),
            ParseError::InvalidValue { field, message } => SpecParseError::InvalidValue {
                field: field@,
                message: message@,
            },
        }
    }
}

/// The human-readable message of a [`ParseError`].
pub open spec fn parse_error_text(e: ParseError) -> Seq<char> {
    match e {
        ParseError::YamlError(m) => "YAML parsing error: "@ + m@,
        ParseError::DuplicateType(n) => "Duplicate type definition: "@ + n@,
        ParseError::UnknownType(n) => "Unknown type: "@ + n@,
        ParseError::MissingField(n) => "Missing required field: "@ + n@,
        ParseError::InvalidValue { field, message } => "Invalid value for field "@ + field@
            + ": "@ + message@,
    }
}

impl ParseError {
    /// The human-readable message of this error.
    pub fn message(&self) -> (r: String)
        ensures
            r@ == parse_error_text(*self),
    {
        match self {
            ParseError::YamlError(m) => {
                let mut s = String::from_str("YAML parsing error: ");
                s.append(m.as_str());
                s
            },
            ParseError::DuplicateType(n) => {
                let mut s = String::from_str("Duplicate type definition: ");
                s.append(n.as_str());
                s
            },
            ParseError::UnknownType(n) => {
                let mut s = String::from_str("Unknown type: ");
                s.append(n.as_str());
                s
            },
            ParseError::MissingField(n) => {
                let mut s = String::from_str("Missing required field: ");
                s.append(n.as_str());
                s
            },
            ParseError::InvalidValue { field, message } => {
                let mut s = String::from_str("Invalid value for field ");
                s.append(field.as_str());
                s.append(": ");
                s.append(message.as_str());
                s
            },
        }
    }
}

} // verus!
