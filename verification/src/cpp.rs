//! The built-in C++ backend: header templates, expression emission, and
//! the code generator over the LIR.

pub mod codegen;
pub mod expr_codegen;
pub mod templates;
