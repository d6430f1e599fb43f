//! A compiler for a declarative binary-format description language.
//!
//! A format description names enums and structs whose fields are laid out in
//! wire order.  The front end turns a raw configuration document into a typed
//! high-level representation (HIR), the lowering pipeline rewrites the HIR
//! into a linear operation list (LIR) with integer-identified dataflow, and a
//! backend turns the LIR into source text in a target language.

pub mod cpp;
pub mod error;
pub mod exchange;
pub mod expr;
pub mod expr_parser;
pub mod hir;
pub mod laws;
pub mod lir;
pub mod parser;
pub mod pipeline;
pub mod python_codegen;
pub mod raw;
pub mod registry;
pub mod seq_view;
pub mod strutil;
pub mod topo_sort;
pub mod wasm;
