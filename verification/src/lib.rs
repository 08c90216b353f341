//! Semantic analysis for a small Rust-like language subset: nominal struct
//! types, inherent impl blocks, associated functions and methods, the `Self`
//! placeholder, and struct-literal construction with field shorthand.
//!
//! The pass receives a typed abstract syntax tree from an upstream parser and
//! establishes which declaration each qualified call, method call and struct
//! literal binds to, and whether that binding is well-formed. Failures are
//! reported as structured diagnostic records; analysis of unrelated constructs
//! continues.

pub mod ast;
pub mod diag;
pub mod table;
pub mod selfres;
pub mod registry;
pub mod calls;
pub mod literal;
