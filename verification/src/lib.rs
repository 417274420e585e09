//! Compiler for an RFC 4506-style XDR interface definition language.
//!
//! The library parses schema text into an abstract syntax tree and walks it
//! once, emitting three coordinated artifacts in the target language: type
//! declarations, wire encode/decode routines keyed by program, version and
//! procedure number, and service-dispatch scaffolding.

pub mod ast;
pub mod code_writer;
pub mod codegen;
pub mod decimal;
pub mod dispatch;
pub mod function_writer;
pub mod parser;
pub mod strutil;
