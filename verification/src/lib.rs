//! A binding and marshaling layer for a SPIR-V cross-compiler.
//!
//! The crate exposes an opaque-handle compiler lifecycle over a module of
//! 32-bit SPIR-V words: a caller parses a module into an [`spirv::Ast`] for a
//! chosen target shading language, sets target options, queries reflection
//! data (entry points, shader resources, decorations, types), and finally
//! compiles the module to target-language source text.
//!
//! Bulk data crosses the compiler boundary through an explicit linear-memory
//! transport ([`transport::Heap`]): module words are copied in at
//! construction, and reflection arrays and C-style strings are allocated on
//! the transport, copied out into caller-owned values, and released before
//! the query returns.  The contracts of those operations state that no
//! transport allocation leaks.

use vstd::prelude::*;

pub mod compiler;
pub mod emit;
pub mod engine;
pub mod glsl;
pub mod hlsl;
pub mod laws;
pub mod marshal;
pub mod msl;
pub mod parser;
pub mod spirv;
pub mod transport;

verus! {

/// The error surface of every boundary-crossing operation.
///
/// `Unhandled` is a classification failure: the layer could not translate what
/// the compiler core reported.  `CompilationError` carries the diagnostic
/// message retrieved from the core after a semantic compilation failure.
#[derive(Clone, Debug, Hash, Eq, PartialEq)]
pub enum ErrorCode {
    Unhandled,
    CompilationError(String),
}

} // verus!
