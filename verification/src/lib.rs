//! A compiler from a small Forth dialect to RV32I machine code.
//!
//! Source text is a sequence of tokens separated by whitespace. A token is a
//! control token (`:` opens a definition, `;` closes it), the keyword of a
//! primitive, the name of a defined word, or an unsigned integer literal.
//! Each token stands for a fixed sequence of instructions; a defined word
//! stands for a copy of the instructions it was defined with. Compiling
//! writes the instructions of the tokens outside definitions to an output
//! buffer and stores each definition in a dictionary.
//!
//! The compiler allocates nothing: all its storage is lent by the caller.
//!
//! Beside the compiler stand the pieces of the board's firmware that only
//! compute: the fields of the control and status registers, the bookkeeping
//! of the bump allocator, the handling of bytes from the serial line, and an
//! interpreter for a few built-in words.

pub mod allocator;
pub mod compiler;
pub mod console;
pub mod csr;
pub mod dictionary;
pub mod hash;
pub mod hashed_map;
pub mod interpreter;
pub mod laws;
pub mod machine;
pub mod model;
pub mod primitives;
pub mod rv32i;
pub mod tokens;

pub use allocator::BumpAllocator;
pub use compiler::ForthCompiler;
pub use dictionary::{CompiledWord, ForthDictionary};
pub use hash::{get_hash, DJB2};
pub use model::CompilerError;
pub use primitives::Primitive;
