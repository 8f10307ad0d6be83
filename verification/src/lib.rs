//! Decision logic for compiling a submitted contract in a throwaway project:
//! text clean-up, hexadecimal bytecode, artifact paths and the build protocol.

pub mod chars;
pub mod text;
pub mod cleanup;
pub mod bytecode;
pub mod diagnostics;
pub mod response;
pub mod project;
pub mod compile;
pub mod course;
