//! A compiler from StreamAsm, a small assembly language for timed character
//! streams, to a self-contained Rust artifact.

pub mod error;
pub mod ident;
pub mod lexer;
pub mod literal;
pub mod parser;
pub mod preamble;
pub mod runtime;
pub mod text;
