//! Front end of a compiler for a small scripting language that describes
//! numeric functions of time: lexer, scope-aware parser, type table and an
//! operator-precedence expression engine.

pub mod ast;
pub mod error;
pub mod expr;
pub mod functiondef;
pub mod identifier;
pub mod issue;
pub mod lexer;
pub mod number;
pub mod parser;
pub mod scope;
pub mod text;
pub mod tokens;
pub mod types;

pub use crate::error::CompileError;
pub use crate::tokens::SourcePos;
