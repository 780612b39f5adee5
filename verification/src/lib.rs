//! The front end of a small functional language: lexer, parser, name
//! resolution and type inference, each stated against a mathematical model,
//! with printing and error reports.

pub mod spanned;
pub mod token;
pub mod chars;
pub mod lexer;
pub mod ast;
pub mod grammar;
pub mod parser;
pub mod location;
pub mod error;
pub mod text;
pub mod show;
pub mod resolution;
pub mod typechecker;
