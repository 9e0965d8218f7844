//! Static semantic-analysis core for the SafeLang language, together with the
//! verified parts of its standard library and tooling.
//!
//! The heart of the crate is the type registry with its subtyping engine
//! (`types`), the ownership/borrow tracker (`ownership`), the match
//! exhaustiveness checker (`pattern`), and the diagnostic model they report
//! through (`diagnostics`).

pub mod strutil;

pub mod table;

pub mod diagnostics;

pub mod types;

pub mod ownership;

pub mod pattern;

pub mod analyzer;

pub mod lexer;

pub mod token_stream;

pub mod collections;

pub mod crypto;

pub mod path;

pub mod platform;

pub mod simd;

pub mod ffi;

pub mod concurrency;

pub mod driver;

pub mod package;

pub mod json;

pub mod ast;

pub mod macro_system;

pub mod optimize;

pub mod docgen;

pub mod parser;

pub mod csv;

pub mod xml;

pub mod profile;
