//! A compiler for a small grammar language whose rules denote records and
//! tagged unions.
//!
//! A rule such as `point -> x(f64), y(f64);` declares a record, a rule such as
//! `shape -> circle(f64) | square(f64) | point;` a tagged union. The library
//! tokenizes the text, parses the tokens into a [`Grammar`], validates it and
//! generates one type declaration per rule.
//!
//! ```text
//! let declarations: String = bnf::compile("point -> x(f64), y(f64);")?;
//! ```
//!
//! Each stage can be called on its own: [`tokenize`], [`Grammar::parse`],
//! [`validate`], [`generate`] and [`render`]. The module [`laws`] states
//! what holds between them.

pub mod compiler;
pub mod diagnostic;
pub mod generator;
pub mod grammar;
pub mod laws;
pub mod parser;
pub mod printer;
pub mod render;
pub mod token;
pub mod validator;

pub use compiler::{compile, compile_tokens};
pub use diagnostic::{Diagnostic, ErrorKind, Expected};
pub use generator::{
    capitalize, generate, replace_first, Constructor, Declaration, Member, Variant,
};
pub use grammar::{Field, Grammar, Identifier, Rule, RuleKind, Separator};
pub use printer::{canonical_text, canonical_tokens};
pub use render::render;
pub use token::{classify_all, tokenize, Delimiter, Lexeme, Token};
pub use validator::validate;
