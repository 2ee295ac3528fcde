//! Rift: a regular-expression library with a Vim-influenced syntax.
//!
//! A pattern string is compiled into a syntax tree by a recursive-descent
//! parser, and a backtracking engine walks that tree against input text,
//! returning spans and capture groups.

pub mod ast;
pub mod captures;
pub mod chars;
pub mod engine;
pub mod errors;
pub mod flags;
pub mod laws;
pub mod parser;
pub mod parsing;
pub mod regex;
pub mod semantics;

pub use ast::AstNode;
pub use ast::CharClass;
pub use ast::CharRange;
pub use captures::Captures;
pub use captures::Match;
pub use engine::Matcher;
pub use errors::CompileError;
pub use errors::ParseError;
pub use flags::Flags;
pub use parser::Parser;
pub use parsing::parse_rift_format;
pub use regex::Regex;
