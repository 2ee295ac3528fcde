//! Error types of the compilation pipeline and the flavor-string splitter.

use vstd::prelude::*;

verus! {

/// Errors that can occur during the compilation of a regular expression.
#[derive(Debug)]
pub enum CompileError {
    /// The pattern contains invalid syntax.
    InvalidPattern(String),
    /// A quantifier (e.g. `*`, `+`, `{n,m}`) is malformed.
    InvalidQuantifier(String),
    /// A capture group is malformed.
    InvalidGroup(String),
    /// Parentheses are not balanced.
    UnmatchedParen,
    /// An escape sequence is invalid.
    InvalidEscape(String),
    /// A named capture group reuses a name.
    DuplicateGroupName(String),
}

/// A compile error as contracts see it: strings as character sequences.
pub enum GCErr {
    /// Invalid syntax.
    InvalidPattern(Seq<char>),
    /// A malformed quantifier.
    InvalidQuantifier(Seq<char>),
    /// A malformed group.
    InvalidGroup(Seq<char>),
    /// Unbalanced parentheses.
    UnmatchedParen,
    /// An invalid escape.
    InvalidEscape(Seq<char>),
    /// A reused group name.
    DuplicateGroupName(Seq<char>),
}

/// A compile error as contracts see it.
pub open spec fn cerr_view(e: CompileError) -> GCErr {
    match e {
        CompileError::InvalidPattern(s) => GCErr::InvalidPattern(s@),
        CompileError::InvalidQuantifier(s) => GCErr::InvalidQuantifier(s@),
        CompileError::InvalidGroup(s) => GCErr::InvalidGroup(s@),
        CompileError::UnmatchedParen => GCErr::UnmatchedParen,
        CompileError::InvalidEscape(s) => GCErr::InvalidEscape(s@),
        CompileError::DuplicateGroupName(s) => GCErr::DuplicateGroupName(s@),
    }
}

/// Errors that can occur when splitting a flavor string `pattern/flags`.
#[derive(Debug)]
pub enum ParseError {
    /// The input string contains no `/` delimiter.
    NoDelimiter,
    /// An unknown flag letter was encountered.
    InvalidFlags(char),
}

} // verus!
