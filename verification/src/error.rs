//! The structured failure value that every stage of the translation
//! returns: a kind, a human-readable message, and the position (line and
//! column, both starting at 1) that caused the failure.

use vstd::prelude::*;
use vstd::string::StringExecFns;

verus! {

#[derive(Clone, Copy, PartialEq, Eq, Structural, Debug)]
pub enum ErrorKind {
    /// A line whose shape is not recognized, including malformed
    /// formatted-output calls and malformed declaration names.
    Syntax,
    /// A declared type name outside the fixed type catalog.
    UnknownType,
    /// A name used before any declaration of it.
    UndeclaredVariable,
    /// An expression whose type differs from the required one.
    TypeMismatch,
    /// A token that is neither a known name nor a literal.
    InvalidLiteral,
    /// An operator applied to a type it is not defined for.
    OperatorNotValidForType,
    /// A failure of the surrounding input/output collaborators.
    Io,
}

/// A translation failure, carrying the position that caused it.
#[derive(Debug)]
pub struct TranspilerError {
    pub kind: ErrorKind,
    pub message: String,
    pub line: usize,
    pub column: usize,
}

/// The mathematical shape of a translation failure.
pub struct SpecErr {
    pub kind: ErrorKind,
    pub message: Seq<char>,
    pub line: int,
    pub column: int,
}

pub open spec fn err_model(e: TranspilerError) -> SpecErr {
    SpecErr { kind: e.kind, message: e.message@, line: e.line as int, column: e.column as int }
}

/// Shorthand for building a specification-level failure.
pub open spec fn serr(kind: ErrorKind, message: Seq<char>, line: int, column: int) -> SpecErr {
    SpecErr { kind, message, line, column }
}

impl TranspilerError {
    /// A syntax-level failure with the given message and position.
    pub fn new(message: &str, line: usize, column: usize) -> (r: Self)
        ensures
            err_model(r) == (SpecErr {
                kind: ErrorKind::Syntax,
                message: message@,
                line: line as int,
                column: column as int,
            }),
    {
        TranspilerError {
            kind: ErrorKind::Syntax,
            message: String::from_str(message),
            line,
            column,
        }
    }

    /// A failure of the given kind with the given message and position.
    pub fn with_kind(kind: ErrorKind, message: String, line: usize, column: usize) -> (r: Self)
        ensures
            err_model(r) == (SpecErr {
                kind,
                message: message@,
                line: line as int,
                column: column as int,
            }),
    {
        TranspilerError { kind, message, line, column }
    }
}

} // verus!
