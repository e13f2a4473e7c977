//! The error taxonomy of the compiler. Every failure aborts the whole
//! compilation immediately: none of these is recovered locally, and no
//! partial output is produced once one arises.

use vstd::prelude::*;

verus! {

/// Everything that can end a compilation early. Lexing failures come from a
/// single malformed line; syntax failures from a token sequence no statement
/// shape matches; module failures from the set of input files as a whole;
/// `BackendCompilationFailed` is reserved for a driver whose external
/// backend compiler exits unsuccessfully.
#[derive(Debug, PartialEq, Eq, Structural, Clone, Copy)]
pub enum CompileError {
    UnterminatedStringLiteral,
    UnterminatedCharacterLiteral,
    InvalidEscapeSequence,
    UnexpectedToken,
    UnexpectedTokenSequence,
    MalformedArrayAssignment,
    ImportNotAtTop,
    ReservedModuleNameImported,
    EmptyExpression,
    NoSourceFiles,
    NoEntryModule,
    InvalidFilename,
    BackendCompilationFailed,
}

impl CompileError {
    /// A fixed description of the failure, for a driver to report.
    pub fn message(&self) -> (r: &'static str)
        ensures
            r@ == self.spec_message(),
    {
        match self {
            CompileError::UnterminatedStringLiteral => "unterminated string literal",
            CompileError::UnterminatedCharacterLiteral => "unterminated character literal",
            CompileError::InvalidEscapeSequence => "invalid escape sequence",
            CompileError::UnexpectedToken => "unexpected token",
            CompileError::UnexpectedTokenSequence => "unexpected token sequence",
            CompileError::MalformedArrayAssignment => "malformed array assignment",
            CompileError::ImportNotAtTop => "import statements must come before all other statements",
            CompileError::ReservedModuleNameImported => "cannot import a reserved module name",
            CompileError::EmptyExpression => "expression requires at least one token",
            CompileError::NoSourceFiles => "no source files found",
            CompileError::NoEntryModule => "no entry module found",
            CompileError::InvalidFilename => "invalid filename",
            CompileError::BackendCompilationFailed => "backend compiler failed",
        }
    }

    /// What `message` returns for each variant.
    pub open spec fn spec_message(&self) -> Seq<char> {
        match self {
            CompileError::UnterminatedStringLiteral => "unterminated string literal"@,
            CompileError::UnterminatedCharacterLiteral => "unterminated character literal"@,
            CompileError::InvalidEscapeSequence => "invalid escape sequence"@,
            CompileError::UnexpectedToken => "unexpected token"@,
            CompileError::UnexpectedTokenSequence => "unexpected token sequence"@,
            CompileError::MalformedArrayAssignment => "malformed array assignment"@,
            CompileError::ImportNotAtTop => "import statements must come before all other statements"@,
            CompileError::ReservedModuleNameImported => "cannot import a reserved module name"@,
            CompileError::EmptyExpression => "expression requires at least one token"@,
            CompileError::NoSourceFiles => "no source files found"@,
            CompileError::NoEntryModule => "no entry module found"@,
            CompileError::InvalidFilename => "invalid filename"@,
            CompileError::BackendCompilationFailed => "backend compiler failed"@,
        }
    }
}

} // verus!
