//! The errors of compiling and running a program.
use vstd::prelude::*;

use crate::tokenizer::TokenKind;

verus! {

/// Why compiling failed.
#[derive(Debug, PartialEq, Eq)]
pub enum CompilationErrorReason {
    NotEnoughTokens,
    TooMayTokens,
    ParseFloatError,
    ExpectedRightParen,
    ExpectedPrefix,
    ExpectedBinaryOperator,
    ScopeUnderflow,
    /// Blocks nest deeper than the depth counter can count.
    ScopeOverflow,
    ExpectedDifferentToken { expected: TokenKind, received: TokenKind },
    /// A chunk holds at most 256 number constants.
    TooManyConstants,
    /// A chunk holds at most 256 strings.
    TooManyStrings,
    /// At most 256 locals are live at a time.
    TooManyLocals,
    /// A syntax error with its message.
    Message(&'static str),
}

/// The first failure of a phase.
#[derive(Debug, PartialEq, Eq)]
pub enum InterpretError {
    LoadError,
    CompileError(CompilationErrorReason),
    RuntimeError,
    StackUnderflowError,
    RuntimeErrorWithReason(&'static str),
    JumpTooFar,
}

impl InterpretError {
    /// A short description of the error.
    pub fn describe(&self) -> (r: &'static str)
        ensures
            r == match *self {
                InterpretError::CompileError(_) => "compilation error",
                InterpretError::RuntimeError => "runtime error",
                InterpretError::StackUnderflowError => "stack underflow error",
                InterpretError::RuntimeErrorWithReason(reason) => reason,
                InterpretError::JumpTooFar => "jump too far",
                InterpretError::LoadError => "load error",
            },
    {
        match self {
            InterpretError::CompileError(_) => "compilation error",
            InterpretError::RuntimeError => "runtime error",
            InterpretError::StackUnderflowError => "stack underflow error",
            InterpretError::RuntimeErrorWithReason(reason) => reason,
            InterpretError::JumpTooFar => "jump too far",
            InterpretError::LoadError => "load error",
        }
    }
}

} // verus!
