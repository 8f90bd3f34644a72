//! Error taxonomy. The evaluator and folder report a `CompilerError`; the
//! parser reports a `ParseError` with the character position of the failure.
//! I/O failures belong to the callers that do the I/O, not to this crate.

use vstd::prelude::*;

verus! {

/// An error detected while folding: checked 8-bit arithmetic that leaves
/// `[0, 255]`, division by zero, or an operand of the wrong type.
#[derive(Debug, Clone, Copy, PartialEq, Eq, Structural)]
pub enum CompilerError {
    Underflow,
    Overflow,
    DivByZero,
    MismatchType,
}

/// Malformed source text, with the character position (not byte position)
/// at which parsing failed.
#[derive(Debug, Clone, Copy, PartialEq, Eq, Structural)]
pub struct ParseError {
    pub at: usize,
}

impl CompilerError {
    /// A human-readable description of the error.
    pub fn message(&self) -> (r: &'static str)
        ensures
            *self is Underflow ==> r@ == "Integer underflow during evaluation"@,
            *self is Overflow ==> r@ == "Integer overflow during evaluation"@,
            *self is DivByZero ==> r@ == "Division by Zero during evaluation"@,
            *self is MismatchType ==> r@ == "Operation on mismatched types during evaluation"@,
    {
        match self {
            CompilerError::Underflow => "Integer underflow during evaluation",
            CompilerError::Overflow => "Integer overflow during evaluation",
            CompilerError::DivByZero => "Division by Zero during evaluation",
            CompilerError::MismatchType => "Operation on mismatched types during evaluation",
        }
    }
}

} // verus!
