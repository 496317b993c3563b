//! Why a compilation fails.

use vstd::prelude::*;

verus! {

/// Why constant folding gave up on a program.
#[derive(Clone, Copy, Debug, PartialEq, Eq, Structural)]
pub enum FoldingError {
    /// A constant subexpression divides by a constant zero.
    DivisionByZero,
}

/// Why a program could not be compiled. Every one of these ends the whole
/// compilation: no part of a program is ever handed out.
#[derive(Debug, PartialEq, Eq)]
pub enum CompileError {
    /// Constant folding failed, so no code was generated at all.
    Folding(FoldingError),
    /// The named symbol is neither a local of the function that refers to it
    /// nor a parameter of the program.
    UnresolvedSymbol(String),
    /// The named function is called before any function of that name has
    /// been compiled.
    UnresolvedFunction(String),
    /// The expression has a form that the generator does not lower: a
    /// literal that is not decimal, or a unary operator other than negation.
    UnsupportedExpression,
}

} // verus!
