//! The typed syntax tree that the code generator consumes.
//!
//! The tree arrives already parsed and checked. Names are plain strings; a
//! decimal literal carries the IEEE-754 single-precision bit pattern of its
//! value, so that the tree holds integers only.

use vstd::prelude::*;

verus! {

/// Bytes of storage that one declared name or one local takes.
pub const SLOT_SIZE: usize = 4;

/// Working space the machine needs on top of the static section.
pub const STACK_MARGIN: usize = 1024;

/// The declared type of a value.
#[derive(Clone, Copy, Debug, PartialEq, Eq, Structural)]
pub enum TypeKind {
    /// A 32-bit floating-point scalar.
    F32,
    /// A vector of three scalars.
    Vec3,
}

/// An input or output parameter of the program.
#[derive(Debug)]
pub struct ParamDecl {
    pub ident: String,
    pub type_kind: TypeKind,
}

#[derive(Clone, Copy, Debug, PartialEq, Eq, Structural)]
pub enum BinaryOperator {
    Add,
    Sub,
    Mul,
    Div,
}

#[derive(Clone, Copy, Debug, PartialEq, Eq, Structural)]
pub enum UnaryOperator {
    /// Arithmetic negation.
    Sub,
    /// Logical negation.
    Not,
}

#[derive(Clone, Copy, Debug, PartialEq, Eq, Structural)]
pub enum Literal {
    /// A decimal literal, as the bit pattern of its single-precision value.
    DecimalLiteral(u32),
    IntegerLiteral(i64),
}

#[derive(Debug)]
pub enum Expr {
    BinaryOp(BinaryOperator, Box<Expr>, Box<Expr>),
    UnaryOp(UnaryOperator, Box<Expr>),
    /// A call of the named function with the given arguments.
    FuncCall(String, Vec<Expr>),
    Literal(Literal),
    /// A reference to the named local or parameter.
    Symbol(String),
}

#[derive(Debug)]
pub enum Statement {
    /// Gives the named local or parameter the value of the expression.
    Assignment(String, Expr),
    Return(Expr),
}

#[derive(Debug)]
pub struct Function {
    pub ident: String,
    pub statements: Vec<Statement>,
}

/// A whole program: its parameters and functions, each list in declaration
/// order.
#[derive(Debug)]
pub struct Program {
    pub in_parameters: Vec<ParamDecl>,
    pub out_parameters: Vec<ParamDecl>,
    pub functions: Vec<Function>,
}

impl Program {
    /// The declared parameters in storage order: inputs first, then outputs.
    pub open spec fn parameters(&self) -> Seq<ParamDecl> {
        self.in_parameters@ + self.out_parameters@
    }

    /// Whether every offset and size that compiling this program computes
    /// fits the machine's word: the static section with its stack margin,
    /// and a frame with one slot per statement of the longest function.
    pub open spec fn spec_within_limits(&self) -> bool {
        &&& SLOT_SIZE * self.parameters().len() + STACK_MARGIN <= usize::MAX
        &&& forall|i: int|
            0 <= i < self.functions@.len() ==> SLOT_SIZE * (
            #[trigger] self.functions@[i]).statements@.len() <= usize::MAX
    }

    /// Tests [`Self::spec_within_limits`].
    #[verifier::when_used_as_spec(spec_within_limits)]
    pub fn within_limits(&self) -> (fits: bool)
        ensures
            fits == self.spec_within_limits(),
    {
        let slots: usize = (usize::MAX - STACK_MARGIN) / SLOT_SIZE;
        if self.in_parameters.len() > slots || self.out_parameters.len() > slots
            - self.in_parameters.len() {
            return false;
        }
        let frame_slots: usize = usize::MAX / SLOT_SIZE;
        let mut i: usize = 0;
        while i < self.functions.len()
            invariant
                i <= self.functions@.len(),
                frame_slots == usize::MAX / SLOT_SIZE,
                forall|j: int|
                    0 <= j < i ==> SLOT_SIZE * (#[trigger] self.functions@[j]).statements@.len()
                        <= usize::MAX,
            decreases self.functions@.len() - i,
        {
            if self.functions[i].statements.len() > frame_slots {
                return false;
            }
            i += 1;
        }
        true
    }
}

} // verus!
