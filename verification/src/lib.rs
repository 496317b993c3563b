//! Code generation for a small shading language.
//!
//! A program declares input and output parameters and a list of functions
//! over scalars. [`codegen`] lowers such a program to a stream of 32-bit
//! cells for a stack machine, together with the tables the machine needs:
//! where each parameter lies in the static section, where each function
//! starts, and how much stack to provide.
//!
//! - [`ast`]: the syntax tree that comes in.
//! - [`opcode`], [`cell`]: the instruction set and its packing into cells.
//! - [`symbols`]: the tables and the compiled program that goes out.
//! - [`layout`]: how names are given storage.
//! - [`lowering`]: what is emitted for each construct, as a specification.
//! - [`compiler`]: the generator itself.
//! - [`laws`]: what holds of every compiled program.

pub mod ast;
pub mod cell;
pub mod compiler;
pub mod error;
pub mod laws;
pub mod layout;
pub mod lowering;
pub mod opcode;
pub mod symbols;

pub use ast::BinaryOperator;
pub use ast::Expr;
pub use ast::Function;
pub use ast::Literal;
pub use ast::ParamDecl;
pub use ast::Program;
pub use ast::Statement;
pub use ast::TypeKind;
pub use ast::UnaryOperator;
pub use cell::DecodeError;
pub use cell::MemoryCell;
pub use compiler::allocate_globals;
pub use compiler::codegen;
pub use compiler::compile;
pub use compiler::generate_expr;
pub use compiler::generate_function;
pub use compiler::generate_statement;
pub use error::CompileError;
pub use error::FoldingError;
pub use opcode::OpCode;
pub use symbols::FuncMeta;
pub use symbols::ProgramData;
pub use symbols::SymbolMeta;
pub use symbols::VMProgram;
