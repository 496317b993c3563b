//! What the code generator emits, as a function of the syntax tree.
//!
//! Expressions are lowered in post-order: the operands from left to right,
//! then the operator. The first construct that cannot be lowered decides the
//! error of the whole program.

use vstd::prelude::*;
use crate::ast::BinaryOperator;
use crate::ast::Expr;
use crate::ast::Function;
use crate::ast::Literal;
use crate::ast::Program;
use crate::ast::SLOT_SIZE;
use crate::ast::STACK_MARGIN;
use crate::ast::Statement;
use crate::ast::TypeKind;
use crate::ast::UnaryOperator;
use crate::cell::MemoryCell;
use crate::error::CompileError;
use crate::layout::allocates_local;
use crate::layout::frame_size;
use crate::layout::global_table;
use crate::layout::lemma_slot_table_push;
use crate::layout::local_slot;
use crate::layout::local_slots;
use crate::layout::local_table;
use crate::opcode::OpCode;
use crate::symbols::FuncMetaView;
use crate::symbols::FunctionTable;
use crate::symbols::ProgramDataView;
use crate::symbols::SymbolMeta;
use crate::symbols::SymbolTable;
use crate::symbols::VMProgramView;

verus! {

/// The single-precision bit pattern of -1, by which negation multiplies.
pub const NEGATIVE_ONE: u32 = 0xBF80_0000;

/// The names that an expression can refer to.
pub struct Scope {
    /// The locals of the function being compiled, as far as they are
    /// allocated.
    pub locals: SymbolTable,
    /// The program's parameters.
    pub globals: SymbolTable,
    /// The functions compiled so far.
    pub functions: FunctionTable,
}

/// The 16-bit immediate that carries an offset, a size or an address: its
/// low 16 bits.
pub open spec fn immediate_of(value: int) -> u16 {
    (value % 0x1_0000) as u16
}

/// The operation that a binary operator lowers to. Arithmetic is always on
/// scalars.
pub open spec fn binary_opcode(op: BinaryOperator) -> OpCode {
    match op {
        BinaryOperator::Add => OpCode::AddF32,
        BinaryOperator::Sub => OpCode::SubF32,
        BinaryOperator::Mul => OpCode::MulF32,
        BinaryOperator::Div => OpCode::DivF32,
    }
}

/// The two cells that push the constant with bit pattern `bits`.
pub open spec fn push_constant(bits: u32) -> Seq<MemoryCell> {
    seq![MemoryCell::instruction(OpCode::ConstF32, 0), MemoryCell { data: bits }]
}

/// The instructions that evaluate `expr`, or the reason why there are none.
///
/// The arguments of a call are not evaluated: a call is the call instruction
/// alone, with the callee's entry address as its immediate.
pub open spec fn expr_code(expr: Expr, scope: Scope) -> Result<Seq<MemoryCell>, CompileError>
    decreases expr,
{
    match expr {
        Expr::BinaryOp(op, left, right) => match expr_code(*left, scope) {
            Err(e) => Err(e),
            Ok(left_code) => match expr_code(*right, scope) {
                Err(e) => Err(e),
                Ok(right_code) => Ok(
                    left_code + right_code + seq![
                        MemoryCell::instruction(binary_opcode(op), 0),
                    ],
                ),
            },
        },
        Expr::UnaryOp(op, operand) => match op {
            UnaryOperator::Sub => match expr_code(*operand, scope) {
                Err(e) => Err(e),
                Ok(code) => Ok(
                    code + push_constant(NEGATIVE_ONE) + seq![
                        MemoryCell::instruction(OpCode::MulF32, 0),
                    ],
                ),
            },
            _ => Err(CompileError::UnsupportedExpression),
        },
        Expr::FuncCall(callee, _) => if scope.functions.contains_key(callee@) {
            Ok(
                seq![
                    MemoryCell::instruction(
                        OpCode::Call,
                        immediate_of(scope.functions[callee@].address as int),
                    ),
                ],
            )
        } else {
            Err(CompileError::UnresolvedFunction(callee))
        },
        Expr::Literal(literal) => match literal {
            Literal::DecimalLiteral(bits) => Ok(push_constant(bits)),
            _ => Err(CompileError::UnsupportedExpression),
        },
        Expr::Symbol(name) => if scope.locals.contains_key(name@) {
            Ok(
                seq![
                    MemoryCell::instruction(
                        OpCode::Load4,
                        immediate_of(scope.locals[name@].offset as int),
                    ),
                ],
            )
        } else if scope.globals.contains_key(name@) {
            Ok(
                seq![
                    MemoryCell::instruction(
                        OpCode::Load4Global,
                        immediate_of(scope.globals[name@].offset as int),
                    ),
                ],
            )
        } else {
            Err(CompileError::UnresolvedSymbol(name))
        },
    }
}

/// The instructions of one statement in a frame that holds `frame` bytes.
///
/// An assignment to a parameter stores the value to the parameter's slot.
/// An assignment to any other name emits no store: where the name is new,
/// the value stays where the evaluation left it, and that place becomes the
/// local's slot.
pub open spec fn statement_code(statement: Statement, scope: Scope, frame: int) -> Result<
    Seq<MemoryCell>,
    CompileError,
> {
    match statement {
        Statement::Assignment(target, value) => match expr_code(value, scope) {
            Err(e) => Err(e),
            Ok(code) => if scope.globals.contains_key(target@) {
                Ok(
                    code + seq![
                        MemoryCell::instruction(
                            OpCode::Mov4Global,
                            immediate_of(scope.globals[target@].offset as int),
                        ),
                    ],
                )
            } else {
                Ok(code)
            },
        },
        Statement::Return(value) => match expr_code(value, scope) {
            Err(e) => Err(e),
            Ok(code) => Ok(code + seq![MemoryCell::instruction(OpCode::Ret, immediate_of(frame))]),
        },
    }
}

/// The instructions of a statement list. Each statement sees the locals
/// that the statements before it allocated, and a return reclaims the frame
/// as it stands at that point.
pub open spec fn statements_code(
    statements: Seq<Statement>,
    globals: SymbolTable,
    functions: FunctionTable,
) -> Result<Seq<MemoryCell>, CompileError>
    decreases statements.len(),
{
    if statements.len() == 0 {
        Ok(Seq::empty())
    } else {
        let before = statements.drop_last();
        match statements_code(before, globals, functions) {
            Err(e) => Err(e),
            Ok(code) => match statement_code(
                statements.last(),
                Scope { locals: local_table(before, globals), globals, functions },
                frame_size(before, globals),
            ) {
                Err(e) => Err(e),
                Ok(last_code) => Ok(code + last_code),
            },
        }
    }
}

/// Whether one of the statements is a return.
pub open spec fn has_return(statements: Seq<Statement>) -> bool {
    exists|i: int| 0 <= i < statements.len() && #[trigger] statements[i] is Return
}

/// What a function without a return statement ends with: the empty value is
/// pushed and returned, and the whole frame reclaimed.
pub open spec fn implicit_return(frame: int) -> Seq<MemoryCell> {
    seq![
        MemoryCell::instruction(OpCode::Void, 0),
        MemoryCell::instruction(OpCode::Ret, immediate_of(frame)),
    ]
}

/// The instructions of a function.
pub open spec fn function_code(
    function: Function,
    globals: SymbolTable,
    functions: FunctionTable,
) -> Result<Seq<MemoryCell>, CompileError> {
    match statements_code(function.statements@, globals, functions) {
        Err(e) => Err(e),
        Ok(code) => if has_return(function.statements@) {
            Ok(code)
        } else {
            Ok(code + implicit_return(frame_size(function.statements@, globals)))
        },
    }
}

/// The instructions and the function table of a run of functions.
pub struct Unit {
    pub code: Seq<MemoryCell>,
    pub functions: FunctionTable,
}

/// The result of compiling `functions` in order. A function starts where the
/// code of those before it ends; it can call those, and neither itself nor a
/// later one. Of two functions with one name the later takes the name.
pub open spec fn functions_unit(functions: Seq<Function>, globals: SymbolTable) -> Result<
    Unit,
    CompileError,
>
    decreases functions.len(),
{
    if functions.len() == 0 {
        Ok(Unit { code: Seq::empty(), functions: FunctionTable::empty() })
    } else {
        match functions_unit(functions.drop_last(), globals) {
            Err(e) => Err(e),
            Ok(unit) => match function_code(functions.last(), globals, unit.functions) {
                Err(e) => Err(e),
                Ok(code) => Ok(
                    Unit {
                        code: unit.code + code,
                        functions: unit.functions.insert(
                            functions.last().ident@,
                            FuncMetaView {
                                address: unit.code.len() as usize,
                                symbols: local_table(functions.last().statements@, globals),
                            },
                        ),
                    },
                ),
            },
        }
    }
}

/// Bytes of the static section of a program: one slot per parameter.
pub open spec fn static_size(program: Program) -> int {
    SLOT_SIZE * program.parameters().len()
}

/// The compiled form of a program, or the reason why it has none.
pub open spec fn compiled(program: Program) -> Result<VMProgramView, CompileError> {
    let globals = global_table(program.parameters());
    match functions_unit(program.functions@, globals) {
        Err(e) => Err(e),
        Ok(unit) => Ok(
            VMProgramView {
                code: unit.code,
                data: ProgramDataView {
                    functions: unit.functions,
                    global_symbols: globals,
                    min_stack_size: (static_size(program) + STACK_MARGIN) as usize,
                    static_section_size: static_size(program) as usize,
                },
            },
        ),
    }
}

/// What the statement at `index` adds to the statements before it: its
/// instructions follow theirs, and if it allocates a local, the name is bound
/// to the next slot of the frame, which grows by that slot.
pub proof fn lemma_statement_step(
    statements: Seq<Statement>,
    index: int,
    globals: SymbolTable,
    functions: FunctionTable,
)
    requires
        0 <= index < statements.len(),
    ensures
        statements_code(statements.take(index + 1), globals, functions) == match statements_code(
            statements.take(index),
            globals,
            functions,
        ) {
            Err(e) => Err(e),
            Ok(code) => match statement_code(
                statements[index],
                Scope { locals: local_table(statements.take(index), globals), globals, functions },
                frame_size(statements.take(index), globals),
            ) {
                Err(e) => Err(e),
                Ok(last_code) => Ok(code + last_code),
            },
        },
        allocates_local(statements[index], local_table(statements.take(index), globals), globals)
            ==> {
            &&& frame_size(statements.take(index + 1), globals) == frame_size(
                statements.take(index),
                globals,
            ) + SLOT_SIZE
            &&& local_table(statements.take(index + 1), globals) == local_table(
                statements.take(index),
                globals,
            ).insert(
                statements[index]->Assignment_0@,
                SymbolMeta {
                    offset: frame_size(statements.take(index), globals) as usize,
                    is_static: false,
                    type_kind: TypeKind::F32,
                },
            )
        },
        !allocates_local(statements[index], local_table(statements.take(index), globals), globals)
            ==> {
            &&& frame_size(statements.take(index + 1), globals) == frame_size(
                statements.take(index),
                globals,
            )
            &&& local_table(statements.take(index + 1), globals) == local_table(
                statements.take(index),
                globals,
            )
        },
        has_return(statements.take(index + 1)) <==> has_return(statements.take(index))
            || statements[index] is Return,
{
    let longer = statements.take(index + 1);
    let shorter = statements.take(index);
    assert(longer.drop_last() == shorter);
    assert(longer.last() == statements[index]);
    if allocates_local(statements[index], local_table(shorter, globals), globals) {
        lemma_slot_table_push(local_slots(shorter, globals), local_slot(statements[index]), false);
    }
    if has_return(shorter) {
        let i = choose|i: int| 0 <= i < shorter.len() && #[trigger] shorter[i] is Return;
        assert(longer[i] is Return);
    }
    if statements[index] is Return {
        assert(longer[index] is Return);
    }
    if has_return(longer) {
        let i = choose|i: int| 0 <= i < longer.len() && #[trigger] longer[i] is Return;
        if i < index {
            assert(shorter[i] is Return);
        }
    }
}

/// The first statement that cannot be lowered decides: an error of the first
/// `count` statements is the error of the whole list.
pub proof fn lemma_statements_error_stays(
    statements: Seq<Statement>,
    count: int,
    globals: SymbolTable,
    functions: FunctionTable,
)
    requires
        0 <= count <= statements.len(),
        statements_code(statements.take(count), globals, functions) is Err,
    ensures
        statements_code(statements, globals, functions) == statements_code(
            statements.take(count),
            globals,
            functions,
        ),
    decreases statements.len() - count,
{
    if count == statements.len() {
        assert(statements.take(count) == statements);
    } else {
        lemma_statement_step(statements, count, globals, functions);
        lemma_statements_error_stays(statements, count + 1, globals, functions);
    }
}

/// What the function at `index` adds to the functions before it: it starts
/// where their instructions end, sees their table, and takes its name in it.
pub proof fn lemma_function_step(functions: Seq<Function>, index: int, globals: SymbolTable)
    requires
        0 <= index < functions.len(),
    ensures
        functions_unit(functions.take(index + 1), globals) == match functions_unit(
            functions.take(index),
            globals,
        ) {
            Err(e) => Err(e),
            Ok(unit) => match function_code(functions[index], globals, unit.functions) {
                Err(e) => Err(e),
                Ok(code) => Ok(
                    Unit {
                        code: unit.code + code,
                        functions: unit.functions.insert(
                            functions[index].ident@,
                            FuncMetaView {
                                address: unit.code.len() as usize,
                                symbols: local_table(functions[index].statements@, globals),
                            },
                        ),
                    },
                ),
            },
        },
{
    let longer = functions.take(index + 1);
    assert(longer.drop_last() == functions.take(index));
    assert(longer.last() == functions[index]);
}

/// The first function that cannot be compiled decides: an error of the first
/// `count` functions is the error of the whole list.
pub proof fn lemma_functions_error_stays(functions: Seq<Function>, count: int, globals: SymbolTable)
    requires
        0 <= count <= functions.len(),
        functions_unit(functions.take(count), globals) is Err,
    ensures
        functions_unit(functions, globals) == functions_unit(functions.take(count), globals),
    decreases functions.len() - count,
{
    if count == functions.len() {
        assert(functions.take(count) == functions);
    } else {
        lemma_function_step(functions, count, globals);
        lemma_functions_error_stays(functions, count + 1, globals);
    }
}

} // verus!
