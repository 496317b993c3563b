//! The code generator.

use vstd::prelude::*;
use vstd::hash_map::StringHashMap;
use crate::ast::BinaryOperator;
use crate::ast::Expr;
use crate::ast::Function;
use crate::ast::Literal;
use crate::ast::Program;
use crate::ast::SLOT_SIZE;
use crate::ast::STACK_MARGIN;
use crate::ast::Statement;
use crate::ast::TypeKind;
use crate::ast::UnaryOperator;
use crate::cell::MemoryCell;
use crate::error::CompileError;
use crate::error::FoldingError;
use crate::layout::allocates_local;
use crate::layout::frame_size;
use crate::layout::global_table;
use crate::layout::lemma_local_slots_len;
use crate::layout::lemma_param_step;
use crate::layout::lemma_slot_table_empty;
use crate::layout::local_table;
use crate::layout::param_slots;
use crate::layout::Slot;
use crate::lowering::binary_opcode;
use crate::lowering::compiled;
use crate::lowering::expr_code;
use crate::lowering::function_code;
use crate::lowering::functions_unit;
use crate::lowering::has_return;
use crate::lowering::immediate_of;
use crate::lowering::lemma_function_step;
use crate::lowering::lemma_functions_error_stays;
use crate::lowering::lemma_statement_step;
use crate::lowering::lemma_statements_error_stays;
use crate::lowering::NEGATIVE_ONE;
use crate::lowering::Scope;
use crate::lowering::statement_code;
use crate::lowering::statements_code;
use crate::lowering::static_size;
use crate::lowering::Unit;
use crate::opcode::OpCode;
use crate::symbols::FuncMeta;
use crate::symbols::FuncMetaView;
use crate::symbols::function_views;
use crate::symbols::SymbolMeta;
use crate::symbols::VMProgram;

verus! {

/// The names that code of `function`, generated into `program`, can refer
/// to.
pub open spec fn scope_of(program: VMProgram, function: FuncMeta) -> Scope {
    Scope {
        locals: function.symbols@,
        globals: program.data.global_symbols@,
        functions: function_views(program.data.functions@),
    }
}

/// The low 16 bits of `value`.
fn immediate(value: usize) -> (imm: u16)
    ensures
        imm == immediate_of(value as int),
{
    (value % 0x1_0000) as u16
}

/// The operation that `op` lowers to.
fn opcode_of(op: &BinaryOperator) -> (inst: OpCode)
    ensures
        inst == binary_opcode(*op),
{
    match op {
        BinaryOperator::Add => OpCode::AddF32,
        BinaryOperator::Sub => OpCode::SubF32,
        BinaryOperator::Mul => OpCode::MulF32,
        BinaryOperator::Div => OpCode::DivF32,
    }
}

/// Appends to `program` the instructions that evaluate `expr` inside the
/// function `fnc`.
///
/// A symbol is looked up among the locals of `fnc` first, then among the
/// program's parameters; a callee among the functions already in the
/// program's table. When the expression cannot be lowered the program is
/// left exactly as it was.
pub fn generate_expr(program: &mut VMProgram, ast: &Program, fnc: &FuncMeta, expr: &Expr) -> (result:
    Result<(), CompileError>)
    ensures
        final(program).data == old(program).data,
        match expr_code(*expr, scope_of(*old(program), *fnc)) {
            Ok(code) => result is Ok && final(program).code@ == old(program).code@ + code,
            Err(e) => result == Err::<(), CompileError>(e) && final(program).code@ == old(
                program,
            ).code@,
        },
    decreases expr,
{
    let start: usize = program.code.len();
    match expr {
        Expr::BinaryOp(op, left, right) => {
            match generate_expr(program, ast, fnc, left) {
                Err(e) => {
                    return Err(e);
                },
                Ok(()) => {},
            }
            match generate_expr(program, ast, fnc, right) {
                Err(e) => {
                    program.code.truncate(start);
                    return Err(e);
                },
                Ok(()) => {},
            }
            program.code.push(MemoryCell::plain_inst(opcode_of(op)));
            Ok(())
        },
        Expr::UnaryOp(op, operand) => match op {
            UnaryOperator::Sub => {
                match generate_expr(program, ast, fnc, operand) {
                    Err(e) => {
                        return Err(e);
                    },
                    Ok(()) => {},
                }
                program.code.push(MemoryCell::plain_inst(OpCode::ConstF32));
                program.code.push(MemoryCell::raw(NEGATIVE_ONE));
                program.code.push(MemoryCell::plain_inst(OpCode::MulF32));
                Ok(())
            },
            _ => Err(CompileError::UnsupportedExpression),
        },
        Expr::FuncCall(callee, _) => {
            match program.data.functions.get(callee.as_str()) {
                Some(meta) => {
                    let address: usize = meta.address;
                    program.code.push(MemoryCell::with_data(OpCode::Call, immediate(address)));
                    Ok(())
                },
                None => Err(CompileError::UnresolvedFunction(callee.clone())),
            }
        },
        Expr::Literal(literal) => match literal {
            Literal::DecimalLiteral(bits) => {
                program.code.push(MemoryCell::plain_inst(OpCode::ConstF32));
                program.code.push(MemoryCell::raw(*bits));
                Ok(())
            },
            _ => Err(CompileError::UnsupportedExpression),
        },
        Expr::Symbol(name) => {
            if let Some(symbol) = fnc.symbols.get(name.as_str()) {
                program.code.push(MemoryCell::with_data(OpCode::Load4, immediate(symbol.offset)));
                Ok(())
            } else if let Some(symbol) = program.data.global_symbols.get(name.as_str()) {
                let offset: usize = symbol.offset;
                program.code.push(MemoryCell::with_data(OpCode::Load4Global, immediate(offset)));
                Ok(())
            } else {
                Err(CompileError::UnresolvedSymbol(name.clone()))
            }
        },
    }
}

/// Appends to `program` the instructions of one statement of the function
/// `fnc`, whose frame holds `stack_offset` bytes so far.
///
/// An assignment to a name that is neither a parameter nor yet a local of
/// `fnc` allocates the next slot of the frame for it: the name is bound to
/// the old `stack_offset`, which then grows by one slot. A local keeps the
/// slot of its first assignment. No other statement touches `fnc` or
/// `stack_offset`, and a statement that cannot be lowered leaves everything
/// exactly as it was.
pub fn generate_statement(
    program: &mut VMProgram,
    ast: &Program,
    fnc: &mut FuncMeta,
    stack_offset: &mut usize,
    statement: &Statement,
) -> (result: Result<(), CompileError>)
    requires
        *old(stack_offset) + SLOT_SIZE <= usize::MAX,
    ensures
        final(program).data == old(program).data,
        final(fnc).address == old(fnc).address,
        match statement_code(
            *statement,
            scope_of(*old(program), *old(fnc)),
            *old(stack_offset) as int,
        ) {
            Ok(code) => {
                &&& result is Ok
                &&& final(program).code@ == old(program).code@ + code
                &&& if allocates_local(
                    *statement,
                    old(fnc).symbols@,
                    old(program).data.global_symbols@,
                ) {
                    &&& final(fnc).symbols@ == old(fnc).symbols@.insert(
                        statement->Assignment_0@,
                        SymbolMeta {
                            offset: *old(stack_offset),
                            is_static: false,
                            type_kind: TypeKind::F32,
                        },
                    )
                    &&& *final(stack_offset) == *old(stack_offset) + SLOT_SIZE
                } else {
                    &&& final(fnc).symbols@ == old(fnc).symbols@
                    &&& *final(stack_offset) == *old(stack_offset)
                }
            },
            Err(e) => {
                &&& result == Err::<(), CompileError>(e)
                &&& final(program).code@ == old(program).code@
                &&& final(fnc).symbols@ == old(fnc).symbols@
                &&& *final(stack_offset) == *old(stack_offset)
            },
        },
{
    match statement {
        Statement::Assignment(target, value) => {
            match generate_expr(program, ast, fnc, value) {
                Err(e) => {
                    return Err(e);
                },
                Ok(()) => {},
            }
            match program.data.global_symbols.get(target.as_str()) {
                Some(symbol) => {
                    let offset: usize = symbol.offset;
                    program.code.push(MemoryCell::with_data(OpCode::Mov4Global, immediate(offset)));
                },
                None => {
                    if !fnc.symbols.contains_key(target.as_str()) {
                        fnc.symbols.insert(
                            target.clone(),
                            SymbolMeta {
                                offset: *stack_offset,
                                is_static: false,
                                type_kind: TypeKind::F32,
                            },
                        );
                        *stack_offset += SLOT_SIZE;
                    }
                },
            }
            Ok(())
        },
        Statement::Return(value) => {
            match generate_expr(program, ast, fnc, value) {
                Err(e) => {
                    return Err(e);
                },
                Ok(()) => {},
            }
            program.code.push(MemoryCell::with_data(OpCode::Ret, immediate(*stack_offset)));
            Ok(())
        },
    }
}

/// Compiles one function into `program`.
///
/// The function starts at the end of the instructions that `program`
/// already holds. Its statements are lowered in order; if none of them is a
/// return, the function ends by returning the empty value. The function is
/// then entered in the program's table under its name, with its entry
/// address and its locals. It can call the functions that were in the table
/// before, not itself. When a statement cannot be lowered the program is
/// left exactly as it was.
pub fn generate_function(program: &mut VMProgram, ast: &Program, function: &Function) -> (result:
    Result<(), CompileError>)
    requires
        SLOT_SIZE * function.statements@.len() <= usize::MAX,
    ensures
        final(program).data.global_symbols == old(program).data.global_symbols,
        final(program).data.min_stack_size == old(program).data.min_stack_size,
        final(program).data.static_section_size == old(program).data.static_section_size,
        match function_code(
            *function,
            old(program).data.global_symbols@,
            function_views(old(program).data.functions@),
        ) {
            Ok(code) => {
                &&& result is Ok
                &&& final(program).code@ == old(program).code@ + code
                &&& function_views(final(program).data.functions@) == function_views(
                    old(program).data.functions@,
                ).insert(
                    function.ident@,
                    FuncMetaView {
                        address: old(program).code@.len() as usize,
                        symbols: local_table(
                            function.statements@,
                            old(program).data.global_symbols@,
                        ),
                    },
                )
            },
            Err(e) => {
                &&& result == Err::<(), CompileError>(e)
                &&& final(program).code@ == old(program).code@
                &&& final(program).data == old(program).data
            },
        },
{
    let start: usize = program.code.len();
    let mut func_meta = FuncMeta::new(start);
    let mut seen_return: bool = false;
    let mut stack_offset: usize = 0;
    let ghost globals = program.data.global_symbols@;
    let ghost functions = function_views(program.data.functions@);
    proof {
        lemma_slot_table_empty(false);
    }

    let mut i: usize = 0;
    while i < function.statements.len()
        invariant
            i <= function.statements@.len(),
            SLOT_SIZE * function.statements@.len() <= usize::MAX,
            start == old(program).code@.len(),
            program.data == old(program).data,
            globals == old(program).data.global_symbols@,
            functions == function_views(old(program).data.functions@),
            func_meta.address == start,
            func_meta.symbols@ == local_table(function.statements@.take(i as int), globals),
            stack_offset == frame_size(function.statements@.take(i as int), globals),
            seen_return == has_return(function.statements@.take(i as int)),
            statements_code(function.statements@.take(i as int), globals, functions) matches Ok(
                code,
            ) && program.code@ == old(program).code@ + code,
        decreases function.statements@.len() - i,
    {
        let statement = &function.statements[i];
        proof {
            lemma_statement_step(function.statements@, i as int, globals, functions);
            lemma_local_slots_len(function.statements@.take(i as int), globals);
        }
        match generate_statement(program, ast, &mut func_meta, &mut stack_offset, statement) {
            Err(e) => {
                proof {
                    lemma_statements_error_stays(
                        function.statements@,
                        i + 1,
                        globals,
                        functions,
                    );
                }
                program.code.truncate(start);
                return Err(e);
            },
            Ok(()) => {},
        }
        if let Statement::Return(_) = statement {
            seen_return = true;
        }
        i += 1;
    }
    assert(function.statements@.take(i as int) == function.statements@);
    if !seen_return {
        program.code.push(MemoryCell::plain_inst(OpCode::Void));
        program.code.push(MemoryCell::with_data(OpCode::Ret, immediate(stack_offset)));
    }
    program.data.functions.insert(function.ident.clone(), func_meta);
    Ok(())
}

/// Lays out the static section: every parameter of the program gets the
/// next slot, the inputs in declaration order first, then the outputs.
/// Gives the table of the parameters and the size of the section.
pub fn allocate_globals(ast: &Program) -> (result: (StringHashMap<SymbolMeta>, usize))
    requires
        SLOT_SIZE * ast.parameters().len() <= usize::MAX,
    ensures
        result.0@ == global_table(ast.parameters()),
        result.1 == static_size(*ast),
{
    let mut globals: StringHashMap<SymbolMeta> = StringHashMap::new();
    let mut static_section: usize = 0;
    let ghost params = ast.parameters();
    proof {
        lemma_slot_table_empty(true);
        assert(param_slots(params.take(0)) == Seq::<Slot>::empty());
    }

    let mut i: usize = 0;
    while i < ast.in_parameters.len()
        invariant
            i <= ast.in_parameters@.len(),
            params == ast.in_parameters@ + ast.out_parameters@,
            SLOT_SIZE * params.len() <= usize::MAX,
            static_section == SLOT_SIZE * i,
            globals@ == global_table(params.take(i as int)),
        decreases ast.in_parameters@.len() - i,
    {
        let param = &ast.in_parameters[i];
        proof {
            lemma_param_step(params, i as int);
        }
        globals.insert(
            param.ident.clone(),
            SymbolMeta { offset: static_section, is_static: true, type_kind: param.type_kind },
        );
        static_section += SLOT_SIZE;
        i += 1;
    }

    let inputs: usize = ast.in_parameters.len();
    let mut j: usize = 0;
    while j < ast.out_parameters.len()
        invariant
            j <= ast.out_parameters@.len(),
            inputs == ast.in_parameters@.len(),
            params == ast.in_parameters@ + ast.out_parameters@,
            SLOT_SIZE * params.len() <= usize::MAX,
            static_section == SLOT_SIZE * (inputs + j),
            globals@ == global_table(params.take(inputs + j)),
        decreases ast.out_parameters@.len() - j,
    {
        let param = &ast.out_parameters[j];
        proof {
            lemma_param_step(params, inputs + j);
        }
        globals.insert(
            param.ident.clone(),
            SymbolMeta { offset: static_section, is_static: true, type_kind: param.type_kind },
        );
        static_section += SLOT_SIZE;
        j += 1;
    }
    assert(params.take(inputs + j) == params);
    (globals, static_section)
}

/// Compiles a program.
///
/// The parameters are laid out in the static section, then the functions
/// are compiled in order into one instruction stream. The result holds the
/// stream, the table of the parameters, the table of the functions, the size
/// of the static section and the stack that the machine must provide, which
/// is that size and a fixed margin. The first construct that cannot be
/// lowered fails the compilation as a whole.
pub fn codegen(ast: Program) -> (result: Result<VMProgram, CompileError>)
    requires
        ast.within_limits(),
    ensures
        match compiled(ast) {
            Ok(artifact) => result matches Ok(program) && program@ == artifact,
            Err(e) => result matches Err(error) && error == e,
        },
        result matches Ok(program) ==> {
            &&& program.data.static_section_size == SLOT_SIZE * (ast.in_parameters@.len()
                + ast.out_parameters@.len())
            &&& program.data.min_stack_size == program.data.static_section_size + STACK_MARGIN
        },
{
    let mut program = VMProgram::new();
    let (globals, static_section) = allocate_globals(&ast);
    program.data.global_symbols = globals;
    let ghost table = global_table(ast.parameters());

    let mut i: usize = 0;
    while i < ast.functions.len()
        invariant
            i <= ast.functions@.len(),
            ast.within_limits(),
            table == global_table(ast.parameters()),
            program.data.global_symbols@ == table,
            functions_unit(ast.functions@.take(i as int), table) == Ok::<Unit, CompileError>(
                Unit { code: program.code@, functions: function_views(program.data.functions@) },
            ),
        decreases ast.functions@.len() - i,
    {
        proof {
            lemma_function_step(ast.functions@, i as int, table);
        }
        match generate_function(&mut program, &ast, &ast.functions[i]) {
            Err(e) => {
                proof {
                    lemma_functions_error_stays(ast.functions@, i + 1, table);
                }
                return Err(e);
            },
            Ok(()) => {},
        }
        i += 1;
    }
    assert(ast.functions@.take(i as int) == ast.functions@);
    program.data.static_section_size = static_section;
    program.data.min_stack_size = static_section + STACK_MARGIN;
    Ok(program)
}

/// Compiles a program that went through constant folding.
///
/// `folded` is what the folding pass made of the program. If the pass
/// failed, its error is handed on and no code is generated; otherwise the
/// folded program is compiled as [`codegen`] does.
pub fn compile(folded: Result<Program, FoldingError>) -> (result: Result<VMProgram, CompileError>)
    requires
        folded matches Ok(ast) ==> ast.within_limits(),
    ensures
        match folded {
            Err(e) => result matches Err(error) && error == CompileError::Folding(e),
            Ok(ast) => match compiled(ast) {
                Ok(artifact) => result matches Ok(program) && program@ == artifact,
                Err(e) => result matches Err(error) && error == e,
            },
        },
        result matches Ok(program) ==> program.data.min_stack_size
            == program.data.static_section_size + STACK_MARGIN,
{
    match folded {
        Err(e) => Err(CompileError::Folding(e)),
        Ok(ast) => codegen(ast),
    }
}

} // verus!
