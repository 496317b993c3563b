//! What holds of every compiled program.

use vstd::prelude::*;
use crate::ast::BinaryOperator;
use crate::ast::Expr;
use crate::ast::Function;
use crate::ast::Program;
use crate::ast::Statement;
use crate::ast::TypeKind;
use crate::ast::SLOT_SIZE;
use crate::cell::MemoryCell;
use crate::error::CompileError;
use crate::layout::allocates_at;
use crate::layout::allocates_local;
use crate::layout::lemma_slot_table_push;
use crate::layout::assigns;
use crate::layout::frame_size;
use crate::layout::global_table;
use crate::layout::last_slot;
use crate::layout::lemma_last_slot;
use crate::layout::lemma_local_slots_len;
use crate::layout::local_slot;
use crate::layout::local_slots;
use crate::layout::local_table;
use crate::layout::param_slots;
use crate::layout::slot_table;
use crate::layout::Slot;
use crate::lowering::compiled;
use crate::lowering::expr_code;
use crate::lowering::function_code;
use crate::lowering::functions_unit;
use crate::lowering::has_return;
use crate::lowering::immediate_of;
use crate::lowering::lemma_function_step;
use crate::lowering::lemma_functions_error_stays;
use crate::lowering::lemma_statement_step;
use crate::lowering::lemma_statements_error_stays;
use crate::lowering::statement_code;
use crate::lowering::statements_code;
use crate::lowering::static_size;
use crate::lowering::Scope;
use crate::opcode::OpCode;
use crate::symbols::FuncMetaView;
use crate::symbols::FunctionTable;
use crate::symbols::SymbolMeta;
use crate::symbols::SymbolTable;
use crate::symbols::VMProgramView;

verus! {

/// An allocation that is not followed by another for the same name is where
/// the table finds the name: in the slot numbered like the allocation.
pub proof fn lemma_slot_of_last_allocation(slots: Seq<Slot>, index: int, is_static: bool)
    requires
        0 <= index < slots.len(),
        forall|later: int| index < later < slots.len() ==> slots[later].name != slots[index].name,
    ensures
        slot_table(slots, is_static).contains_key(slots[index].name),
        slot_table(slots, is_static)[slots[index].name] == (SymbolMeta {
            offset: (SLOT_SIZE * index) as usize,
            is_static,
            type_kind: slots[index].type_kind,
        }),
{
    lemma_last_slot(slots, slots[index].name);
}

/// Parameters take the static section in declaration order, the inputs
/// first: the input declared at `index` lies at offset `4 * index`. This
/// holds of every input whose name no later parameter declares again; of two
/// parameters with one name the later takes the name.
pub proof fn lemma_input_offset(program: Program, index: int)
    requires
        program.within_limits(),
        0 <= index < program.in_parameters@.len(),
        forall|later: int|
            index < later < program.parameters().len() ==> program.parameters()[later].ident@
                != program.in_parameters@[index].ident@,
    ensures
        global_table(program.parameters()).contains_key(program.in_parameters@[index].ident@),
        global_table(program.parameters())[program.in_parameters@[index].ident@] == (SymbolMeta {
            offset: (4 * index) as usize,
            is_static: true,
            type_kind: program.in_parameters@[index].type_kind,
        }),
        4 * index + 4 <= static_size(program) <= usize::MAX,
{
    let slots = param_slots(program.parameters());
    assert(program.parameters()[index] == program.in_parameters@[index]);
    lemma_slot_of_last_allocation(slots, index, true);
}

/// The outputs follow the inputs: with `n` inputs, the output declared at
/// `index` lies at offset `4 * (n + index)`. This holds of every output
/// whose name no later output declares again.
pub proof fn lemma_output_offset(program: Program, index: int)
    requires
        program.within_limits(),
        0 <= index < program.out_parameters@.len(),
        forall|later: int|
            index < later < program.out_parameters@.len() ==> program.out_parameters@[later].ident@
                != program.out_parameters@[index].ident@,
    ensures
        global_table(program.parameters()).contains_key(program.out_parameters@[index].ident@),
        global_table(program.parameters())[program.out_parameters@[index].ident@] == (SymbolMeta {
            offset: (4 * (program.in_parameters@.len() + index)) as usize,
            is_static: true,
            type_kind: program.out_parameters@[index].type_kind,
        }),
        4 * (program.in_parameters@.len() + index) + 4 <= static_size(program) <= usize::MAX,
{
    let slots = param_slots(program.parameters());
    let inputs = program.in_parameters@.len() as int;
    assert(program.parameters()[inputs + index] == program.out_parameters@[index]);
    assert forall|later: int| inputs + index < later < slots.len() implies (
    #[trigger] slots[later]).name != slots[inputs + index].name by {
        assert(program.parameters()[later] == program.out_parameters@[later - inputs]);
    }
    lemma_slot_of_last_allocation(slots, inputs + index, true);
}

/// A compiled program reports a static section of four bytes per parameter,
/// and asks for a stack of that size and 1024 more.
pub proof fn lemma_sizes(program: Program)
    requires
        program.within_limits(),
    ensures
        compiled(program) matches Ok(artifact) ==> {
            &&& artifact.data.static_section_size == 4 * (program.in_parameters@.len()
                + program.out_parameters@.len())
            &&& artifact.data.min_stack_size == artifact.data.static_section_size + 1024
            &&& artifact.data.global_symbols == global_table(program.parameters())
        },
{
}

/// Where the statement at `index` puts the local it allocates: at the size
/// that the frame has when the statement is reached.
pub open spec fn local_offset(statements: Seq<Statement>, globals: SymbolTable, index: int) -> int {
    frame_size(statements.take(index), globals)
}

/// A statement allocates a local exactly where a name that is no parameter
/// is assigned for the first time.
pub proof fn lemma_first_assignment(statements: Seq<Statement>, globals: SymbolTable, index: int)
    requires
        0 <= index < statements.len(),
    ensures
        allocates_at(statements, globals, index) <==> {
            &&& statements[index] is Assignment
            &&& !globals.contains_key(statements[index]->Assignment_0@)
            &&& forall|earlier: int|
                0 <= earlier < index ==> !assigns(
                    #[trigger] statements[earlier],
                    statements[index]->Assignment_0@,
                )
        },
{
    if statements[index] is Assignment && !globals.contains_key(statements[index]->Assignment_0@) {
        let name = statements[index]->Assignment_0@;
        let before = statements.take(index);
        if forall|earlier: int| 0 <= earlier < index ==> !assigns(#[trigger] statements[earlier], name) {
            assert forall|i: int| 0 <= i < before.len() implies !assigns(#[trigger] before[i], name) by {
                assert(before[i] == statements[i]);
            }
            lemma_never_assigned(before, globals, name);
        } else {
            let earlier = choose|earlier: int|
                0 <= earlier < index && assigns(#[trigger] statements[earlier], name);
            assert(before[earlier] == statements[earlier]);
            lemma_assigned_is_local(before, globals, name, earlier);
        }
    }
}

/// A name that no statement assigns is no local.
pub proof fn lemma_never_assigned(statements: Seq<Statement>, globals: SymbolTable, name: Seq<char>)
    requires
        forall|i: int| 0 <= i < statements.len() ==> !assigns(#[trigger] statements[i], name),
    ensures
        !local_table(statements, globals).contains_key(name),
    decreases statements.len(),
{
    if statements.len() > 0 {
        let before = statements.drop_last();
        assert forall|i: int| 0 <= i < before.len() implies !assigns(#[trigger] before[i], name) by {
            assert(before[i] == statements[i]);
        }
        lemma_never_assigned(before, globals, name);
        assert(!assigns(statements[statements.len() - 1], name));
        let slots = local_slots(before, globals);
        if allocates_local(statements.last(), slot_table(slots, false), globals) {
            assert(slots.push(local_slot(statements.last())).drop_last() == slots);
        }
    }
}

/// A name that is no parameter and that some statement assigns is a local.
pub proof fn lemma_assigned_is_local(
    statements: Seq<Statement>,
    globals: SymbolTable,
    name: Seq<char>,
    index: int,
)
    requires
        0 <= index < statements.len(),
        assigns(statements[index], name),
        !globals.contains_key(name),
    ensures
        local_table(statements, globals).contains_key(name),
    decreases statements.len(),
{
    let before = statements.drop_last();
    let slots = local_slots(before, globals);
    if index < statements.len() - 1 {
        assert(before[index] == statements[index]);
        lemma_assigned_is_local(before, globals, name, index);
    }
    if allocates_local(statements.last(), slot_table(slots, false), globals) {
        lemma_slot_table_push(slots, local_slot(statements.last()), false);
    }
}

/// A local keeps its slot: what the table holds for a name after the first
/// `count` statements, it holds after all of them.
pub proof fn lemma_local_stays(
    statements: Seq<Statement>,
    globals: SymbolTable,
    count: int,
    name: Seq<char>,
)
    requires
        0 <= count <= statements.len(),
        local_table(statements.take(count), globals).contains_key(name),
    ensures
        local_table(statements, globals).contains_key(name),
        local_table(statements, globals)[name] == local_table(statements.take(count), globals)[name],
    decreases statements.len() - count,
{
    if count == statements.len() {
        assert(statements.take(count) == statements);
    } else {
        lemma_statement_step(statements, count, globals, FunctionTable::empty());
        lemma_local_stays(statements, globals, count + 1, name);
    }
}

/// The statement at `index` allocates a local: it binds the assigned name to
/// [`local_offset`], in the frame and not in the static section, the name is
/// no parameter, and the binding is that of the function's final table.
pub proof fn lemma_local_binding(statements: Seq<Statement>, globals: SymbolTable, index: int)
    requires
        SLOT_SIZE * statements.len() <= usize::MAX,
        0 <= index < statements.len(),
        allocates_at(statements, globals, index),
    ensures
        !globals.contains_key(statements[index]->Assignment_0@),
        local_table(statements, globals).contains_key(statements[index]->Assignment_0@),
        local_table(statements, globals)[statements[index]->Assignment_0@] == (SymbolMeta {
            offset: local_offset(statements, globals, index) as usize,
            is_static: false,
            type_kind: TypeKind::F32,
        }),
        0 <= local_offset(statements, globals, index) <= usize::MAX - 4,
{
    lemma_statement_step(statements, index, globals, FunctionTable::empty());
    lemma_local_slots_len(statements.take(index), globals);
    lemma_local_stays(statements, globals, index + 1, statements[index]->Assignment_0@);
}

/// The first local of a function lies at offset 0: a statement that
/// allocates, after statements that do not, allocates at 0.
pub proof fn lemma_first_local(statements: Seq<Statement>, globals: SymbolTable, index: int)
    requires
        0 <= index < statements.len(),
        allocates_at(statements, globals, index),
        forall|earlier: int| 0 <= earlier < index ==> !allocates_at(statements, globals, earlier),
    ensures
        local_offset(statements, globals, index) == 0,
{
    if index > 0 {
        lemma_frame_unchanged(statements, globals, 0, index);
    }
    assert(statements.take(0) == Seq::<Statement>::empty());
}

/// Statements that allocate nothing leave the frame as it is: assignments to
/// parameters, assignments to names that are locals already, and returns.
pub proof fn lemma_frame_unchanged(
    statements: Seq<Statement>,
    globals: SymbolTable,
    from: int,
    to: int,
)
    requires
        0 <= from <= to <= statements.len(),
        forall|between: int| from <= between < to ==> !allocates_at(statements, globals, between),
    ensures
        frame_size(statements.take(to), globals) == frame_size(statements.take(from), globals),
        local_table(statements.take(to), globals) == local_table(statements.take(from), globals),
    decreases to - from,
{
    if from < to {
        lemma_frame_unchanged(statements, globals, from, to - 1);
        lemma_statement_step(statements, to - 1, globals, FunctionTable::empty());
        assert(!allocates_at(statements, globals, to - 1));
    }
}

/// Each further local lies four bytes after the one before it: if the
/// statements at `previous` and at `next` allocate and none between them
/// does, the second local's offset is the first's and 4.
pub proof fn lemma_next_local(
    statements: Seq<Statement>,
    globals: SymbolTable,
    previous: int,
    next: int,
)
    requires
        0 <= previous < next < statements.len(),
        allocates_at(statements, globals, previous),
        allocates_at(statements, globals, next),
        forall|between: int|
            previous < between < next ==> !allocates_at(statements, globals, between),
    ensures
        local_offset(statements, globals, next) == local_offset(statements, globals, previous) + 4,
{
    lemma_statement_step(statements, previous, globals, FunctionTable::empty());
    lemma_frame_unchanged(statements, globals, previous + 1, next);
}

/// No name is allocated twice, and every allocation of a function is for a
/// name that is no parameter.
pub proof fn lemma_local_slots_distinct(statements: Seq<Statement>, globals: SymbolTable)
    ensures
        forall|i: int, j: int|
            0 <= i < j < local_slots(statements, globals).len() ==> (#[trigger] local_slots(
                statements,
                globals,
            )[i]).name != (#[trigger] local_slots(statements, globals)[j]).name,
        forall|i: int|
            0 <= i < local_slots(statements, globals).len() ==> !globals.contains_key(
                (#[trigger] local_slots(statements, globals)[i]).name,
            ),
    decreases statements.len(),
{
    if statements.len() > 0 {
        let before = local_slots(statements.drop_last(), globals);
        lemma_local_slots_distinct(statements.drop_last(), globals);
        if allocates_local(statements.last(), slot_table(before, false), globals) {
            let slot = local_slot(statements.last());
            lemma_last_slot(before, slot.name);
            let slots = before.push(slot);
            assert forall|i: int, j: int| 0 <= i < j < slots.len() implies (#[trigger] slots[i]).name
                != (#[trigger] slots[j]).name by {
                assert(slots[i] == before[i]);
                if j < before.len() {
                    assert(slots[j] == before[j]);
                }
            }
            assert forall|i: int| 0 <= i < slots.len() implies !globals.contains_key(
                (#[trigger] slots[i]).name,
            ) by {
                if i < before.len() {
                    assert(slots[i] == before[i]);
                }
            }
        }
    }
}

/// The locals of a function lie at 0, 4, 8, ... in the order in which they
/// are first assigned: the local of the allocation numbered `number` lies at
/// four times that number, in the frame.
pub proof fn lemma_local_offsets(statements: Seq<Statement>, globals: SymbolTable, number: int)
    requires
        SLOT_SIZE * statements.len() <= usize::MAX,
        0 <= number < local_slots(statements, globals).len(),
    ensures
        local_table(statements, globals).contains_key(local_slots(statements, globals)[number].name),
        local_table(statements, globals)[local_slots(statements, globals)[number].name] == (
        SymbolMeta { offset: (4 * number) as usize, is_static: false, type_kind: TypeKind::F32 }),
        4 * number + 4 <= frame_size(statements, globals) <= usize::MAX,
{
    lemma_local_slots_distinct(statements, globals);
    lemma_local_slots_len(statements, globals);
    lemma_local_slots_scalar(statements, globals, number);
    lemma_slot_of_last_allocation(local_slots(statements, globals), number, false);
}

/// Every local is a scalar.
pub proof fn lemma_local_slots_scalar(statements: Seq<Statement>, globals: SymbolTable, number: int)
    requires
        0 <= number < local_slots(statements, globals).len(),
    ensures
        local_slots(statements, globals)[number].type_kind == TypeKind::F32,
    decreases statements.len(),
{
    if statements.len() > 0 {
        let before = local_slots(statements.drop_last(), globals);
        if number < before.len() {
            lemma_local_slots_scalar(statements.drop_last(), globals, number);
        }
    }
}

/// The table of a function's locals holds one entry for each allocation and
/// no other, so the frame is four bytes for each local.
pub proof fn lemma_local_count(statements: Seq<Statement>, globals: SymbolTable)
    ensures
        local_table(statements, globals).dom().finite(),
        local_table(statements, globals).len() == local_slots(statements, globals).len(),
        frame_size(statements, globals) == 4 * local_table(statements, globals).len(),
    decreases statements.len(),
{
    if statements.len() == 0 {
        assert(local_table(statements, globals) =~= SymbolTable::empty());
    } else {
        let before = local_slots(statements.drop_last(), globals);
        lemma_local_count(statements.drop_last(), globals);
        if allocates_local(statements.last(), slot_table(before, false), globals) {
            lemma_slot_table_push(before, local_slot(statements.last()), false);
        }
    }
}

/// Locals and parameters never share storage, whatever their offsets: a
/// local's name is no parameter's, every local lies in the frame, and every
/// parameter in the static section.
pub proof fn lemma_locals_apart_from_globals(program: Program, statements: Seq<Statement>)
    ensures
        forall|name: Seq<char>| #[trigger]
            local_table(statements, global_table(program.parameters())).contains_key(name) ==> {
                &&& !global_table(program.parameters()).contains_key(name)
                &&& !local_table(statements, global_table(program.parameters()))[name].is_static
            },
        forall|name: Seq<char>| #[trigger]
            global_table(program.parameters()).contains_key(name) ==> global_table(
                program.parameters(),
            )[name].is_static,
{
    let globals = global_table(program.parameters());
    lemma_local_slots_distinct(statements, globals);
    assert forall|name: Seq<char>| #[trigger]
        local_table(statements, globals).contains_key(name) implies !globals.contains_key(name) by {
        let slots = local_slots(statements, globals);
        lemma_last_slot(slots, name);
        assert(slots[last_slot(slots, name)].name == name);
    }
}

/// A function without a return statement ends with an implicit return: after
/// the instructions of its statements it pushes the empty value and returns,
/// and the return's immediate is the size of all its locals. A function with
/// no statements at all is nothing but these two instructions.
pub proof fn lemma_implicit_return(
    function: Function,
    globals: SymbolTable,
    functions: FunctionTable,
)
    requires
        !has_return(function.statements@),
    ensures
        match statements_code(function.statements@, globals, functions) {
            Ok(body) => function_code(function, globals, functions) == Ok::<
                Seq<MemoryCell>,
                CompileError,
            >(
                body + seq![
                    MemoryCell::instruction(OpCode::Void, 0),
                    MemoryCell::instruction(
                        OpCode::Ret,
                        immediate_of(frame_size(function.statements@, globals)),
                    ),
                ],
            ),
            Err(e) => function_code(function, globals, functions) == Err::<
                Seq<MemoryCell>,
                CompileError,
            >(e),
        },
        function.statements@.len() == 0 ==> function_code(function, globals, functions) == Ok::<
            Seq<MemoryCell>,
            CompileError,
        >(
            seq![
                MemoryCell::instruction(OpCode::Void, 0),
                MemoryCell::instruction(OpCode::Ret, 0),
            ],
        ),
{
    if function.statements@.len() == 0 {
        assert(function_code(function, globals, functions).unwrap() =~= seq![
            MemoryCell::instruction(OpCode::Void, 0),
            MemoryCell::instruction(OpCode::Ret, 0),
        ]);
    }
}

/// A function with a return statement gets no implicit return: its code is
/// the code of its statements.
pub proof fn lemma_explicit_return(
    function: Function,
    globals: SymbolTable,
    functions: FunctionTable,
)
    requires
        has_return(function.statements@),
    ensures
        function_code(function, globals, functions) == statements_code(
            function.statements@,
            globals,
            functions,
        ),
{
}

/// A reference to a name that is neither a local nor a parameter cannot be
/// lowered, and the error names it.
pub proof fn lemma_unresolved_symbol(name: String, scope: Scope, frame: int)
    requires
        !scope.locals.contains_key(name@),
        !scope.globals.contains_key(name@),
    ensures
        expr_code(Expr::Symbol(name), scope) == Err::<Seq<MemoryCell>, CompileError>(
            CompileError::UnresolvedSymbol(name),
        ),
        statement_code(Statement::Return(Expr::Symbol(name)), scope, frame) == Err::<
            Seq<MemoryCell>,
            CompileError,
        >(CompileError::UnresolvedSymbol(name)),
{
}

/// A function that returns a name which is no parameter and which no
/// statement before the return assigns fails to compile, with the error that
/// names it, provided that the statements before the return can be lowered.
pub proof fn lemma_unresolved_return(
    function: Function,
    index: int,
    name: String,
    globals: SymbolTable,
    functions: FunctionTable,
)
    requires
        0 <= index < function.statements@.len(),
        function.statements@[index] == Statement::Return(Expr::Symbol(name)),
        statements_code(function.statements@.take(index), globals, functions) is Ok,
        !globals.contains_key(name@),
        forall|earlier: int|
            0 <= earlier < index ==> !assigns(#[trigger] function.statements@[earlier], name@),
    ensures
        function_code(function, globals, functions) == Err::<Seq<MemoryCell>, CompileError>(
            CompileError::UnresolvedSymbol(name),
        ),
{
    let statements = function.statements@;
    lemma_never_assigned(statements.take(index), globals, name@);
    lemma_statement_step(statements, index, globals, functions);
    lemma_statements_error_stays(statements, index + 1, globals, functions);
}

/// A program fails with the error that names the symbol when one of its
/// functions returns a name that is no parameter and that the function has
/// not assigned before, provided that everything before that return can be
/// lowered: the functions before it, and the statements before it.
pub proof fn lemma_unresolved_in_program(program: Program, index: int, at: int, name: String)
    requires
        0 <= index < program.functions@.len(),
        0 <= at < program.functions@[index].statements@.len(),
        program.functions@[index].statements@[at] == Statement::Return(Expr::Symbol(name)),
        !global_table(program.parameters()).contains_key(name@),
        forall|earlier: int|
            0 <= earlier < at ==> !assigns(
                #[trigger] program.functions@[index].statements@[earlier],
                name@,
            ),
        functions_unit(program.functions@.take(index), global_table(program.parameters())) is Ok,
        statements_code(
            program.functions@[index].statements@.take(at),
            global_table(program.parameters()),
            functions_unit(
                program.functions@.take(index),
                global_table(program.parameters()),
            ).unwrap().functions,
        ) is Ok,
    ensures
        compiled(program) == Err::<VMProgramView, CompileError>(
            CompileError::UnresolvedSymbol(name),
        ),
{
    let globals = global_table(program.parameters());
    let before = functions_unit(program.functions@.take(index), globals).unwrap();
    lemma_unresolved_return(program.functions@[index], at, name, globals, before.functions);
    lemma_function_step(program.functions@, index, globals);
    lemma_functions_error_stays(program.functions@, index + 1, globals);
}

/// Operands come before their operator, the left one first: the code of a
/// binary operation is the code of its left operand, then that of its right
/// operand, then the one instruction of the operator.
pub proof fn lemma_operands_before_operator(
    op: BinaryOperator,
    left: Expr,
    right: Expr,
    scope: Scope,
)
    ensures
        match (expr_code(left, scope), expr_code(right, scope)) {
            (Ok(left_code), Ok(right_code)) => expr_code(
                Expr::BinaryOp(op, Box::new(left), Box::new(right)),
                scope,
            ) == Ok::<Seq<MemoryCell>, CompileError>(
                left_code + right_code + seq![
                    MemoryCell::instruction(
                        match op {
                            BinaryOperator::Add => OpCode::AddF32,
                            BinaryOperator::Sub => OpCode::SubF32,
                            BinaryOperator::Mul => OpCode::MulF32,
                            BinaryOperator::Div => OpCode::DivF32,
                        },
                        0,
                    ),
                ],
            ),
            (Err(e), _) => expr_code(Expr::BinaryOp(op, Box::new(left), Box::new(right)), scope)
                == Err::<Seq<MemoryCell>, CompileError>(e),
            (Ok(_), Err(e)) => expr_code(
                Expr::BinaryOp(op, Box::new(left), Box::new(right)),
                scope,
            ) == Err::<Seq<MemoryCell>, CompileError>(e),
        },
{
}

/// The instruction stream holds the functions one after another, in order:
/// the code of each function lies right after the code of all those before
/// it, whatever the functions are called.
pub proof fn lemma_function_placement(functions: Seq<Function>, globals: SymbolTable, index: int)
    requires
        0 <= index < functions.len(),
        functions_unit(functions, globals) is Ok,
    ensures
        functions_unit(functions.take(index), globals) is Ok,
        function_code(
            functions[index],
            globals,
            functions_unit(functions.take(index), globals).unwrap().functions,
        ) is Ok,
        ({
            let before = functions_unit(functions.take(index), globals).unwrap();
            let own = function_code(functions[index], globals, before.functions).unwrap();
            let whole = functions_unit(functions, globals).unwrap();
            &&& before.code.len() + own.len() <= whole.code.len()
            &&& whole.code.subrange(0, before.code.len() as int) == before.code
            &&& whole.code.subrange(
                before.code.len() as int,
                (before.code.len() + own.len()) as int,
            ) == own
        }),
    decreases functions.len() - index,
{
    let last = functions.len() - 1;
    if index == last {
        lemma_function_step(functions, index, globals);
        assert(functions.take(index + 1) == functions);
        let before = functions_unit(functions.take(index), globals).unwrap();
        let own = function_code(functions[index], globals, before.functions).unwrap();
        let whole = functions_unit(functions, globals).unwrap();
        assert(whole.code.subrange(0, before.code.len() as int) =~= before.code);
        assert(whole.code.subrange(before.code.len() as int, (before.code.len() + own.len()) as int)
            =~= own);
    } else {
        let shorter = functions.drop_last();
        assert(shorter.take(index) == functions.take(index));
        assert(shorter[index] == functions[index]);
        lemma_function_placement(shorter, globals, index);
        let before = functions_unit(functions.take(index), globals).unwrap();
        let own = function_code(functions[index], globals, before.functions).unwrap();
        let part = functions_unit(shorter, globals).unwrap();
        let whole = functions_unit(functions, globals).unwrap();
        assert(whole.code.subrange(0, before.code.len() as int) =~= part.code.subrange(
            0,
            before.code.len() as int,
        ));
        assert(whole.code.subrange(before.code.len() as int, (before.code.len() + own.len()) as int)
            =~= part.code.subrange(
            before.code.len() as int,
            (before.code.len() + own.len()) as int,
        ));
    }
}

/// The table knows a function by its entry address and its locals: the
/// address is the number of instructions that the functions before it
/// produced, where [`lemma_function_placement`] finds its code. This holds of
/// every function whose name no later function takes.
pub proof fn lemma_function_entry(functions: Seq<Function>, globals: SymbolTable, index: int)
    requires
        0 <= index < functions.len(),
        functions_unit(functions, globals) is Ok,
        forall|later: int|
            index < later < functions.len() ==> (#[trigger] functions[later]).ident@
                != functions[index].ident@,
    ensures
        functions_unit(functions.take(index), globals) is Ok,
        functions_unit(functions, globals).unwrap().functions.contains_key(functions[index].ident@),
        functions_unit(functions, globals).unwrap().functions[functions[index].ident@] == (
        FuncMetaView {
            address: functions_unit(functions.take(index), globals).unwrap().code.len() as usize,
            symbols: local_table(functions[index].statements@, globals),
        }),
    decreases functions.len() - index,
{
    let last = functions.len() - 1;
    if index == last {
        lemma_function_step(functions, index, globals);
        assert(functions.take(index + 1) == functions);
    } else {
        let shorter = functions.drop_last();
        assert(functions[last] == functions.last());
        assert(shorter.take(index) == functions.take(index));
        assert(shorter[index] == functions[index]);
        assert forall|later: int| index < later < shorter.len() implies (
        #[trigger] shorter[later]).ident@ != shorter[index].ident@ by {
            assert(shorter[later] == functions[later]);
        }
        lemma_function_entry(shorter, globals, index);
    }
}

/// In a compiled program, a function without a return statement ends with
/// the implicit return: the last two instructions of its stretch of the
/// stream push the empty value and return, reclaiming all its locals.
pub proof fn lemma_implicit_return_in_stream(program: Program, index: int)
    requires
        0 <= index < program.functions@.len(),
        compiled(program) is Ok,
        !has_return(program.functions@[index].statements@),
    ensures
        ({
            let globals = global_table(program.parameters());
            let function = program.functions@[index];
            let before = functions_unit(program.functions@.take(index), globals).unwrap();
            let own = function_code(function, globals, before.functions).unwrap();
            let end = before.code.len() + own.len();
            let code = compiled(program).unwrap().code;
            &&& 2 <= own.len()
            &&& end <= code.len()
            &&& code[end - 2] == MemoryCell::instruction(OpCode::Void, 0)
            &&& code[end - 1] == MemoryCell::instruction(
                OpCode::Ret,
                immediate_of(frame_size(function.statements@, globals)),
            )
        }),
{
    let globals = global_table(program.parameters());
    let function = program.functions@[index];
    lemma_function_placement(program.functions@, globals, index);
    let before = functions_unit(program.functions@.take(index), globals).unwrap();
    let own = function_code(function, globals, before.functions).unwrap();
    let end = before.code.len() + own.len();
    let code = compiled(program).unwrap().code;
    let stretch = code.subrange(before.code.len() as int, end as int);
    assert(stretch[own.len() - 2] == code[end - 2]);
    assert(stretch[own.len() - 1] == code[end - 1]);
}

/// In a compiled program, a function's locals lie at 0, 4, 8, ... in the
/// order in which they are first assigned, whatever offsets the parameters
/// have and whatever the functions before it allocated; the function's table
/// holds these locals and nothing else. This holds of every function whose
/// name no later function takes.
pub proof fn lemma_compiled_locals(program: Program, index: int)
    requires
        program.within_limits(),
        0 <= index < program.functions@.len(),
        compiled(program) is Ok,
        forall|later: int|
            index < later < program.functions@.len() ==> (#[trigger] program.functions@[later]).ident@
                != program.functions@[index].ident@,
    ensures
        ({
            let globals = global_table(program.parameters());
            let function = program.functions@[index];
            let slots = local_slots(function.statements@, globals);
            let table = compiled(program).unwrap().data.functions;
            &&& table.contains_key(function.ident@)
            &&& table[function.ident@].symbols.dom().finite()
            &&& table[function.ident@].symbols.len() == slots.len()
            &&& forall|number: int|
                0 <= number < slots.len() ==> {
                    &&& table[function.ident@].symbols.contains_key((#[trigger] slots[number]).name)
                    &&& table[function.ident@].symbols[slots[number].name] == (SymbolMeta {
                        offset: (4 * number) as usize,
                        is_static: false,
                        type_kind: TypeKind::F32,
                    })
                    &&& 4 * number <= usize::MAX
                    &&& !globals.contains_key(slots[number].name)
                }
        }),
{
    let globals = global_table(program.parameters());
    let function = program.functions@[index];
    let slots = local_slots(function.statements@, globals);
    lemma_function_entry(program.functions@, globals, index);
    lemma_local_count(function.statements@, globals);
    lemma_local_slots_distinct(function.statements@, globals);
    assert forall|number: int| 0 <= number < slots.len() implies {
        &&& local_table(function.statements@, globals).contains_key((#[trigger] slots[number]).name)
        &&& local_table(function.statements@, globals)[slots[number].name] == (SymbolMeta {
            offset: (4 * number) as usize,
            is_static: false,
            type_kind: TypeKind::F32,
        })
        &&& 4 * number <= usize::MAX
    } by {
        lemma_local_offsets(function.statements@, globals, number);
    }
}

} // verus!
