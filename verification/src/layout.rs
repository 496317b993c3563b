//! How names are given storage.
//!
//! Storage is handed out in slots of [`SLOT_SIZE`] bytes, one per allocation,
//! in the order in which the names come. The program's parameters take their
//! slots in the static section, inputs before outputs. Within a function, a
//! name that is no parameter takes the next slot of the frame the first time
//! it is assigned, and keeps that slot: a later assignment to it allocates
//! nothing.

use vstd::prelude::*;
use crate::ast::ParamDecl;
use crate::ast::Statement;
use crate::ast::TypeKind;
use crate::ast::SLOT_SIZE;
use crate::symbols::SymbolMeta;
use crate::symbols::SymbolTable;

verus! {

/// One allocation: the name that receives a slot, and its type.
pub struct Slot {
    pub name: Seq<char>,
    pub type_kind: TypeKind,
}

/// Index of the last allocation in `slots` made for `name`, or -1 if there
/// is none.
pub open spec fn last_slot(slots: Seq<Slot>, name: Seq<char>) -> int
    decreases slots.len(),
{
    if slots.len() == 0 {
        -1
    } else if slots.last().name == name {
        slots.len() - 1
    } else {
        last_slot(slots.drop_last(), name)
    }
}

/// The storage of the `index`-th allocation.
pub open spec fn slot_meta(slots: Seq<Slot>, index: int, is_static: bool) -> SymbolMeta {
    SymbolMeta {
        offset: (SLOT_SIZE * index) as usize,
        is_static,
        type_kind: slots[index].type_kind,
    }
}

/// The table that results from the allocations `slots`: each allocated name
/// is bound to the storage of its last allocation.
pub open spec fn slot_table(slots: Seq<Slot>, is_static: bool) -> SymbolTable {
    Map::new(
        |name: Seq<char>| last_slot(slots, name) >= 0,
        |name: Seq<char>| slot_meta(slots, last_slot(slots, name), is_static),
    )
}

/// Bytes taken by the allocations `slots`.
pub open spec fn slots_size(slots: Seq<Slot>) -> int {
    SLOT_SIZE * slots.len()
}

/// The allocation that a parameter declaration asks for.
pub open spec fn param_slot(param: ParamDecl) -> Slot {
    Slot { name: param.ident@, type_kind: param.type_kind }
}

/// The allocations of a parameter list, in declaration order.
pub open spec fn param_slots(params: Seq<ParamDecl>) -> Seq<Slot> {
    Seq::new(params.len(), |i: int| param_slot(params[i]))
}

/// The table of the program's parameters.
pub open spec fn global_table(params: Seq<ParamDecl>) -> SymbolTable {
    slot_table(param_slots(params), true)
}

/// Whether a statement assigns to `name`.
pub open spec fn assigns(statement: Statement, name: Seq<char>) -> bool {
    statement matches Statement::Assignment(target, _) && target@ == name
}

/// Whether a statement allocates a local: it assigns to a name that is
/// neither a parameter nor, so far, a local.
pub open spec fn allocates_local(
    statement: Statement,
    locals: SymbolTable,
    globals: SymbolTable,
) -> bool {
    statement matches Statement::Assignment(target, _) && !globals.contains_key(target@)
        && !locals.contains_key(target@)
}

/// The allocation that a statement makes, given that it makes one. A local
/// is always a scalar.
pub open spec fn local_slot(statement: Statement) -> Slot {
    Slot { name: statement->Assignment_0@, type_kind: TypeKind::F32 }
}

/// The allocations that the statements make, in statement order: one for
/// each name that is no parameter, where it is first assigned.
pub open spec fn local_slots(statements: Seq<Statement>, globals: SymbolTable) -> Seq<Slot>
    decreases statements.len(),
{
    if statements.len() == 0 {
        Seq::empty()
    } else {
        let before = local_slots(statements.drop_last(), globals);
        if allocates_local(statements.last(), slot_table(before, false), globals) {
            before.push(local_slot(statements.last()))
        } else {
            before
        }
    }
}

/// The table of a function's locals once `statements` have run.
pub open spec fn local_table(statements: Seq<Statement>, globals: SymbolTable) -> SymbolTable {
    slot_table(local_slots(statements, globals), false)
}

/// Bytes of frame that `statements` take.
pub open spec fn frame_size(statements: Seq<Statement>, globals: SymbolTable) -> int {
    slots_size(local_slots(statements, globals))
}

/// Whether the statement at `index` allocates a local, given the locals that
/// the statements before it allocated.
pub open spec fn allocates_at(statements: Seq<Statement>, globals: SymbolTable, index: int) -> bool {
    allocates_local(statements[index], local_table(statements.take(index), globals), globals)
}

/// The last allocation for a name, where there is one, is an allocation for
/// that name, and none comes after it.
pub proof fn lemma_last_slot(slots: Seq<Slot>, name: Seq<char>)
    ensures
        -1 <= last_slot(slots, name) < slots.len(),
        last_slot(slots, name) >= 0 ==> slots[last_slot(slots, name)].name == name,
        forall|i: int| last_slot(slots, name) < i < slots.len() ==> (#[trigger] slots[i]).name != name,
    decreases slots.len(),
{
    if slots.len() > 0 && slots.last().name != name {
        let init = slots.drop_last();
        lemma_last_slot(init, name);
        assert forall|i: int| last_slot(slots, name) < i < slots.len() implies (
        #[trigger] slots[i]).name != name by {
            if i < init.len() {
                assert(init[i] == slots[i]);
            }
        }
    }
}

/// One more allocation binds its name to the new slot and leaves every other
/// name where it was.
pub proof fn lemma_slot_table_push(slots: Seq<Slot>, slot: Slot, is_static: bool)
    ensures
        slot_table(slots.push(slot), is_static) == slot_table(slots, is_static).insert(
            slot.name,
            SymbolMeta {
                offset: (SLOT_SIZE * slots.len()) as usize,
                is_static,
                type_kind: slot.type_kind,
            },
        ),
{
    let grown = slots.push(slot);
    assert(grown.drop_last() == slots);
    assert forall|name: Seq<char>| name != slot.name implies last_slot(grown, name) == last_slot(
        slots,
        name,
    ) by {}
    assert forall|name: Seq<char>| last_slot(slots, name) >= 0 implies slot_meta(
        grown,
        last_slot(slots, name),
        is_static,
    ) == slot_meta(slots, last_slot(slots, name), is_static) by {
        lemma_last_slot(slots, name);
    }
    assert(slot_table(grown, is_static) =~= slot_table(slots, is_static).insert(
        slot.name,
        slot_meta(grown, slots.len() as int, is_static),
    ));
}

/// No allocations, no names.
pub proof fn lemma_slot_table_empty(is_static: bool)
    ensures
        slot_table(Seq::empty(), is_static) == SymbolTable::empty(),
{
    assert(slot_table(Seq::empty(), is_static) =~= SymbolTable::empty());
}

/// A function allocates at most one local per statement.
pub proof fn lemma_local_slots_len(statements: Seq<Statement>, globals: SymbolTable)
    ensures
        local_slots(statements, globals).len() <= statements.len(),
    decreases statements.len(),
{
    if statements.len() > 0 {
        lemma_local_slots_len(statements.drop_last(), globals);
    }
}

/// The parameter at `index` takes the slot after those of the parameters
/// before it.
pub proof fn lemma_param_step(params: Seq<ParamDecl>, index: int)
    requires
        0 <= index < params.len(),
    ensures
        global_table(params.take(index + 1)) == global_table(params.take(index)).insert(
            params[index].ident@,
            SymbolMeta {
                offset: (SLOT_SIZE * index) as usize,
                is_static: true,
                type_kind: params[index].type_kind,
            },
        ),
{
    let before = param_slots(params.take(index));
    assert(param_slots(params.take(index + 1)) == before.push(param_slot(params[index])));
    lemma_slot_table_push(before, param_slot(params[index]), true);
}

} // verus!
