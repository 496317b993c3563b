//! The tables that accompany the instruction stream, and the compiled
//! program that holds them.

use vstd::prelude::*;
use vstd::hash_map::StringHashMap;
use crate::ast::TypeKind;
use crate::cell::MemoryCell;

verus! {

/// Where a named value lives.
#[derive(Clone, Copy, Debug, PartialEq, Eq, Structural)]
pub struct SymbolMeta {
    /// Byte offset into the storage region named by `is_static`.
    pub offset: usize,
    /// `true` for the static section, `false` for the current frame.
    pub is_static: bool,
    pub type_kind: TypeKind,
}

/// A symbol table as a map from names to their storage.
pub type SymbolTable = Map<Seq<char>, SymbolMeta>;

/// What is known of a compiled function.
pub struct FuncMeta {
    /// Index in the instruction stream of the function's first instruction.
    pub address: usize,
    /// The function's locals.
    pub symbols: StringHashMap<SymbolMeta>,
}

/// The mathematical content of a [`FuncMeta`].
pub struct FuncMetaView {
    pub address: usize,
    pub symbols: SymbolTable,
}

/// A function table as a map from names to what is known of each function.
pub type FunctionTable = Map<Seq<char>, FuncMetaView>;

impl View for FuncMeta {
    type V = FuncMetaView;

    open spec fn view(&self) -> FuncMetaView {
        FuncMetaView { address: self.address, symbols: self.symbols@ }
    }
}

impl FuncMeta {
    /// A function at `address` that has no locals yet.
    pub fn new(address: usize) -> (meta: Self)
        ensures
            meta@.address == address,
            meta@.symbols == SymbolTable::empty(),
    {
        FuncMeta { address, symbols: StringHashMap::new() }
    }
}

/// The view of every entry of a table of functions.
pub open spec fn function_views(functions: Map<Seq<char>, FuncMeta>) -> FunctionTable {
    Map::new(|name: Seq<char>| functions.contains_key(name), |name: Seq<char>| functions[name]@)
}

/// Everything but the instructions that a machine needs to run a program.
pub struct ProgramData {
    /// The compiled functions by name.
    pub functions: StringHashMap<FuncMeta>,
    /// The program's parameters by name.
    pub global_symbols: StringHashMap<SymbolMeta>,
    /// The least stack the machine must provide.
    pub min_stack_size: usize,
    /// Bytes of the static section, which holds the parameters.
    pub static_section_size: usize,
}

/// The mathematical content of a [`ProgramData`].
pub struct ProgramDataView {
    pub functions: FunctionTable,
    pub global_symbols: SymbolTable,
    pub min_stack_size: usize,
    pub static_section_size: usize,
}

impl View for ProgramData {
    type V = ProgramDataView;

    open spec fn view(&self) -> ProgramDataView {
        ProgramDataView {
            functions: function_views(self.functions@),
            global_symbols: self.global_symbols@,
            min_stack_size: self.min_stack_size,
            static_section_size: self.static_section_size,
        }
    }
}

impl ProgramData {
    /// Empty tables and sizes of zero.
    pub fn new() -> (data: Self)
        ensures
            data@.functions == FunctionTable::empty(),
            data@.global_symbols == SymbolTable::empty(),
            data@.min_stack_size == 0,
            data@.static_section_size == 0,
    {
        ProgramData {
            functions: StringHashMap::new(),
            global_symbols: StringHashMap::new(),
            min_stack_size: 0,
            static_section_size: 0,
        }
    }
}

/// A compiled program: the instruction stream and its tables.
pub struct VMProgram {
    pub code: Vec<MemoryCell>,
    pub data: ProgramData,
}

/// The mathematical content of a [`VMProgram`].
pub struct VMProgramView {
    pub code: Seq<MemoryCell>,
    pub data: ProgramDataView,
}

impl View for VMProgram {
    type V = VMProgramView;

    open spec fn view(&self) -> VMProgramView {
        VMProgramView { code: self.code@, data: self.data@ }
    }
}

impl VMProgram {
    /// A program with no instructions and empty tables.
    pub fn new() -> (program: Self)
        ensures
            program@.code == Seq::<MemoryCell>::empty(),
            program@.data.functions == FunctionTable::empty(),
            program@.data.global_symbols == SymbolTable::empty(),
            program@.data.min_stack_size == 0,
            program@.data.static_section_size == 0,
    {
        VMProgram { code: Vec::new(), data: ProgramData::new() }
    }
}

} // verus!
