//! The 32-bit cell of the instruction stream and its packing.
//!
//! An instruction occupies one cell: the operation's tag in bits 0 to 15 and
//! a 16-bit immediate in bits 16 to 31. A cell that follows a
//! [`OpCode::ConstF32`] instruction carries no tag at all: it is a raw
//! operand word.

use vstd::prelude::*;
use crate::opcode::OpCode;
use crate::opcode::OPCODE_COUNT;

verus! {

/// The word that holds `tag` in its low half and `immediate` in its high half.
pub open spec fn pack(tag: u16, immediate: u16) -> u32 {
    (tag + immediate * 0x1_0000) as u32
}

/// The low half of a word: where an instruction keeps its tag.
pub open spec fn low_half(word: u32) -> u16 {
    (word % 0x1_0000) as u16
}

/// The high half of a word: where an instruction keeps its immediate.
pub open spec fn high_half(word: u32) -> u16 {
    (word / 0x1_0000) as u16
}

/// Why a cell could not be read as an instruction.
#[derive(Clone, Copy, Debug, PartialEq, Eq, Structural)]
pub enum DecodeError {
    /// The low half of the cell holds this value, which is no operation's tag.
    UnknownOpcode(u16),
}

/// One cell of the instruction stream.
#[derive(Clone, Copy, PartialEq, Eq, Structural)]
pub struct MemoryCell {
    pub data: u32,
}

impl MemoryCell {
    /// The cell that encodes `inst` with `immediate`.
    pub open spec fn instruction(inst: OpCode, immediate: u16) -> MemoryCell {
        MemoryCell { data: pack(inst.tag(), immediate) }
    }

    /// What reading this cell as an instruction gives.
    pub open spec fn decoded(self) -> Result<(OpCode, u16), DecodeError> {
        match OpCode::from_tag(low_half(self.data)) {
            Some(inst) => Ok((inst, high_half(self.data))),
            None => Err(DecodeError::UnknownOpcode(low_half(self.data))),
        }
    }

    /// A cell that holds `data` as it is, with no tag: an operand word.
    pub fn raw(data: u32) -> (cell: MemoryCell)
        ensures
            cell.data == data,
    {
        MemoryCell { data }
    }

    /// The instruction `inst` with immediate zero.
    pub fn plain_inst(inst: OpCode) -> (cell: MemoryCell)
        ensures
            cell == Self::instruction(inst, 0),
            cell.data == inst.tag(),
    {
        MemoryCell { data: inst.tag() as u32 }
    }

    /// The instruction `inst` with immediate `data`.
    pub fn with_data(inst: OpCode, data: u16) -> (cell: MemoryCell)
        ensures
            cell == Self::instruction(inst, data),
            cell.data == inst.tag() + data * 0x1_0000,
    {
        let tag: u16 = inst.tag();
        assert((tag as u32) | ((data as u32) << 16) == (tag + data * 0x1_0000) as u32)
            by (bit_vector);
        MemoryCell { data: (tag as u32) | ((data as u32) << 16) }
    }

    /// Reads the cell as an instruction: the operation whose tag the low half
    /// holds, and the high half as its immediate. A low half that is no
    /// operation's tag is reported, not reinterpreted.
    pub fn get_inst(&self) -> (result: Result<(OpCode, u16), DecodeError>)
        ensures
            result == self.decoded(),
            result is Ok <==> low_half(self.data) < OPCODE_COUNT,
            result matches Ok((inst, immediate)) ==> *self == Self::instruction(inst, immediate),
    {
        let word: u32 = self.data;
        let tag: u16 = (word & 0xffff) as u16;
        let immediate: u16 = (word >> 16) as u16;
        assert(word & 0xffff == word % 0x1_0000) by (bit_vector);
        assert(word >> 16 == word / 0x1_0000) by (bit_vector);
        match OpCode::from_tag(tag) {
            Some(inst) => Ok((inst, immediate)),
            None => Err(DecodeError::UnknownOpcode(tag)),
        }
    }
}

/// Packing loses nothing: both halves of a packed word read back as they
/// were given, and a word is the packing of its own two halves.
pub proof fn lemma_pack_halves(tag: u16, immediate: u16, word: u32)
    ensures
        low_half(pack(tag, immediate)) == tag,
        high_half(pack(tag, immediate)) == immediate,
        pack(low_half(word), high_half(word)) == word,
{
}

/// Every instruction decodes to the operation and immediate it was built
/// from.
pub proof fn lemma_decode_encode(inst: OpCode, immediate: u16)
    ensures
        MemoryCell::instruction(inst, immediate).decoded() == Ok::<(OpCode, u16), DecodeError>(
            (inst, immediate),
        ),
{
    lemma_pack_halves(inst.tag(), immediate, 0);
}

/// A cell that decodes is exactly the encoding of what it decodes to, so no
/// two cells decode to the same instruction.
pub proof fn lemma_encode_decode(cell: MemoryCell)
    ensures
        cell.decoded() matches Ok((inst, immediate)) ==> cell == MemoryCell::instruction(
            inst,
            immediate,
        ),
        cell.decoded() matches Err(DecodeError::UnknownOpcode(tag)) ==> tag >= OPCODE_COUNT && tag
            == low_half(cell.data),
{
    lemma_pack_halves(0, 0, cell.data);
}

} // verus!
