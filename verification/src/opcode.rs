//! The instruction set of the virtual machine.

use vstd::prelude::*;

verus! {

/// Number of operations in the instruction set; every tag is below it.
pub const OPCODE_COUNT: u16 = 18;

/// One operation of the virtual machine.
///
/// The integer family, `Mov4` and the two jumps are part of the vocabulary
/// the machine understands, but the code generator never emits them.
#[derive(Clone, Copy, Debug, PartialEq, Eq, Structural)]
pub enum OpCode {
    AddI32,
    SubI32,
    MulI32,
    DivI32,
    AddF32,
    SubF32,
    MulF32,
    DivF32,
    /// Push the raw word that follows this instruction.
    ConstF32,
    /// Push the empty value.
    Void,
    /// Store to a local slot.
    Mov4,
    /// Load from a local slot.
    Load4,
    /// Store to a slot of the static section.
    Mov4Global,
    /// Load from a slot of the static section.
    Load4Global,
    /// Return; the immediate is the size of the frame to reclaim.
    Ret,
    /// Call; the immediate is the entry address of the callee.
    Call,
    Jmp,
    JmpIf,
}

impl OpCode {
    /// The 16-bit tag that stands for this operation in an instruction word.
    pub open spec fn spec_tag(self) -> u16 {
        match self {
            OpCode::AddI32 => 0,
            OpCode::SubI32 => 1,
            OpCode::MulI32 => 2,
            OpCode::DivI32 => 3,
            OpCode::AddF32 => 4,
            OpCode::SubF32 => 5,
            OpCode::MulF32 => 6,
            OpCode::DivF32 => 7,
            OpCode::ConstF32 => 8,
            OpCode::Void => 9,
            OpCode::Mov4 => 10,
            OpCode::Load4 => 11,
            OpCode::Mov4Global => 12,
            OpCode::Load4Global => 13,
            OpCode::Ret => 14,
            OpCode::Call => 15,
            OpCode::Jmp => 16,
            OpCode::JmpIf => 17,
        }
    }

    /// The operation a tag stands for, if any.
    pub open spec fn spec_from_tag(tag: u16) -> Option<OpCode> {
        if tag == 0 {
            Some(OpCode::AddI32)
        } else if tag == 1 {
            Some(OpCode::SubI32)
        } else if tag == 2 {
            Some(OpCode::MulI32)
        } else if tag == 3 {
            Some(OpCode::DivI32)
        } else if tag == 4 {
            Some(OpCode::AddF32)
        } else if tag == 5 {
            Some(OpCode::SubF32)
        } else if tag == 6 {
            Some(OpCode::MulF32)
        } else if tag == 7 {
            Some(OpCode::DivF32)
        } else if tag == 8 {
            Some(OpCode::ConstF32)
        } else if tag == 9 {
            Some(OpCode::Void)
        } else if tag == 10 {
            Some(OpCode::Mov4)
        } else if tag == 11 {
            Some(OpCode::Load4)
        } else if tag == 12 {
            Some(OpCode::Mov4Global)
        } else if tag == 13 {
            Some(OpCode::Load4Global)
        } else if tag == 14 {
            Some(OpCode::Ret)
        } else if tag == 15 {
            Some(OpCode::Call)
        } else if tag == 16 {
            Some(OpCode::Jmp)
        } else if tag == 17 {
            Some(OpCode::JmpIf)
        } else {
            None
        }
    }

    /// The 16-bit tag that stands for this operation in an instruction word.
    #[verifier::when_used_as_spec(spec_tag)]
    pub fn tag(self) -> (t: u16)
        ensures
            t == self.spec_tag(),
            t < OPCODE_COUNT,
    {
        match self {
            OpCode::AddI32 => 0,
            OpCode::SubI32 => 1,
            OpCode::MulI32 => 2,
            OpCode::DivI32 => 3,
            OpCode::AddF32 => 4,
            OpCode::SubF32 => 5,
            OpCode::MulF32 => 6,
            OpCode::DivF32 => 7,
            OpCode::ConstF32 => 8,
            OpCode::Void => 9,
            OpCode::Mov4 => 10,
            OpCode::Load4 => 11,
            OpCode::Mov4Global => 12,
            OpCode::Load4Global => 13,
            OpCode::Ret => 14,
            OpCode::Call => 15,
            OpCode::Jmp => 16,
            OpCode::JmpIf => 17,
        }
    }

    /// Reads a tag back into the operation it stands for. A tag that no
    /// operation carries gives `None`.
    #[verifier::when_used_as_spec(spec_from_tag)]
    pub fn from_tag(tag: u16) -> (op: Option<OpCode>)
        ensures
            op == Self::spec_from_tag(tag),
            op is Some <==> tag < OPCODE_COUNT,
            op matches Some(o) ==> o.tag() == tag,
    {
        match tag {
            0 => Some(OpCode::AddI32),
            1 => Some(OpCode::SubI32),
            2 => Some(OpCode::MulI32),
            3 => Some(OpCode::DivI32),
            4 => Some(OpCode::AddF32),
            5 => Some(OpCode::SubF32),
            6 => Some(OpCode::MulF32),
            7 => Some(OpCode::DivF32),
            8 => Some(OpCode::ConstF32),
            9 => Some(OpCode::Void),
            10 => Some(OpCode::Mov4),
            11 => Some(OpCode::Load4),
            12 => Some(OpCode::Mov4Global),
            13 => Some(OpCode::Load4Global),
            14 => Some(OpCode::Ret),
            15 => Some(OpCode::Call),
            16 => Some(OpCode::Jmp),
            17 => Some(OpCode::JmpIf),
            _ => None,
        }
    }
}

/// Tags identify operations: every operation is read back from its own tag,
/// and two operations with the same tag are the same operation.
pub proof fn lemma_tag_round_trip(op: OpCode)
    ensures
        op.tag() < OPCODE_COUNT,
        OpCode::from_tag(op.tag()) == Some(op),
{
}

/// A tag below the operation count always decodes, to an operation that
/// carries that tag; any other tag decodes to nothing.
pub proof fn lemma_from_tag_total(tag: u16)
    ensures
        tag < OPCODE_COUNT <==> OpCode::from_tag(tag) is Some,
        OpCode::from_tag(tag) matches Some(op) ==> op.tag() == tag,
{
}

} // verus!
