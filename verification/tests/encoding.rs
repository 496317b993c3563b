use shadelang::DecodeError;
use shadelang::MemoryCell;
use shadelang::OpCode;

fn all_opcodes() -> Vec<OpCode> {
    vec![
        OpCode::AddI32,
        OpCode::SubI32,
        OpCode::MulI32,
        OpCode::DivI32,
        OpCode::AddF32,
        OpCode::SubF32,
        OpCode::MulF32,
        OpCode::DivF32,
        OpCode::ConstF32,
        OpCode::Void,
        OpCode::Mov4,
        OpCode::Load4,
        OpCode::Mov4Global,
        OpCode::Load4Global,
        OpCode::Ret,
        OpCode::Call,
        OpCode::Jmp,
        OpCode::JmpIf,
    ]
}

#[test]
fn tags_follow_declaration_order() {
    let ops = all_opcodes();
    assert_eq!(ops.len(), 18);
    for (i, op) in ops.iter().enumerate() {
        assert_eq!(op.tag() as usize, i);
    }
}

#[test]
fn tags_of_the_emitted_operations() {
    assert_eq!(OpCode::AddF32.tag(), 4);
    assert_eq!(OpCode::SubF32.tag(), 5);
    assert_eq!(OpCode::MulF32.tag(), 6);
    assert_eq!(OpCode::DivF32.tag(), 7);
    assert_eq!(OpCode::ConstF32.tag(), 8);
    assert_eq!(OpCode::Void.tag(), 9);
    assert_eq!(OpCode::Load4.tag(), 11);
    assert_eq!(OpCode::Mov4Global.tag(), 12);
    assert_eq!(OpCode::Load4Global.tag(), 13);
    assert_eq!(OpCode::Ret.tag(), 14);
    assert_eq!(OpCode::Call.tag(), 15);
}

#[test]
fn from_tag_inverts_tag() {
    for op in all_opcodes() {
        assert_eq!(OpCode::from_tag(op.tag()), Some(op));
    }
}

#[test]
fn from_tag_rejects_what_no_operation_carries() {
    assert_eq!(OpCode::from_tag(17), Some(OpCode::JmpIf));
    assert_eq!(OpCode::from_tag(18), None);
    assert_eq!(OpCode::from_tag(255), None);
    assert_eq!(OpCode::from_tag(u16::MAX), None);
}

#[test]
fn raw_keeps_every_bit() {
    assert_eq!(MemoryCell::raw(0).data, 0);
    assert_eq!(MemoryCell::raw(0x4060_0000).data, 0x4060_0000);
    assert_eq!(MemoryCell::raw(u32::MAX).data, u32::MAX);
}

#[test]
fn plain_inst_is_the_tag_alone() {
    assert_eq!(MemoryCell::plain_inst(OpCode::AddI32).data, 0);
    assert_eq!(MemoryCell::plain_inst(OpCode::Void).data, 9);
    assert_eq!(MemoryCell::plain_inst(OpCode::JmpIf).data, 17);
    for op in all_opcodes() {
        assert_eq!(MemoryCell::plain_inst(op).data, op.tag() as u32);
        assert_eq!(MemoryCell::plain_inst(op).data, MemoryCell::with_data(op, 0).data);
    }
}

#[test]
fn with_data_puts_the_immediate_in_the_high_half() {
    assert_eq!(MemoryCell::with_data(OpCode::Call, 3).data, 0x0003_000F);
    assert_eq!(MemoryCell::with_data(OpCode::Call, 3).data, 196_623);
    assert_eq!(MemoryCell::with_data(OpCode::Ret, 0xFFFF).data, 0xFFFF_000E);
    assert_eq!(MemoryCell::with_data(OpCode::Load4, 8).data, 0x0008_000B);
    assert_eq!(MemoryCell::with_data(OpCode::AddI32, 1).data, 0x0001_0000);
}

#[test]
fn get_inst_reads_back_what_was_packed() {
    let immediates: [u16; 6] = [0, 1, 4, 255, 0x8000, 0xFFFF];
    for op in all_opcodes() {
        for imm in immediates {
            assert_eq!(MemoryCell::with_data(op, imm).get_inst(), Ok((op, imm)));
        }
        assert_eq!(MemoryCell::plain_inst(op).get_inst(), Ok((op, 0)));
    }
}

#[test]
fn get_inst_splits_low_and_high_half() {
    assert_eq!(MemoryCell::raw(0x0010_000E).get_inst(), Ok((OpCode::Ret, 16)));
    assert_eq!(MemoryCell::raw(0xABCD_0011).get_inst(), Ok((OpCode::JmpIf, 0xABCD)));
}

#[test]
fn get_inst_reports_an_unknown_tag() {
    assert_eq!(MemoryCell::raw(18).get_inst(), Err(DecodeError::UnknownOpcode(18)));
    assert_eq!(MemoryCell::raw(0xABCD_FFFF).get_inst(), Err(DecodeError::UnknownOpcode(0xFFFF)));
    assert_eq!(MemoryCell::raw(0x0000_0100).get_inst(), Err(DecodeError::UnknownOpcode(0x100)));
}

#[test]
fn an_operand_word_carries_no_tag() {
    // The bit pattern of 3.5 happens to read as an instruction: only the
    // position in the stream tells an operand word from an instruction.
    let word = MemoryCell::raw(3.5f32.to_bits());
    assert_eq!(word.data, 0x4060_0000);
    assert_eq!(word.get_inst(), Ok((OpCode::AddI32, 0x4060)));
    // The bit pattern of -1.0 does not.
    let minus_one = MemoryCell::raw((-1.0f32).to_bits());
    assert_eq!(minus_one.data, 0xBF80_0000);
    assert_eq!(minus_one.get_inst(), Ok((OpCode::AddI32, 0xBF80)));
    let odd = MemoryCell::raw(1.000_01f32.to_bits());
    assert_eq!(odd.get_inst(), Err(DecodeError::UnknownOpcode((odd.data & 0xFFFF) as u16)));
}

#[test]
fn cells_compare_by_their_bits() {
    assert!(MemoryCell::with_data(OpCode::Ret, 4) == MemoryCell::raw(0x0004_000E));
    assert!(MemoryCell::with_data(OpCode::Ret, 4) != MemoryCell::with_data(OpCode::Ret, 8));
    assert!(MemoryCell::plain_inst(OpCode::Void) != MemoryCell::plain_inst(OpCode::Ret));
}
