use haxby::bc_reader::{byte_array_to_opcode_array, BytecodeReader, DecodeError, MAX_BYTECODE_LEN};
use haxby::opcodes::{
    layout_of, BuiltinTypeId, BuiltinValueId, Opcode, OperandLayout, OPCODE_CALL, OPCODE_HALT,
    OPCODE_JUMP_IF_ARG_SUPPLIED, OPCODE_PUSH, OPCODE_PUSH_BUILTIN_TYPE, OPCODE_READ_ATTRIBUTE_SYMBOL,
    OPCODE_RETURN,
};

#[test]
fn empty_stream_decodes_to_nothing() {
    let ops = byte_array_to_opcode_array(&[]).unwrap();
    assert!(ops.is_empty());
    let mut reader = BytecodeReader::try_from(&[]).unwrap();
    assert!(reader.is_empty());
    assert_eq!(reader.len(), 0);
    assert_eq!(reader.read_opcode(), Err(DecodeError::EndOfStream));
}

#[test]
fn operands_are_little_endian() {
    let bytes = [
        OPCODE_PUSH, 0x34, 0x12,
        OPCODE_READ_ATTRIBUTE_SYMBOL, 0x78, 0x56, 0x34, 0x12,
        OPCODE_JUMP_IF_ARG_SUPPLIED, 3, 0x01, 0x02,
        OPCODE_CALL, 2,
        OPCODE_PUSH_BUILTIN_TYPE, 8,
        OPCODE_RETURN,
    ];
    let ops = byte_array_to_opcode_array(&bytes).unwrap();
    assert_eq!(
        ops,
        vec![
            Opcode::Push(0x1234),
            Opcode::ReadAttributeSymbol(0x12345678),
            Opcode::JumpIfArgSupplied(3, 0x0201),
            Opcode::Call(2),
            Opcode::PushBuiltinTy(BuiltinTypeId::Result),
            Opcode::Return,
        ]
    );
}

#[test]
fn reader_tracks_its_position() {
    let bytes = [OPCODE_CALL, 1, OPCODE_RETURN];
    let mut reader = BytecodeReader::try_from(&bytes).unwrap();
    assert_eq!(reader.get_index(), 0);
    assert_eq!(reader.read_opcode(), Ok(Opcode::Call(1)));
    assert_eq!(reader.get_index(), 2);
    assert_eq!(reader.read_opcode(), Ok(Opcode::Return));
    assert_eq!(reader.read_opcode(), Err(DecodeError::EndOfStream));
    reader.jump_to_index(0);
    assert_eq!(reader.read_opcode(), Ok(Opcode::Call(1)));
}

#[test]
fn unknown_opcodes_and_operands_are_refused() {
    assert_eq!(byte_array_to_opcode_array(&[OPCODE_HALT + 1]), Err(DecodeError::UnknownOpcode(OPCODE_HALT + 1)));
    assert_eq!(
        byte_array_to_opcode_array(&[OPCODE_PUSH_BUILTIN_TYPE, 200]),
        Err(DecodeError::UnknownOperand(OPCODE_PUSH_BUILTIN_TYPE, 200))
    );
    assert_eq!(byte_array_to_opcode_array(&[OPCODE_PUSH, 1]), Err(DecodeError::InsufficientData));
}

#[test]
fn oversized_bodies_are_refused() {
    let big = vec![OPCODE_RETURN; MAX_BYTECODE_LEN + 1];
    assert_eq!(byte_array_to_opcode_array(&big), Err(DecodeError::DataTooLarge));
    assert!(matches!(BytecodeReader::try_from(&big), Err(DecodeError::DataTooLarge)));
}

#[test]
fn decode_errors_have_messages() {
    assert_eq!(DecodeError::DataTooLarge.to_string(), "bytecode exceeds maximum allowed size");
    assert_eq!(DecodeError::EndOfStream.to_string(), "reached end of stream");
    assert_eq!(DecodeError::InsufficientData.to_string(), "insufficient data for decoding");
    assert_eq!(DecodeError::UnknownOpcode(99).to_string(), "99 is not a known opcode");
    assert_eq!(DecodeError::UnknownOperand(6, 42).to_string(), "42 is not a valid operand for opcode 6");
}

#[test]
fn builtin_ids_round_trip() {
    for b in 0u8..12 {
        let id = BuiltinTypeId::try_from_u8(b).unwrap();
        assert_eq!(id.to_u8(), b);
    }
    assert_eq!(BuiltinTypeId::try_from_u8(12), None);
    assert_eq!(BuiltinTypeId::RuntimeError.name(), "RuntimeError");
    assert_eq!(BuiltinValueId::try_from_u8(0), Some(BuiltinValueId::ThisModule));
    assert_eq!(BuiltinValueId::ThisModule.name(), "ThisModule");
    assert_eq!(layout_of(OPCODE_PUSH), Some(OperandLayout::Word));
    assert_eq!(layout_of(OPCODE_RETURN), Some(OperandLayout::Bare));
    assert_eq!(layout_of(OPCODE_HALT + 1), None);
}
