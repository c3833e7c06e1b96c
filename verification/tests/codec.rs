use bytecode::error::BytecodeErrorKind;
use bytecode::opcode::{Op, OpcodeV1, OperandKind};
use bytecode::rawbytes::{to_pointer, to_value, RawBytes};
use bytecode::vm::Instructions;

const ALL: [(OpcodeV1, u8, &str, &str, OperandKind); 19] = [
    (OpcodeV1::Noop, 0x00, "noop", "Noop", OperandKind::Nothing),
    (OpcodeV1::Push, 0x01, "push", "Push", OperandKind::Value),
    (OpcodeV1::Add, 0x02, "add", "Add", OperandKind::Nothing),
    (OpcodeV1::Sub, 0x03, "sub", "Sub", OperandKind::Nothing),
    (OpcodeV1::Mul, 0x04, "mul", "Mul", OperandKind::Nothing),
    (OpcodeV1::Div, 0x05, "div", "Div", OperandKind::Nothing),
    (OpcodeV1::Mod, 0x06, "mod", "Mod", OperandKind::Nothing),
    (OpcodeV1::Jump, 0x07, "jump", "Jump", OperandKind::Pointer),
    (OpcodeV1::JumpIfFalse, 0x08, "jump_if_false", "JumpIfFalse", OperandKind::Pointer),
    (OpcodeV1::GT, 0x09, "gt", "GT", OperandKind::Nothing),
    (OpcodeV1::LT, 0x0A, "lt", "LT", OperandKind::Nothing),
    (OpcodeV1::GTE, 0x0B, "gte", "GTE", OperandKind::Nothing),
    (OpcodeV1::LTE, 0x0C, "lte", "LTE", OperandKind::Nothing),
    (OpcodeV1::EQ, 0x0D, "eq", "EQ", OperandKind::Nothing),
    (OpcodeV1::Proc, 0x0E, "proc", "Proc", OperandKind::Pointer),
    (OpcodeV1::Call, 0x0F, "call", "Call", OperandKind::Pointer),
    (OpcodeV1::Return, 0x10, "return", "Return", OperandKind::Nothing),
    (OpcodeV1::Exit, 0xFE, "exit", "Exit", OperandKind::Nothing),
    (OpcodeV1::Debug, 0xFF, "debug", "Debug", OperandKind::Value),
];

#[test]
fn every_opcode_has_its_identifier() {
    for (opcode, byte, _, _, _) in ALL {
        assert_eq!(opcode.to_byte(), Some(byte));
        assert_eq!(OpcodeV1::try_from(byte), Ok(opcode));
    }
}

#[test]
fn identifiers_are_the_bytes_to_0x10_and_the_two_highest() {
    for byte in 0..=255u8 {
        assert_eq!(OpcodeV1::try_from(byte).is_ok(), byte <= 0x10 || byte >= 0xFE);
    }
    assert_eq!(OpcodeV1::try_from(0x10), Ok(OpcodeV1::Return));
    assert_eq!(OpcodeV1::try_from(0x11), Err((BytecodeErrorKind::InvalidOpcode(0x11), None)));
    assert_eq!(OpcodeV1::try_from(0x12), Err((BytecodeErrorKind::InvalidOpcode(0x12), None)));
    assert_eq!(OpcodeV1::try_from(0xFD), Err((BytecodeErrorKind::InvalidOpcode(0xFD), None)));
    assert_eq!(OpcodeV1::try_from(0xFE), Ok(OpcodeV1::Exit));
}

#[test]
fn the_opcodes_of_the_store_have_no_identifier_and_no_mnemonic() {
    for (opcode, name) in [(OpcodeV1::Store, "Store"), (OpcodeV1::Load, "Load")] {
        assert_eq!(opcode.to_byte(), None);
        assert_eq!(opcode.mnemonic(), None);
        assert_eq!(opcode.name(), name);
        assert_eq!(opcode.kind(), OperandKind::Value);
        assert!(opcode.takes_operand());
        assert!(Op::new(opcode, Some(1)).is_well_formed());
        assert!(!Op::new(opcode, None).is_well_formed());
        assert_eq!(Op::checked(opcode, Some(1)), Some(Op::new(opcode, Some(1))));
        assert_eq!(Op::checked(opcode, None), None);
        assert!(OpcodeV1::catalogue().iter().all(|listed| *listed != opcode));
    }
    for word in ["store", "load", "Store", "Load"] {
        assert_eq!(
            OpcodeV1::try_from(word),
            Err((BytecodeErrorKind::InvalidOpcode2(word.to_string()), None))
        );
    }
}

#[test]
fn an_opcode_without_identifier_is_not_encoded() {
    let ops = [
        Op::new(OpcodeV1::Push, Some(1)),
        Op::new(OpcodeV1::Store, Some(0)),
        Op::new(OpcodeV1::Push, None),
    ];
    let failed = RawBytes::encode(&ops);
    assert_eq!(failed.err(), Some((BytecodeErrorKind::OpcodeNotEncodable, Some(1))));
    let failed = RawBytes::encode(&[Op::new(OpcodeV1::Load, None)]);
    assert_eq!(failed.err(), Some((BytecodeErrorKind::OpcodeNotEncodable, Some(0))));
    let failed = RawBytes::encode(&[Op::new(OpcodeV1::Jump, None), Op::new(OpcodeV1::Load, Some(1))]);
    assert_eq!(failed.err(), Some((BytecodeErrorKind::PointerNotProvided, Some(0))));
    let failed = RawBytes::try_from(Instructions(vec![Op::new(OpcodeV1::Store, Some(3))]));
    assert_eq!(failed.err(), Some((BytecodeErrorKind::OpcodeNotEncodable, Some(0))));
}

#[test]
fn a_stream_never_decodes_to_an_opcode_of_the_store() {
    let failed = Instructions::decode(&[0x11, 0, 0, 0, 0, 0, 0, 0, 0]);
    assert_eq!(failed.err(), Some((BytecodeErrorKind::InvalidOpcode(0x11), None)));
    let failed = Instructions::decode(&[0x12, 0, 0, 0, 0, 0, 0, 0, 0]);
    assert_eq!(failed.err(), Some((BytecodeErrorKind::InvalidOpcode(0x12), None)));
    let failed = Instructions::decode(&[0x11, 0, 0]);
    assert_eq!(failed.err(), Some((BytecodeErrorKind::InvalidOpcode(0x11), None)));
    let failed = Instructions::decode(&[0x00, 0x11]);
    assert_eq!(failed.err(), Some((BytecodeErrorKind::InvalidOpcode(0x11), None)));
}

#[test]
fn what_decodes_has_the_operands_its_opcodes_take() {
    let with_operand = [
        OpcodeV1::Push,
        OpcodeV1::Jump,
        OpcodeV1::JumpIfFalse,
        OpcodeV1::Proc,
        OpcodeV1::Call,
        OpcodeV1::Debug,
    ];
    let mut bytes = Vec::new();
    for round in 0..3u8 {
        for (_, byte, _, _, kind) in ALL {
            bytes.push(byte);
            if kind != OperandKind::Nothing {
                bytes.extend([round, byte, 0xFF, 0x11, 0x12, 0x20, 0x80, round]);
            }
        }
    }
    let decoded = Instructions::decode(&bytes).unwrap();
    assert_eq!(decoded.0.len(), 3 * ALL.len());
    for op in &decoded.0 {
        assert_eq!(op.operand.is_some(), with_operand.contains(&op.opcode));
        assert!(op.is_well_formed());
    }
    assert_eq!(RawBytes::encode(&decoded.0).unwrap().0, bytes);
}

#[test]
fn every_other_byte_identifies_nothing() {
    for byte in 0..=255u8 {
        if ALL.iter().all(|entry| entry.1 != byte) {
            assert_eq!(
                OpcodeV1::try_from(byte),
                Err((BytecodeErrorKind::InvalidOpcode(byte), None))
            );
        }
    }
}

#[test]
fn every_opcode_has_its_mnemonic_and_its_name() {
    for (opcode, _, mnemonic, name, _) in ALL {
        assert_eq!(opcode.mnemonic(), Some(mnemonic));
        assert_eq!(opcode.name(), name);
        assert_eq!(OpcodeV1::try_from(mnemonic), Ok(opcode));
        let chars: Vec<char> = mnemonic.chars().collect();
        assert_eq!(OpcodeV1::lookup(&chars, 0, chars.len()), Some(opcode));
    }
}

#[test]
fn a_mnemonic_is_written_in_lower_case() {
    for word in ["PUSH", "Push", "pus", "pushh", "", " push", "jump-if-false", "nop"] {
        assert_eq!(
            OpcodeV1::try_from(word),
            Err((BytecodeErrorKind::InvalidOpcode2(word.to_string()), None))
        );
    }
}

#[test]
fn lookup_reads_the_range_it_is_given() {
    let chars: Vec<char> = "xxpushyy".chars().collect();
    assert_eq!(OpcodeV1::lookup(&chars, 2, 6), Some(OpcodeV1::Push));
    assert_eq!(OpcodeV1::lookup(&chars, 2, 7), None);
    assert_eq!(OpcodeV1::lookup(&chars, 1, 6), None);
    assert_eq!(OpcodeV1::lookup(&chars, 3, 3), None);
}

#[test]
fn every_opcode_has_its_operand_kind() {
    for (opcode, _, _, _, kind) in ALL {
        assert_eq!(opcode.kind(), kind);
        assert_eq!(opcode.takes_operand(), kind != OperandKind::Nothing);
    }
}

#[test]
fn an_instruction_is_well_formed_with_the_operand_its_opcode_takes() {
    for (opcode, _, _, _, kind) in ALL {
        let takes = kind != OperandKind::Nothing;
        assert_eq!(Op::new(opcode, Some(1)).is_well_formed(), takes);
        assert_eq!(Op::new(opcode, None).is_well_formed(), !takes);
    }
    let op = Op::new(OpcodeV1::Push, Some(-3));
    assert_eq!(op.opcode, OpcodeV1::Push);
    assert_eq!(op.operand, Some(-3));
}

#[test]
fn a_checked_instruction_is_well_formed_or_not_made() {
    for (opcode, _, _, _, kind) in ALL {
        let takes = kind != OperandKind::Nothing;
        let with_operand = Op::checked(opcode, Some(4));
        let bare = Op::checked(opcode, None);
        if takes {
            assert_eq!(with_operand, Some(Op::new(opcode, Some(4))));
            assert_eq!(bare, None);
        } else {
            assert_eq!(with_operand, None);
            assert_eq!(bare, Some(Op::new(opcode, None)));
        }
    }
}

#[test]
fn the_catalogue_holds_every_opcode_once() {
    let all = OpcodeV1::catalogue();
    assert_eq!(all.len(), ALL.len());
    for (at, (opcode, _, _, _, _)) in ALL.iter().enumerate() {
        assert_eq!(all[at], *opcode);
    }
}

#[test]
fn an_opcode_without_operand_is_one_byte() {
    let raw = RawBytes::encode(&[Op::new(OpcodeV1::Add, None)]).unwrap();
    assert_eq!(raw.0, vec![0x02]);
}

#[test]
fn an_operand_is_eight_bytes_lowest_first() {
    let raw = RawBytes::encode(&[Op::new(OpcodeV1::Push, Some(0x0102030405060708))]).unwrap();
    assert_eq!(raw.0, vec![0x01, 0x08, 0x07, 0x06, 0x05, 0x04, 0x03, 0x02, 0x01]);
    let raw = RawBytes::encode(&[Op::new(OpcodeV1::Push, Some(1))]).unwrap();
    assert_eq!(raw.0, vec![0x01, 1, 0, 0, 0, 0, 0, 0, 0]);
    let raw = RawBytes::encode(&[Op::new(OpcodeV1::Jump, Some(258))]).unwrap();
    assert_eq!(raw.0, vec![0x07, 2, 1, 0, 0, 0, 0, 0, 0]);
}

#[test]
fn a_negative_operand_is_written_in_twos_complement() {
    let raw = RawBytes::encode(&[Op::new(OpcodeV1::Debug, Some(-1))]).unwrap();
    assert_eq!(raw.0, vec![0xFF, 0xFF, 0xFF, 0xFF, 0xFF, 0xFF, 0xFF, 0xFF, 0xFF]);
    let raw = RawBytes::encode(&[Op::new(OpcodeV1::Push, Some(-2))]).unwrap();
    assert_eq!(raw.0, vec![0x01, 0xFE, 0xFF, 0xFF, 0xFF, 0xFF, 0xFF, 0xFF, 0xFF]);
    let raw = RawBytes::encode(&[Op::new(OpcodeV1::Push, Some(i64::MIN))]).unwrap();
    assert_eq!(raw.0, vec![0x01, 0, 0, 0, 0, 0, 0, 0, 0x80]);
    let raw = RawBytes::encode(&[Op::new(OpcodeV1::Push, Some(i64::MAX))]).unwrap();
    assert_eq!(raw.0, vec![0x01, 0xFF, 0xFF, 0xFF, 0xFF, 0xFF, 0xFF, 0xFF, 0x7F]);
}

#[test]
fn encoded_operands_are_those_of_the_platform() {
    for value in [0i64, 1, -1, 255, 256, -256, 0x1234_5678_9ABC_DEF0, i64::MIN, i64::MAX] {
        let raw = RawBytes::encode(&[Op::new(OpcodeV1::Push, Some(value))]).unwrap();
        assert_eq!(raw.0[1..], value.to_le_bytes());
        let back = Instructions::decode(&raw.0).unwrap();
        assert_eq!(back.0, vec![Op::new(OpcodeV1::Push, Some(value))]);
    }
}

#[test]
fn an_operand_on_an_opcode_that_takes_none_is_not_written() {
    let raw = RawBytes::encode(&[Op::new(OpcodeV1::Add, Some(5)), Op::new(OpcodeV1::Exit, None)])
        .unwrap();
    assert_eq!(raw.0, vec![0x02, 0xFE]);
}

#[test]
fn encoding_fails_at_the_first_missing_operand() {
    let ops = [
        Op::new(OpcodeV1::Noop, None),
        Op::new(OpcodeV1::Jump, None),
        Op::new(OpcodeV1::Push, None),
    ];
    let failed = RawBytes::encode(&ops);
    assert_eq!(failed.err(), Some((BytecodeErrorKind::PointerNotProvided, Some(1))));
    let failed = RawBytes::encode(&ops[2..]);
    assert_eq!(failed.err(), Some((BytecodeErrorKind::ValueNotProvided, Some(0))));
    let failed = RawBytes::try_from(Instructions(ops.to_vec()));
    assert_eq!(failed.err(), Some((BytecodeErrorKind::PointerNotProvided, Some(1))));
}

#[test]
fn no_instructions_are_no_bytes() {
    assert_eq!(RawBytes::encode(&[]).unwrap().0, Vec::<u8>::new());
    assert_eq!(Instructions::decode(&[]).unwrap().0, Vec::<Op>::new());
}

fn sample() -> Vec<Op> {
    vec![
        Op::new(OpcodeV1::Push, Some(2)),
        Op::new(OpcodeV1::Push, Some(-3)),
        Op::new(OpcodeV1::Proc, Some(2)),
        Op::new(OpcodeV1::Mul, None),
        Op::new(OpcodeV1::Return, None),
        Op::new(OpcodeV1::Call, Some(3)),
        Op::new(OpcodeV1::JumpIfFalse, Some(i64::MAX)),
        Op::new(OpcodeV1::Jump, Some(-1)),
        Op::new(OpcodeV1::Proc, Some(0)),
        Op::new(OpcodeV1::Push, Some(i64::MIN)),
        Op::new(OpcodeV1::Debug, Some(-1)),
        Op::new(OpcodeV1::Noop, None),
        Op::new(OpcodeV1::Exit, None),
    ]
}

#[test]
fn decoding_gives_back_what_was_encoded() {
    let ops = sample();
    let raw = RawBytes::encode(&ops).unwrap();
    assert_eq!(raw.0.len(), 4 + 9 * 9);
    let back = Instructions::decode(&raw.0).unwrap();
    assert_eq!(back.0, ops);
}

#[test]
fn every_opcode_survives_the_round_trip() {
    for (opcode, _, _, _, kind) in ALL {
        let operand = if kind == OperandKind::Nothing { None } else { Some(-7) };
        let ops = vec![Op::new(opcode, operand), Op::new(opcode, operand)];
        let raw = RawBytes::try_from(Instructions(ops.clone())).unwrap();
        let back = Instructions::try_from(raw).unwrap();
        assert_eq!(back.0, ops);
    }
}

#[test]
fn an_unknown_opcode_fails_the_whole_stream() {
    let failed = Instructions::decode(&[0x20]);
    assert_eq!(failed.err(), Some((BytecodeErrorKind::InvalidOpcode(0x20), None)));
    let failed = Instructions::decode(&[0x00, 0x02, 0x20, 0x00]);
    assert_eq!(failed.err(), Some((BytecodeErrorKind::InvalidOpcode(0x20), None)));
    let failed = Instructions::try_from(RawBytes::from(&[0x00u8, 0x13][..]));
    assert_eq!(failed.err(), Some((BytecodeErrorKind::InvalidOpcode(0x13), None)));
}

#[test]
fn an_operand_byte_is_not_read_as_an_opcode() {
    let back = Instructions::decode(&[0x01, 0x20, 0x20, 0x20, 0x20, 0x20, 0x20, 0x20, 0x20, 0x02]);
    assert_eq!(
        back.unwrap().0,
        vec![Op::new(OpcodeV1::Push, Some(0x2020202020202020)), Op::new(OpcodeV1::Add, None)]
    );
}

#[test]
fn a_stream_that_ends_inside_an_operand_fails() {
    for length in 1..9 {
        let mut bytes = vec![0x02, 0x01];
        bytes.extend(std::iter::repeat(0).take(length - 1));
        let failed = Instructions::decode(&bytes);
        assert_eq!(failed.err(), Some((BytecodeErrorKind::TruncatedOperand, None)));
    }
    let back = Instructions::decode(&[0x02, 0x01, 0, 0, 0, 0, 0, 0, 0, 0]);
    assert_eq!(back.unwrap().0.len(), 2);
}

#[test]
fn the_first_fault_in_the_stream_is_the_one_reported() {
    let failed = Instructions::decode(&[0x20, 0x01]);
    assert_eq!(failed.err(), Some((BytecodeErrorKind::InvalidOpcode(0x20), None)));
    let failed = Instructions::decode(&[0x01, 0x20]);
    assert_eq!(failed.err(), Some((BytecodeErrorKind::TruncatedOperand, None)));
}

#[test]
fn instructions_are_copied_in_order() {
    let instructions = Instructions(sample());
    assert_eq!(instructions.clone().0, sample());
    assert_eq!(Instructions::default().0, Vec::<Op>::new());
    assert_eq!(Instructions::default().clone().0, Vec::<Op>::new());
}

#[test]
fn raw_bytes_take_a_copy_of_a_slice() {
    let bytes = [1u8, 2, 3];
    let raw = RawBytes::from(&bytes[..]);
    assert_eq!(raw.0, vec![1, 2, 3]);
}

#[test]
fn a_value_and_a_pointer_share_their_bits() {
    assert_eq!(to_pointer(0), 0);
    assert_eq!(to_pointer(5), 5);
    assert_eq!(to_pointer(-1), u64::MAX);
    assert_eq!(to_pointer(i64::MIN), 1 << 63);
    assert_eq!(to_pointer(i64::MAX), (1 << 63) - 1);
    assert_eq!(to_value(0), 0);
    assert_eq!(to_value(u64::MAX), -1);
    assert_eq!(to_value(1 << 63), i64::MIN);
    assert_eq!(to_value((1 << 63) - 1), i64::MAX);
    for value in [0i64, 1, -1, 77, -77, i64::MIN, i64::MAX] {
        assert_eq!(to_pointer(value), value as u64);
        assert_eq!(to_value(to_pointer(value)), value);
    }
}
