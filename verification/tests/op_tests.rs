use vm::next_op;
use vm::Op;
use vm::VmError;

// every opcode byte that denotes a one-byte instruction
fn one_byte_opcodes() -> Vec<u8> {
    let mut v: Vec<u8> = Vec::new();
    v.extend(0x00u8..=0x0f); // nop .. dconst_1
    v.extend(0x1au8..=0x35); // the _n loads and the array loads
    v.extend(0x3bu8..=0x83); // the _n stores, array stores, stack ops, arithmetic
    v.extend(0x85u8..=0x98); // conversions and comparisons
    v.extend(0xacu8..=0xb1); // returns
    v.push(0xbe); // arraylength
    v.push(0xbf); // athrow
    v.push(0xc2); // monitorenter
    v.push(0xc3); // monitorexit
    v
}

#[test]
fn one_byte_instructions_decode_alone() {
    for b in one_byte_opcodes() {
        let (_, len) = next_op(&[b], 0)
            .unwrap_or_else(|_| panic!("opcode 0x{b:02x} should decode alone"));
        assert_eq!(len, 1, "opcode 0x{b:02x}");
    }
}

#[test]
fn one_byte_samples() {
    assert_eq!(next_op(&[0x00], 0).unwrap(), (Op::Nop, 1));
    assert_eq!(next_op(&[0x01], 0).unwrap(), (Op::AconstNull, 1));
    assert_eq!(next_op(&[0x2a], 0).unwrap(), (Op::Aload0, 1));
    assert_eq!(next_op(&[0x60], 0).unwrap(), (Op::Iadd, 1));
    assert_eq!(next_op(&[0xb1], 0).unwrap(), (Op::Return, 1));
    assert_eq!(next_op(&[0xac], 0).unwrap(), (Op::Ireturn, 1));
}

#[test]
fn bipush_decodes_with_length_two() {
    assert_eq!(next_op(&[0x10, 0x2a], 0).unwrap(), (Op::Bipush { byte: 0x2a }, 2));
}

#[test]
fn invokespecial_decodes_with_length_three() {
    assert_eq!(
        next_op(&[0xb7, 0x00, 0x05], 0).unwrap(),
        (Op::Invokespecial { index: 5 }, 3)
    );
}

#[test]
fn multi_byte_samples() {
    assert_eq!(next_op(&[0x11, 0x01, 0x00], 0).unwrap(), (Op::Sipush { bytes: 256 }, 3));
    assert_eq!(next_op(&[0x15, 0x07], 0).unwrap(), (Op::Iload { index: 7 }, 2));
    assert_eq!(
        next_op(&[0x84, 0x02, 0xff], 0).unwrap(),
        (Op::Iinc { index: 2, constant: -1 }, 3)
    );
    assert_eq!(
        next_op(&[0xa7, 0xff, 0xfd], 0).unwrap(),
        (Op::Goto { branch: -3 }, 3)
    );
    assert_eq!(
        next_op(&[0xb2, 0x00, 0x09], 0).unwrap(),
        (Op::Getstatic { index: 9 }, 3)
    );
    assert_eq!(
        next_op(&[0xc8, 0x00, 0x00, 0x01, 0x00], 0).unwrap(),
        (Op::GotoW { branch: 256 }, 5)
    );
    assert_eq!(
        next_op(&[0xc4, 0x15, 0x01, 0x00], 0).unwrap(),
        (Op::WideIload { index: 256 }, 4)
    );
    assert_eq!(
        next_op(&[0xc4, 0x84, 0x01, 0x00, 0xff, 0xff], 0).unwrap(),
        (Op::WideIinc { index: 256, constant: -1 }, 6)
    );
}

#[test]
fn tableswitch_aligns_to_the_program_counter() {
    // at pc 0 the operands start after three pad bytes
    let mut code: Vec<u8> = vec![0xaa, 0, 0, 0];
    code.extend(10i32.to_be_bytes()); // default
    code.extend(1i32.to_be_bytes()); // low
    code.extend(2i32.to_be_bytes()); // high
    code.extend(20i32.to_be_bytes()); // offset for 1
    code.extend(24i32.to_be_bytes()); // offset for 2
    let (op, len) = next_op(&code, 0).unwrap();
    assert_eq!(len, 24);
    match op {
        Op::Tableswitch { default, low, high, jump_offsets } => {
            assert_eq!(default, 10);
            assert_eq!(low, 1);
            assert_eq!(high, 2);
            assert_eq!(jump_offsets, vec![20, 24]);
        }
        other => panic!("expected tableswitch, got {other:?}"),
    }

    // at pc 3 the operands are already aligned: no pad bytes
    let mut code: Vec<u8> = vec![0x00, 0x00, 0x00, 0xaa];
    code.extend(10i32.to_be_bytes());
    code.extend(1i32.to_be_bytes());
    code.extend(1i32.to_be_bytes());
    code.extend(20i32.to_be_bytes());
    let (op, len) = next_op(&code, 3).unwrap();
    assert_eq!(len, 17);
    match op {
        Op::Tableswitch { default, low, high, jump_offsets } => {
            assert_eq!((default, low, high), (10, 1, 1));
            assert_eq!(jump_offsets, vec![20]);
        }
        other => panic!("expected tableswitch, got {other:?}"),
    }
}

#[test]
fn lookupswitch_decodes_pairs() {
    // at pc 1 the operands start after two pad bytes
    let mut code: Vec<u8> = vec![0x00, 0xab, 0, 0];
    code.extend(8i32.to_be_bytes()); // default
    code.extend(2i32.to_be_bytes()); // npairs
    code.extend(5i32.to_be_bytes());
    code.extend(16i32.to_be_bytes());
    code.extend(9i32.to_be_bytes());
    code.extend(24i32.to_be_bytes());
    let (op, len) = next_op(&code, 1).unwrap();
    assert_eq!(len, 27);
    match op {
        Op::Lookupswitch { default, npairs, match_offsets } => {
            assert_eq!(default, 8);
            assert_eq!(npairs, 2);
            assert_eq!(match_offsets, vec![(5, 16), (9, 24)]);
        }
        other => panic!("expected lookupswitch, got {other:?}"),
    }
}

#[test]
fn unknown_opcode_is_malformed() {
    assert_eq!(next_op(&[0xcb], 0), Err(VmError::MalformedBytecode));
    assert_eq!(next_op(&[0xca], 0), Err(VmError::MalformedBytecode));
    assert_eq!(next_op(&[0xff], 0), Err(VmError::MalformedBytecode));
}

#[test]
fn truncated_instructions_are_malformed() {
    assert_eq!(next_op(&[], 0), Err(VmError::MalformedBytecode));
    assert_eq!(next_op(&[0x10], 0), Err(VmError::MalformedBytecode));
    assert_eq!(next_op(&[0xb7, 0x00], 0), Err(VmError::MalformedBytecode));
    assert_eq!(next_op(&[0xaa], 0), Err(VmError::MalformedBytecode));
    assert_eq!(next_op(&[0x00], 1), Err(VmError::MalformedBytecode));
}
