use classfile::error::DecodeError;
use classfile::instructions::{decode_code, decode_instruction, instruction_info};

#[test]
fn table_names_and_lengths() {
    assert_eq!(instruction_info(0x00), Some(("nop", 1, "No change")));
    let (name, len, _) = instruction_info(0x10).unwrap();
    assert_eq!((name, len), ("bipush", 2));
    let (name, len, _) = instruction_info(0x37).unwrap();
    assert_eq!((name, len), ("lstore", 2));
    let (name, len, _) = instruction_info(0x84).unwrap();
    assert_eq!((name, len), ("iinc", 3));
    let (name, len, _) = instruction_info(0xb9).unwrap();
    assert_eq!((name, len), ("invokeinterface", 5));
    let (name, len, _) = instruction_info(0xc5).unwrap();
    assert_eq!((name, len), ("multianewarray", 4));
    assert!(instruction_info(0xcb).is_none());
    assert!(instruction_info(0xfd).is_none());
    assert_eq!(instruction_info(0xff).unwrap().0, "impdep2");
}

#[test]
fn lengths_add_up_to_code_length() {
    let code = [0x10, 0x05, 0x3c, 0x84, 0x01, 0x01, 0xb1];
    let ins = decode_code(&code).unwrap();
    let names: Vec<&str> = ins.iter().map(|i| i.name).collect();
    assert_eq!(names, vec!["bipush", "istore_1", "iinc", "return"]);
    let total: u32 = ins.iter().map(|i| i.length).sum();
    assert_eq!(total, code.len() as u32);
    assert_eq!(ins[0].data, vec![0x05]);
    assert_eq!(ins[2].data, vec![0x01, 0x01]);
}

#[test]
fn unknown_opcode_is_one_byte() {
    let ins = decode_code(&[0xcb, 0x00]).unwrap();
    assert_eq!(ins[0].name, "Unknown");
    assert_eq!(ins[0].opcode, 0xcb);
    assert_eq!(ins[0].length, 1);
    assert_eq!(ins[0].stack_behavior, "Unknown bytecode");
    assert_eq!(ins[1].name, "nop");
}

#[test]
fn operand_past_the_end_is_insufficient() {
    assert_eq!(decode_code(&[0x11, 0x00]).unwrap_err(), DecodeError::InsufficientBytes);
    assert_eq!(decode_code(&[0xb9, 0, 1, 1]).unwrap_err(), DecodeError::InsufficientBytes);
}

#[test]
fn tableswitch_length_follows_its_bounds() {
    // nop, then tableswitch at offset 1: two padding bytes, default,
    // low = 1, high = 3, three offsets.
    let mut code = vec![0x00, 0xaa, 0x00, 0x00];
    for v in [20i32, 1, 3, 10, 11, 12] {
        code.extend(v.to_be_bytes());
    }
    code.push(0xb1);
    let ins = decode_code(&code).unwrap();
    assert_eq!(ins.len(), 3);
    assert_eq!(ins[1].name, "tableswitch");
    assert_eq!(ins[1].length, 1 + 2 + 12 + 12);
    assert_eq!(ins[2].name, "return");
}

#[test]
fn tableswitch_with_negative_bounds() {
    let mut code = vec![0xaa, 0x00, 0x00, 0x00];
    for v in [0i32, -1, 0, 5, 6] {
        code.extend(v.to_be_bytes());
    }
    let (ins, end) = decode_instruction(&code, 0).unwrap();
    assert_eq!(end, code.len());
    assert_eq!(ins.length as usize, code.len());
}

#[test]
fn tableswitch_with_high_below_low_fails() {
    let mut code = vec![0xaa, 0x00, 0x00, 0x00];
    for v in [0i32, 3, 1] {
        code.extend(v.to_be_bytes());
    }
    assert_eq!(decode_code(&code).unwrap_err(), DecodeError::InvalidSwitchBounds);
}

#[test]
fn lookupswitch_length_follows_its_pair_count() {
    // lookupswitch at offset 0: three padding bytes, default, two pairs.
    let mut code = vec![0xab, 0x00, 0x00, 0x00];
    for v in [9i32, 2, 1, 100, 2, 200] {
        code.extend(v.to_be_bytes());
    }
    let ins = decode_code(&code).unwrap();
    assert_eq!(ins.len(), 1);
    assert_eq!(ins[0].length, 1 + 3 + 8 + 16);
}

#[test]
fn lookupswitch_with_negative_count_fails() {
    let mut code = vec![0xab, 0x00, 0x00, 0x00];
    for v in [9i32, -1] {
        code.extend(v.to_be_bytes());
    }
    assert_eq!(decode_code(&code).unwrap_err(), DecodeError::InvalidSwitchBounds);
}

#[test]
fn wide_length_depends_on_the_modified_opcode() {
    let ins = decode_code(&[0xc4, 0x15, 0x01, 0x00, 0xc4, 0x84, 0x01, 0x00, 0x00, 0x05]).unwrap();
    assert_eq!(ins.len(), 2);
    assert_eq!(ins[0].length, 4);
    assert_eq!(ins[1].length, 6);
    assert_eq!(ins[1].data, vec![0x84, 0x01, 0x00, 0x00, 0x05]);
}

#[test]
fn empty_code_decodes_to_nothing() {
    assert!(decode_code(&[]).unwrap().is_empty());
}
