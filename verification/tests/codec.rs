use interpreter::decimal::format_signed;
use interpreter::encoding::{immediate_from_le, sign_extend, to_signed, word_from_le, word_to_le};
use interpreter::instruction::opcode_length;
use interpreter::sink::Bounded;
use interpreter::{Error, Instruction, Sink};

#[test]
fn word_from_le_puts_first_byte_lowest() {
    assert_eq!(word_from_le(0x78, 0x56, 0x34, 0x12), 0x1234_5678);
    assert_eq!(word_from_le(0, 0, 0, 0), 0);
    assert_eq!(word_from_le(0xFF, 0xFF, 0xFF, 0xFF), 0xFFFF_FFFF);
    assert_eq!(word_from_le(1, 0, 0, 0), 1);
    assert_eq!(word_from_le(0, 0, 0, 1), 0x0100_0000);
}

#[test]
fn word_to_le_puts_lowest_byte_first() {
    assert_eq!(word_to_le(0x1234_5678), [0x78, 0x56, 0x34, 0x12]);
    assert_eq!(word_to_le(0), [0, 0, 0, 0]);
    assert_eq!(word_to_le(0xFFFF_FFFF), [0xFF, 0xFF, 0xFF, 0xFF]);
    assert_eq!(word_to_le(256), [0, 1, 0, 0]);
}

#[test]
fn word_codec_agrees_with_std() {
    for v in [0u32, 1, 255, 256, 65535, 65536, 0x00FF_FFFF, 0x0100_0000, 0x8000_0000, 0xDEAD_BEEF, u32::MAX] {
        let bytes = word_to_le(v);
        assert_eq!(bytes, v.to_le_bytes());
        assert_eq!(word_from_le(bytes[0], bytes[1], bytes[2], bytes[3]), v);
    }
}

#[test]
fn immediate_from_le_is_signed() {
    assert_eq!(immediate_from_le(5, 0), 5);
    assert_eq!(immediate_from_le(0xFF, 0x7F), 32767);
    assert_eq!(immediate_from_le(0x00, 0x80), -32768);
    assert_eq!(immediate_from_le(0xFF, 0xFF), -1);
    assert_eq!(immediate_from_le(0x34, 0x12), 0x1234);
}

#[test]
fn sign_extend_keeps_the_value() {
    assert_eq!(sign_extend(0), 0);
    assert_eq!(sign_extend(5), 5);
    assert_eq!(sign_extend(32767), 0x0000_7FFF);
    assert_eq!(sign_extend(-1), 0xFFFF_FFFF);
    assert_eq!(sign_extend(-32768), 0xFFFF_8000);
}

#[test]
fn to_signed_reads_two_complement() {
    assert_eq!(to_signed(0), 0);
    assert_eq!(to_signed(0x7FFF_FFFF), i32::MAX);
    assert_eq!(to_signed(0x8000_0000), i32::MIN);
    assert_eq!(to_signed(0xFFFF_FFFF), -1);
    assert_eq!(to_signed(0xFFFF_FFD6), -42);
}

#[test]
fn format_signed_writes_decimal() {
    assert_eq!(format_signed(0), b"0".to_vec());
    assert_eq!(format_signed(7), b"7".to_vec());
    assert_eq!(format_signed(10), b"10".to_vec());
    assert_eq!(format_signed(1000), b"1000".to_vec());
    assert_eq!(format_signed(-1), b"-1".to_vec());
    assert_eq!(format_signed(-90), b"-90".to_vec());
    assert_eq!(format_signed(i32::MAX), b"2147483647".to_vec());
    assert_eq!(format_signed(i32::MIN), b"-2147483648".to_vec());
}

#[test]
fn format_signed_agrees_with_std() {
    for v in [0, 1, -1, 9, 10, 11, 99, 100, 101, -100, 12345, -54321, i32::MAX, i32::MIN, i32::MIN + 1] {
        assert_eq!(format_signed(v), format!("{}", v).into_bytes());
    }
}

#[test]
fn opcode_length_follows_the_table() {
    assert_eq!(opcode_length(0), None);
    assert_eq!(opcode_length(1), Some(4));
    assert_eq!(opcode_length(2), Some(3));
    assert_eq!(opcode_length(3), Some(3));
    assert_eq!(opcode_length(4), Some(4));
    assert_eq!(opcode_length(5), Some(4));
    assert_eq!(opcode_length(6), Some(2));
    assert_eq!(opcode_length(7), Some(1));
    assert_eq!(opcode_length(8), Some(2));
    assert_eq!(opcode_length(9), None);
    assert_eq!(opcode_length(255), None);
}

#[test]
fn decode_reads_each_instruction() {
    assert_eq!(Instruction::decode(&[1, 2, 3, 4], 0), Ok(Instruction::CondMove { ri: 2, rj: 3, rk: 4 }));
    assert_eq!(Instruction::decode(&[2, 5, 6], 0), Ok(Instruction::Store { ri: 5, rj: 6 }));
    assert_eq!(Instruction::decode(&[3, 15, 0], 0), Ok(Instruction::Load { ri: 15, rj: 0 }));
    assert_eq!(
        Instruction::decode(&[4, 1, 0xFE, 0xFF], 0),
        Ok(Instruction::LoadImmediate { ri: 1, imm: -2 })
    );
    assert_eq!(Instruction::decode(&[5, 9, 8, 7], 0), Ok(Instruction::Sub { ri: 9, rj: 8, rk: 7 }));
    assert_eq!(Instruction::decode(&[6, 3], 0), Ok(Instruction::OutChar { ri: 3 }));
    assert_eq!(Instruction::decode(&[7], 0), Ok(Instruction::Halt));
    assert_eq!(Instruction::decode(&[8, 12], 0), Ok(Instruction::OutInt { ri: 12 }));
}

#[test]
fn decode_starts_at_the_given_address() {
    let bytes = [0, 0, 9, 6, 4, 7];
    assert_eq!(Instruction::decode(&bytes, 3), Ok(Instruction::OutChar { ri: 4 }));
    assert_eq!(Instruction::decode(&bytes, 5), Ok(Instruction::Halt));
    assert_eq!(Instruction::decode(&bytes, 2), Err(Error::InvalidInstruction));
}

#[test]
fn decode_rejects_unknown_opcode_before_anything_else() {
    assert_eq!(Instruction::decode(&[0], 0), Err(Error::InvalidInstruction));
    assert_eq!(Instruction::decode(&[9, 99, 99, 99], 0), Err(Error::InvalidInstruction));
    assert_eq!(Instruction::decode(&[200], 0), Err(Error::InvalidInstruction));
}

#[test]
fn decode_rejects_instruction_that_is_cut_short() {
    assert_eq!(Instruction::decode(&[1, 2, 3], 0), Err(Error::InvalidMemoryAccess));
    assert_eq!(Instruction::decode(&[2, 99], 0), Err(Error::InvalidMemoryAccess));
    assert_eq!(Instruction::decode(&[3], 0), Err(Error::InvalidMemoryAccess));
    assert_eq!(Instruction::decode(&[7, 4, 1, 0], 1), Err(Error::InvalidMemoryAccess));
    assert_eq!(Instruction::decode(&[5, 0, 0], 0), Err(Error::InvalidMemoryAccess));
    assert_eq!(Instruction::decode(&[6], 0), Err(Error::InvalidMemoryAccess));
    assert_eq!(Instruction::decode(&[8], 0), Err(Error::InvalidMemoryAccess));
}

#[test]
fn decode_rejects_register_out_of_range() {
    assert_eq!(Instruction::decode(&[1, 16, 0, 0], 0), Err(Error::InvalidRegister));
    assert_eq!(Instruction::decode(&[4, 16, 0, 0], 0), Err(Error::InvalidRegister));
    assert_eq!(Instruction::decode(&[8, 255], 0), Err(Error::InvalidRegister));
    assert_eq!(
        Instruction::decode(&[4, 15, 16, 17], 0),
        Ok(Instruction::LoadImmediate { ri: 15, imm: 0x1110 })
    );
}

#[test]
fn instruction_length_follows_the_table() {
    assert_eq!(Instruction::CondMove { ri: 0, rj: 0, rk: 0 }.length(), 4);
    assert_eq!(Instruction::Store { ri: 0, rj: 0 }.length(), 3);
    assert_eq!(Instruction::Load { ri: 0, rj: 0 }.length(), 3);
    assert_eq!(Instruction::LoadImmediate { ri: 0, imm: 0 }.length(), 4);
    assert_eq!(Instruction::Sub { ri: 0, rj: 0, rk: 0 }.length(), 4);
    assert_eq!(Instruction::OutChar { ri: 0 }.length(), 2);
    assert_eq!(Instruction::Halt.length(), 1);
    assert_eq!(Instruction::OutInt { ri: 0 }.length(), 2);
}

#[test]
fn registers_exist_checks_every_operand() {
    assert!(Instruction::Sub { ri: 15, rj: 15, rk: 15 }.registers_exist());
    assert!(!Instruction::Sub { ri: 15, rj: 15, rk: 16 }.registers_exist());
    assert!(!Instruction::Sub { ri: 15, rj: 16, rk: 15 }.registers_exist());
    assert!(!Instruction::Sub { ri: 16, rj: 15, rk: 15 }.registers_exist());
    assert!(Instruction::Halt.registers_exist());
}

#[test]
fn vec_sink_appends() {
    let mut out: Vec<u8> = vec![1, 2];
    assert!(out.put(&[3, 4, 5]));
    assert!(out.put(&[]));
    assert_eq!(out, vec![1, 2, 3, 4, 5]);
}

#[test]
fn bounded_sink_takes_what_fits() {
    let mut out = Bounded::new(4);
    assert!(out.put(&[1, 2, 3]));
    assert_eq!(out.bytes(), &[1, 2, 3]);
    assert!(!out.put(&[4, 5]));
    assert_eq!(out.bytes(), &[1, 2, 3, 4]);
    assert!(!out.put(&[6]));
    assert!(out.put(&[]));
    assert_eq!(out.bytes(), &[1, 2, 3, 4]);
}
