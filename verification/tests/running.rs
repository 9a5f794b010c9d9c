use interpreter::sink::Bounded;
use interpreter::{Error, Machine};

#[test]
fn load_immediate_then_halt() {
    let mut machine = Machine::new(&[4, 1, 5, 0, 7]).unwrap();
    let mut out: Vec<u8> = Vec::new();
    assert!(matches!(machine.run_on(&mut out, 100), Ok(true)));
    assert_eq!(machine.regs()[1], 5);
    assert_eq!(machine.regs()[0], 5);
    assert!(out.is_empty());
}

#[test]
fn four_byte_image_reads_next_byte_as_high_immediate() {
    let mut machine = Machine::new(&[4, 1, 5, 7]).unwrap();
    let mut out: Vec<u8> = Vec::new();
    assert!(matches!(machine.run_on(&mut out, 100), Err(Error::InvalidInstruction)));
    assert_eq!(machine.regs()[1], 0x0705);
    assert_eq!(machine.regs()[0], 4);
}

#[test]
fn out_char_writes_capital_a() {
    let mut machine = Machine::new(&[4, 1, 65, 0, 6, 1, 7]).unwrap();
    let mut out: Vec<u8> = Vec::new();
    assert!(matches!(machine.run_on(&mut out, 100), Ok(true)));
    assert_eq!(out, vec![0x41]);
}

#[test]
fn out_int_writes_minus_one() {
    let mut machine = Machine::new(&[4, 1, 0xFF, 0xFF, 8, 1, 7]).unwrap();
    let mut out: Vec<u8> = Vec::new();
    assert!(matches!(machine.run_on(&mut out, 100), Ok(true)));
    assert_eq!(machine.regs()[1], 0xFFFF_FFFF);
    assert_eq!(out, b"-1".to_vec());
}

#[test]
fn run_keeps_output_in_order() {
    let mut machine = Machine::new(&[4, 1, 72, 0, 6, 1, 4, 2, 0xD6, 0xFF, 8, 2, 4, 3, 33, 0, 6, 3, 7])
        .unwrap();
    let mut out: Vec<u8> = b"> ".to_vec();
    assert!(matches!(machine.run_on(&mut out, 100), Ok(true)));
    assert_eq!(out, b"> H-42!".to_vec());
}

#[test]
fn run_stops_when_budget_is_used_up() {
    let mut machine = Machine::new(&[4, 1, 1, 0, 4, 2, 2, 0, 4, 3, 3, 0, 7]).unwrap();
    let mut out: Vec<u8> = Vec::new();
    assert!(matches!(machine.run_on(&mut out, 2), Ok(false)));
    assert_eq!(machine.regs()[..4], [8, 1, 2, 0]);
    assert!(matches!(machine.run_on(&mut out, 1), Ok(false)));
    assert_eq!(machine.regs()[..4], [12, 1, 2, 3]);
    assert!(matches!(machine.run_on(&mut out, 1), Ok(true)));
    assert_eq!(machine.regs()[0], 13);
}

#[test]
fn run_with_no_budget_does_nothing() {
    let mut machine = Machine::new(&[7]).unwrap();
    let mut out: Vec<u8> = Vec::new();
    assert!(matches!(machine.run_on(&mut out, 0), Ok(false)));
    assert_eq!(machine.regs()[0], 0);
}

#[test]
fn endless_program_runs_until_budget_ends() {
    let mut machine = Machine::new(&[4, 0, 0, 0]).unwrap();
    let mut out: Vec<u8> = Vec::new();
    assert!(matches!(machine.run_on(&mut out, 10_000), Ok(false)));
    assert_eq!(machine.regs()[0], 0);
}

#[test]
fn countdown_loop_prints_and_halts() {
    // r1 = 3, r2 = 1, r4 = 30 (halt), r5 = 12 (loop head)
    // loop: print r1; r1 -= r2; r3 = halt; if r1 != 0 { r3 = loop }; jump r3
    let image = [
        4, 1, 3, 0, //  0: r1 = 3
        4, 2, 1, 0, //  4: r2 = 1
        4, 5, 12, 0, //  8: r5 = 12
        8, 1, // 12: print r1
        5, 1, 1, 2, // 14: r1 = r1 - r2
        4, 3, 30, 0, // 18: r3 = 30
        1, 3, 5, 1, // 22: if r1 != 0 { r3 = r5 }
        5, 0, 3, 6, // 26: ip = r3 - r6
        7, // 30: halt
    ];
    let mut machine = Machine::new(&image).unwrap();
    let mut out: Vec<u8> = Vec::new();
    assert!(matches!(machine.run_on(&mut out, 1000), Ok(true)));
    assert_eq!(out, b"321".to_vec());
    assert_eq!(machine.regs()[1], 0);
    assert_eq!(machine.regs()[0], 31);
}

#[test]
fn run_propagates_invalid_register() {
    let mut machine = Machine::new(&[4, 1, 1, 0, 6, 16, 7]).unwrap();
    let mut out: Vec<u8> = Vec::new();
    assert!(matches!(machine.run_on(&mut out, 100), Err(Error::InvalidRegister)));
    assert_eq!(machine.regs()[0], 6);
    assert_eq!(machine.regs()[1], 1);
    assert!(out.is_empty());
}

#[test]
fn run_off_the_end_of_memory_fails() {
    let mut image = vec![0u8; 4096];
    image[4090..].copy_from_slice(&[6, 2, 4, 2, 1, 0]);
    let mut machine = Machine::new(&image).unwrap();
    machine.set_reg(0, 4090).unwrap();
    machine.set_reg(2, 0x30).unwrap();
    let mut out: Vec<u8> = Vec::new();
    assert!(matches!(machine.run_on(&mut out, 100), Err(Error::InvalidMemoryAccess)));
    assert_eq!(machine.regs()[0], 4096);
    assert_eq!(machine.regs()[2], 1);
    assert_eq!(out, vec![0x30]);
}

#[test]
fn run_on_zeroed_memory_fails_at_once() {
    let mut machine = Machine::new(&[]).unwrap();
    let mut out: Vec<u8> = Vec::new();
    assert!(matches!(machine.run_on(&mut out, 100), Err(Error::InvalidInstruction)));
    assert_eq!(machine.regs(), &[0u32; 16]);
}

#[test]
fn self_modifying_program_runs_the_written_instruction() {
    // Store the word 0x00000007 over the bytes at 11, so that the instruction
    // at address 11 becomes a halt.
    let image = [
        4, 1, 7, 0, // 0: r1 = 7
        4, 2, 11, 0, // 4: r2 = 11
        2, 2, 1, // 8: mem[r2..] = r1
        0, // 11: not an opcode until the store has run
    ];
    let mut machine = Machine::new(&image).unwrap();
    let mut out: Vec<u8> = Vec::new();
    assert!(matches!(machine.run_on(&mut out, 100), Ok(true)));
    assert_eq!(machine.memory()[11], 7);
    assert_eq!(machine.regs()[0], 12);
}

#[test]
fn full_output_stops_the_run() {
    let mut machine = Machine::new(&[4, 1, 0x39, 0x30, 6, 1, 8, 1, 6, 1, 7]).unwrap();
    let mut out = Bounded::new(3);
    assert!(matches!(machine.run_on(&mut out, 100), Err(Error::OutputError)));
    assert_eq!(out.bytes(), b"912");
    assert_eq!(machine.regs()[0], 8);
    assert_eq!(machine.regs()[1], 12345);
}

#[test]
fn bounded_output_that_is_large_enough_takes_everything() {
    let mut machine = Machine::new(&[4, 1, 0x39, 0x30, 6, 1, 8, 1, 6, 1, 7]).unwrap();
    let mut out = Bounded::new(7);
    assert!(matches!(machine.run_on(&mut out, 100), Ok(true)));
    assert_eq!(out.bytes(), b"9123459");
}
