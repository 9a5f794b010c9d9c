use interpreter::{Error, Machine, MEMORY_SIZE};

#[test]
fn new_copies_image_and_zero_fills() {
    let machine = Machine::new(&[9, 8, 7]).unwrap();
    let memory = machine.memory();
    assert_eq!(memory.len(), MEMORY_SIZE);
    assert_eq!(&memory[..3], &[9, 8, 7]);
    assert!(memory[3..].iter().all(|&b| b == 0));
    assert_eq!(machine.regs(), &[0u32; 16]);
}

#[test]
fn new_accepts_empty_image() {
    let machine = Machine::new(&[]).unwrap();
    assert!(machine.memory().iter().all(|&b| b == 0));
    assert_eq!(machine.regs().len(), 16);
    assert!(machine.regs().iter().all(|&r| r == 0));
}

#[test]
fn new_accepts_image_that_fills_memory() {
    let image: Vec<u8> = (0..MEMORY_SIZE).map(|i| (i % 251) as u8 + 1).collect();
    let machine = Machine::new(&image).unwrap();
    assert_eq!(machine.memory(), &image[..]);
}

#[test]
fn new_rejects_image_one_byte_too_long() {
    let image = vec![0u8; MEMORY_SIZE + 1];
    assert!(matches!(Machine::new(&image), Err(Error::MemoryOverflow)));
}

#[test]
fn new_rejects_much_longer_image() {
    let image = vec![7u8; 3 * MEMORY_SIZE];
    assert!(matches!(Machine::new(&image), Err(Error::MemoryOverflow)));
}

#[test]
fn memory_size_is_4096() {
    assert_eq!(MEMORY_SIZE, 4096);
}

#[test]
fn set_reg_writes_the_register() {
    let mut machine = Machine::new(&[]).unwrap();
    assert!(machine.set_reg(15, 0xDEAD_BEEF).is_ok());
    assert!(machine.set_reg(1, 42).is_ok());
    assert_eq!(machine.regs()[15], 0xDEAD_BEEF);
    assert_eq!(machine.regs()[1], 42);
    assert_eq!(machine.regs()[0], 0);
}

#[test]
fn set_reg_rejects_index_16() {
    let mut machine = Machine::new(&[]).unwrap();
    assert!(matches!(machine.set_reg(16, 1), Err(Error::InvalidRegister)));
    assert!(matches!(machine.set_reg(usize::MAX, 1), Err(Error::InvalidRegister)));
    assert_eq!(machine.regs(), &[0u32; 16]);
}
