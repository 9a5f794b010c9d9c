//! A small register machine: 4096 bytes of flat memory, sixteen 32-bit
//! registers of which register 0 is the instruction pointer, and eight
//! instructions with a fixed binary encoding.
//!
//! Every executable function carries a contract over a mathematical model of
//! the machine and is proved against it.

pub mod decimal;
pub mod encoding;
pub mod error;
pub mod instruction;
pub mod laws;
pub mod machine;
pub mod sink;

pub use error::Error;
pub use instruction::Instruction;
pub use machine::{Machine, MEMORY_SIZE};
pub use sink::Sink;
