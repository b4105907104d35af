//! An LC-3 emulator core: a 16-bit register machine with 65 536 words of
//! memory, one-hot condition flags, memory-mapped keyboard registers, and
//! sixteen opcodes driven by a fetch-decode-execute step function.
//!
//! Console I/O is kept outside: the step function takes the bytes that the
//! host has read from the keyboard and returns the bytes the program wants
//! printed, so every state transition is verified.

pub mod bits;
pub mod executor;
pub mod instructions;
pub mod memory;
pub mod registers;

pub use bits::{get16, sign_extend, swap16};
pub use executor::{run, step, VM};
pub use instructions::{Instructions, TrapCodes};
pub use memory::{load_image, mem_read, mem_write, Memory};
pub use registers::{update_flags, Registers};
