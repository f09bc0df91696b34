//! An interpreter for the CHIP-8 virtual machine: memory, registers, call
//! stack, timers, keypad latch and a 64x32 monochrome display, driven one
//! instruction at a time by [`Chip8::step`].
//!
//! Every step is specified by [`model::step_result`] over the abstract state
//! [`model::Machine`], and [`laws`] proves properties of whole steps.
//!
//! Choices where historical interpreters differ:
//! - the shifts read `v[y]`, write the shifted value to `v[x]` and the bit
//!   shifted out to the flag register;
//! - register dump and load cover registers `0..=x` and leave the index
//!   register where it was;
//! - adding to the index register wraps at 12 bits and then sets the flag;
//! - the draw instruction's flag reports a set cell that the sprite cleared;
//! - the call stack has no fixed bound (early machines had 16 slots);
//! - memory accesses past the last byte, key numbers past the keypad and a
//!   program counter that leaves no room for a fetch stop the machine with a
//!   fault, as do undefined instructions and a return with an empty stack.

mod chip8;
mod error;
mod keys;
pub mod laws;
pub mod model;

pub use chip8::Chip8;
pub use error::Chip8Error;
pub use keys::Chip8Keys;
