//! A CHIP-8 instruction-set simulator whose instruction semantics are
//! stated as a mathematical model and proved against it.
//!
//! Choices where machines differ:
//! - the address space is 4096 bytes, and every address (program counter,
//!   `I`, `I + k`) wraps around its end;
//! - an arithmetic instruction writes its result first and `VF` last, so
//!   the flag wins when the target register is `VF`;
//! - both shifts leave the shifted-out bit in `VF` as 0 or 1;
//! - the stack holds twelve return addresses; a call beyond that or a
//!   return from an empty stack is an error that leaves the machine as it was;
//! - `Fx0A` suspends execution until a key is reported;
//! - unknown instruction words are no-ops, or errors in strict mode.

pub mod instruction;
pub mod laws;
pub mod machine;
