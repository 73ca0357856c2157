//! Instruction decoding for a RISC-V virtual machine: raw decoding through a
//! list of instruction factories, macro-operation fusion, and a per-address
//! cache of decoded instructions.
mod definitions;
pub mod decoder;
pub mod error;
pub mod instructions;
pub mod memory;
