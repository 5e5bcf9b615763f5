//! A small instruction-set simulator for a MIPS-like architecture.
//!
//! Text lines of assembly are decoded into structured instructions, label
//! references are resolved over two passes into concrete program addresses,
//! and the resolved program is executed against an architectural state of
//! 32 general-purpose registers, HI/LO accumulators and a program counter,
//! with one-instruction delay-slot semantics for control transfers.

pub mod cpu;
pub mod decode;
pub mod isa;
pub mod render;
pub mod resolve;
pub mod word;
