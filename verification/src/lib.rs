//! A software model of the RiSC-16, a 16-bit RISC machine with eight
//! registers, eight opcodes and word-addressed memory.
//!
//! The instruction set, the decoder and the single-step processor live under
//! [`cpu`]. Every executable function carries a contract over a mathematical
//! model of the machine, and the contracts are machine-checked.
pub mod cpu;
