//! A user-space interpreter for the RV64I base integer instruction set.
//!
//! The machine is a register file, a program counter, a file of control and
//! status registers and a block of DRAM behind a bus. Every executable
//! function states over a mathematical model of that machine what it returns
//! and what it changes.

pub mod alu;
pub mod bus;
pub mod clock;
pub mod cpu;
pub mod csr;
pub mod decode;
pub mod dram;
pub mod laws;
pub mod machine;
pub mod word;
