//! A register-based bytecode virtual machine.
//!
//! The machine owns a fixed bank of 32 signed 32-bit registers, a program
//! counter, and an immutable byte buffer of encoded instructions.  It decodes
//! and executes instructions one at a time until it halts or faults.  Every
//! state transition is specified by the mathematical step function in
//! [`vm::spec_step`] and proved against it.

pub mod assembler;
pub mod instruction;
pub mod repl;
pub mod vm;
