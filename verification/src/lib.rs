//! A structured-instruction mutation library for RISC-V fuzzing.
//!
//! Programs are ordered sequences of decoded RV64-G instructions. The library
//! models each instruction as a template (the fixed bits of one mnemonic plus
//! its operand fields) together with typed operand values, and provides a
//! bit-exact encoder and decoder, a parser and assembler for raw little-endian
//! words, a biased random generator, a family of structure-preserving program
//! mutations, and the fuzzer-facing program-input type with its stable
//! serialization and naming.

pub mod asm_text;
pub mod assembler;
pub mod causes;
pub mod generator;
pub mod instructions;
pub mod mutator;
pub mod parser;
pub mod program_input;
pub mod riscv;
pub mod rng;
pub mod text;
