//! A small accumulator-and-stack machine driven by a mnemonic language.
//!
//! Source text is turned into opcodes by `parser::Parser::parse`; a
//! `machine::Machine` runs them one step at a time and tells its caller what
//! to print. The crate also carries `hitbox`, a collision test for
//! axis-aligned boxes.

pub mod cell;
pub mod hitbox;
pub mod machine;
pub mod opcode;
pub mod parser;
pub mod run;
pub mod text;
