//! A single-pass bytecode compiler and stack machine for a small
//! dynamically typed scripting language in the manner of Lox.
//!
//! - `tokenizer`: the scanner, with the scanning rules as spec functions;
//! - `grammar`: the compilation rules, which `parser` follows step by step;
//! - `chunk`, `opcode`: the bytecode format; `disassemble`: its listing;
//! - `compiler`: the table of locals and scopes;
//! - `value`, `heap`, `vm`: runtime values, the object heap and the
//!   machine, whose `step` is tied to an exact transition relation.
//!
//! Numbers are binary64 bit patterns. The machine compares, tests and
//! negates them itself; the four arithmetic operators, reading a number
//! literal and printing are left to its caller, which it asks through the
//! `Step` it returns.

pub mod chunk;
pub mod compiler;
pub mod disassemble;
pub mod error;
pub mod grammar;
pub mod heap;
pub mod opcode;
pub mod parser;
pub mod tokenizer;
pub mod value;
pub mod vm;
