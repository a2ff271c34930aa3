//! A two-pass assembler for the Motorola 68000.
//!
//! The library turns assembly source text into a code object (a list of
//! addressed byte fragments), and renders that code object as Motorola
//! S-records and as a listing. The functions are verified with Verus
//! against the contracts written above them; the few that call into
//! another crate say so.

pub mod addressing;
pub mod agreement;
pub mod arena;
pub mod args;
pub mod ast;
pub mod bytes;
pub mod codegen;
pub mod display;
pub mod error;
pub mod expression;
pub mod file;
pub mod hex;
pub mod instruction;
pub mod lexer;
pub mod listing;
pub mod parser;
pub mod passes;
pub mod size;
pub mod sizing;
pub mod srec;
pub mod symbols;
pub mod text;
pub mod utils;
