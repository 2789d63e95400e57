//! A small Lisp front end and AArch64 code generator: tagged object
//! encodings, an arena for heap nodes, a reader, the lowering of what it reads
//! into heap nodes, instruction encoders, a compiler for unary and binary
//! primitive calls, a linker that patches calls to labels, disassembly
//! listings and relocatable object files of the linked code.
use vstd::prelude::*;

pub mod common;
pub mod logical_imm;
pub mod object;
pub mod ast;
pub mod text;
pub mod env;
pub mod syscall;
pub mod labelmap;
pub mod codegen;
pub mod compile;
pub mod label;
pub mod parser;
pub mod lower;
pub mod listing;
pub mod image;

