//! A small expression language: a scanner, a single-pass Pratt compiler that
//! emits bytecode, and a stack-machine virtual machine that executes it.
//!
//! Source text is lexed into tokens, compiled into a [`chunk::Chunk`]
//! (instruction stream, constant pool, line table), and executed by
//! [`vm::Vm`], yielding a runtime [`value::Value`] or a reported fault.
#![allow(unused_imports)]

pub mod chunk;
pub mod compiler;
pub mod disassembler;
pub mod error;
pub mod expr;
pub mod float;
pub mod laws;
pub mod precedence;
pub mod scanner;
pub mod semantics;
pub mod strings;
pub mod token;
pub mod value;
pub mod vm;

use vstd::prelude::*;

verus! {

/// Result type of the compile-and-run pipeline.
pub type Res<T> = Result<T, error::RxError>;

} // verus!
