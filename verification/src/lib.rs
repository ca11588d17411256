//! A small compiler for an imperative expression language (assignment,
//! arithmetic, output), lowering a parsed syntax tree into abstract machine
//! instructions, rendering those instructions as assembler text, and modelling
//! the in-process buffer that the assembled machine code is loaded into.

pub mod asm_ops;
pub mod correctness;
pub mod grammar;
pub mod ir;
pub mod jit;
pub mod machine;
pub mod printer;
pub mod render;
pub mod semantics;

use vstd::prelude::*;

verus! {

/// Granularity of the memory-protection unit the loader works with.
pub const PAGE_SIZE: usize = 4096;

/// A fatal compilation failure: nothing is generated or loaded afterwards.
#[derive(Debug, PartialEq, Eq)]
pub enum CompileError {
    /// A variable was read before it was ever assigned; carries its name.
    UndefinedVariable(String),
    /// An instruction/operand shape the textual renderer cannot express.
    UnsupportedInstruction,
    /// The reserved variable-storage region has no free slot left.
    VariableSpace,
}

} // verus!
