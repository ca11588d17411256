//! The instruction vocabulary: the closed set of abstract machine
//! instructions and operands that the code generator emits and the textual
//! renderer understands.

use vstd::prelude::*;

verus! {

/// The fixed set of general-purpose and scratch registers the code generator
/// uses. Binary arithmetic always canonicalizes into `RAX` (left operand,
/// accumulator) and `RBX` (right operand).
#[derive(Debug, Clone, Copy, PartialEq, Eq, Structural)]
pub enum Register {
    RAX,
    RBX,
    RCX,
    RDX,
    R8,
    R15,
}

/// An instruction operand: a register, a signed 32-bit immediate, an absolute
/// memory offset, or a register-indirect memory reference.
#[derive(Debug, Clone, Copy, PartialEq, Eq, Structural)]
pub enum AsmOperand {
    RegisterOperand(Register),
    Value(i32),
    Memory(u16),
    MemoryRegister(Register),
}

/// An abstract machine instruction. Arithmetic, data movement, output, and a
/// label/compare/jump family that the present code generator never emits but
/// that the vocabulary and renderer cover.
#[derive(Debug, Clone, PartialEq, Eq)]
pub enum AsmOp {
    Add(AsmOperand, AsmOperand),
    Sub(Register, AsmOperand),
    Mul(Register, AsmOperand),
    Div(Register, AsmOperand),
    Mod(Register, AsmOperand),
    Mov(AsmOperand, AsmOperand),
    Push(AsmOperand),
    Pop(AsmOperand),
    Out,
    Label(String),
    Loop(String),
    Cmp(AsmOperand, AsmOperand),
    Je(String),
    Ja(String),
    Jb(String),
    Jne(String),
    Jae(String),
    Jbe(String),
    Jmp(String),
    Nop,
}

} // verus!
