//! The textual renderer: canonical assembler text for each instruction and
//! operand. A memory-valued destination combined with an immediate source
//! carries an explicit `dword` size qualifier, because the target syntax
//! cannot infer a width from a bare memory operand; register forms omit it.
//! The output instruction renders as a fixed save/call/restore block through
//! the print builtin. An instruction without a defined rendering (division,
//! remainder, no-op) is a hard compile-time failure, never silently skipped.

use crate::asm_ops::{AsmOp, AsmOperand, Register};
use crate::printer::dec_u64;
use crate::CompileError;
use vstd::prelude::*;
use vstd::utf8::encode_utf8;

verus! {

broadcast use vstd::std_specs::vec::group_vec_axioms;

/// The assembler's name for a register.
pub open spec fn reg_text(r: Register) -> Seq<u8> {
    match r {
        Register::RAX => seq![82u8, 65u8, 88u8],
        Register::RBX => seq![82u8, 66u8, 88u8],
        Register::RCX => seq![82u8, 67u8, 88u8],
        Register::RDX => seq![82u8, 68u8, 88u8],
        Register::R8 => seq![82u8, 56u8],
        Register::R15 => seq![82u8, 49u8, 53u8],
    }
}

/// The decimal text of a signed 32-bit immediate.
pub open spec fn dec_i32(n: i32) -> Seq<u8> {
    if n >= 0 {
        dec_u64(n as u64)
    } else {
        seq![45u8] + dec_u64((-(n as int)) as u64)
    }
}

/// The text of an operand: a register name, a signed immediate, or a
/// bracketed memory reference.
pub open spec fn operand_text(o: AsmOperand) -> Seq<u8> {
    match o {
        AsmOperand::RegisterOperand(r) => reg_text(r),
        AsmOperand::Value(n) => dec_i32(n),
        AsmOperand::Memory(a) => seq![91u8] + dec_u64(a as u64) + seq![93u8],
        AsmOperand::MemoryRegister(r) => seq![91u8] + reg_text(r) + seq![93u8],
    }
}

/// Whether a destination/source pair needs the explicit size qualifier.
pub open spec fn needs_dword(d: AsmOperand, s: AsmOperand) -> bool {
    (d is Memory || d is MemoryRegister) && s is Value
}

/// The fixed rendering of the output instruction: save the registers it
/// uses, load the print builtin's address into a scratch register, call it
/// indirectly on the staged value, restore the registers.
pub open spec fn out_text() -> Seq<u8> {
    seq![10u8] + seq![59u8, 112u8, 114u8, 105u8, 110u8, 116u8, 105u8, 110u8, 103u8, 32u8] + seq![118u8, 97u8, 114u8, 105u8, 97u8, 98u8, 108u8, 101u8, 10u8]
        + seq![112u8, 117u8, 115u8, 104u8, 32u8, 114u8, 56u8, 10u8] + seq![112u8, 117u8, 115u8, 104u8, 32u8, 114u8, 99u8, 120u8, 10u8]
        + seq![109u8, 111u8, 118u8, 32u8, 114u8, 49u8, 48u8, 44u8, 32u8, 112u8, 114u8, 105u8, 110u8, 116u8, 10u8]
        + seq![105u8, 110u8, 118u8, 111u8, 107u8, 101u8, 32u8, 114u8, 49u8, 48u8, 44u8, 32u8, 113u8, 119u8, 111u8, 114u8, 100u8, 32u8, 91u8, 114u8, 56u8, 93u8, 10u8]
        + seq![112u8, 111u8, 112u8, 32u8, 114u8, 99u8, 120u8, 10u8] + seq![112u8, 111u8, 112u8, 32u8, 114u8, 56u8, 10u8] + seq![10u8]
}

/// The mnemonic and separator text of a two-operand arithmetic line, with
/// the size qualifier where `needs_dword` says so.
pub open spec fn binary_line(mnemonic: Seq<u8>, d: Seq<u8>, qualifier: bool, s: Seq<u8>) -> Seq<
    u8,
> {
    mnemonic + d + seq![44u8, 32u8] + (if qualifier {
        seq![100u8, 119u8, 111u8, 114u8, 100u8, 32u8]
    } else {
        Seq::<u8>::empty()
    }) + s + seq![10u8]
}

/// The canonical text of one instruction, or nothing where the dialect has
/// no rendering for it (division, remainder, the no-op).
pub open spec fn op_text(op: AsmOp) -> Option<Seq<u8>> {
    match op {
        AsmOp::Add(d, s) => Some(
            binary_line(
                seq![97u8, 100u8, 100u8, 32u8],
                operand_text(d),
                d is Memory && s is Value,
                operand_text(s),
            ),
        ),
        AsmOp::Sub(r, s) => Some(
            binary_line(
                seq![115u8, 117u8, 98u8, 32u8],
                reg_text(r),
                false,
                operand_text(s),
            ),
        ),
        AsmOp::Mul(r, s) => Some(
            binary_line(
                seq![105u8, 109u8, 117u8, 108u8, 32u8],
                reg_text(r),
                false,
                operand_text(s),
            ),
        ),
        AsmOp::Div(_, _) => None,
        AsmOp::Mod(_, _) => None,
        AsmOp::Mov(d, s) => Some(
            binary_line(
                seq![109u8, 111u8, 118u8, 32u8],
                operand_text(d),
                needs_dword(d, s),
                operand_text(s),
            ),
        ),
        AsmOp::Push(o) => Some(
            seq![112u8, 117u8, 115u8, 104u8, 113u8, 32u8] + operand_text(o) + seq![10u8],
        ),
        AsmOp::Pop(o) => Some(seq![112u8, 111u8, 112u8, 113u8, 32u8] + operand_text(o) + seq![10u8]),
        AsmOp::Out => Some(out_text()),
        AsmOp::Label(l) => Some(encode_utf8(l@) + seq![58u8, 10u8]),
        AsmOp::Loop(l) => Some(
            seq![13u8, 108u8, 111u8, 111u8, 112u8, 113u8, 32u8] + encode_utf8(l@) + seq![10u8],
        ),
        AsmOp::Cmp(l, r) => Some(
            binary_line(seq![99u8, 109u8, 112u8, 32u8], operand_text(l), false, operand_text(r)),
        ),
        AsmOp::Je(l) => Some(seq![106u8, 101u8, 32u8] + encode_utf8(l@) + seq![10u8]),
        AsmOp::Ja(l) => Some(seq![106u8, 97u8, 32u8] + encode_utf8(l@) + seq![10u8]),
        AsmOp::Jb(l) => Some(seq![106u8, 98u8, 32u8] + encode_utf8(l@) + seq![10u8]),
        AsmOp::Jne(l) => Some(seq![106u8, 110u8, 101u8, 32u8] + encode_utf8(l@) + seq![10u8]),
        AsmOp::Jae(l) => Some(seq![106u8, 97u8, 101u8, 32u8] + encode_utf8(l@) + seq![10u8]),
        AsmOp::Jbe(l) => Some(seq![106u8, 98u8, 101u8, 32u8] + encode_utf8(l@) + seq![10u8]),
        AsmOp::Jmp(l) => Some(seq![106u8, 109u8, 112u8, 32u8] + encode_utf8(l@) + seq![10u8]),
        AsmOp::Nop => None,
    }
}

/// The text of a whole instruction list, in order; nothing if any single
/// instruction has no rendering.
pub open spec fn ops_text(ops: Seq<AsmOp>) -> Option<Seq<u8>>
    decreases ops.len(),
{
    if ops.len() == 0 {
        Some(Seq::<u8>::empty())
    } else {
        match (ops_text(ops.drop_last()), op_text(ops.last())) {
            (Some(a), Some(b)) => Some(a + b),
            _ => None,
        }
    }
}

/// An instruction list with an unrenderable prefix has no text as a whole.
proof fn lemma_ops_text_prefix_none(ops: Seq<AsmOp>, k: int)
    requires
        0 <= k <= ops.len(),
        ops_text(ops.subrange(0, k)) is None,
    ensures
        ops_text(ops) is None,
    decreases ops.len() - k,
{
    if k == ops.len() {
        assert(ops.subrange(0, k) =~= ops);
    } else {
        assert(ops.subrange(0, k + 1).drop_last() =~= ops.subrange(0, k));
        lemma_ops_text_prefix_none(ops, k + 1);
    }
}

/// Appends a literal chunk of text.
fn push_lit(out: &mut Vec<u8>, s: &[u8])
    ensures
        final(out)@ == old(out)@ + s@,
{
    let mut i: usize = 0;
    while i < s.len()
        invariant
            i <= s@.len(),
            out@ == old(out)@ + s@.subrange(0, i as int),
        decreases s@.len() - i,
    {
        out.push(s[i]);
        proof {
            assert(out@ =~= old(out)@ + s@.subrange(0, i + 1));
        }
        i = i + 1;
    }
    proof {
        assert(s@.subrange(0, s@.len() as int) =~= s@);
    }
}

/// Appends a register's name.
fn push_reg(out: &mut Vec<u8>, r: Register)
    ensures
        final(out)@ == old(out)@ + reg_text(r),
{
    match r {
        Register::RAX => push_lit(out, &[82u8, 65u8, 88u8]),
        Register::RBX => push_lit(out, &[82u8, 66u8, 88u8]),
        Register::RCX => push_lit(out, &[82u8, 67u8, 88u8]),
        Register::RDX => push_lit(out, &[82u8, 68u8, 88u8]),
        Register::R8 => push_lit(out, &[82u8, 56u8]),
        Register::R15 => push_lit(out, &[82u8, 49u8, 53u8]),
    }
    proof {
        assert(final(out)@ =~= old(out)@ + reg_text(r));
    }
}

/// Appends the decimal text of a signed immediate.
fn push_dec_i32(out: &mut Vec<u8>, n: i32)
    ensures
        final(out)@ == old(out)@ + dec_i32(n),
{
    if n >= 0 {
        crate::printer::push_dec_u64(out, n as u64);
    } else {
        out.push(45u8);
        let mag: u64 = (-(n as i64)) as u64;
        crate::printer::push_dec_u64(out, mag);
        proof {
            assert(out@ =~= old(out)@ + dec_i32(n));
        }
    }
}

/// Appends an operand's text.
fn push_operand(out: &mut Vec<u8>, o: &AsmOperand)
    ensures
        final(out)@ == old(out)@ + operand_text(*o),
{
    match o {
        AsmOperand::RegisterOperand(r) => push_reg(out, *r),
        AsmOperand::Value(n) => push_dec_i32(out, *n),
        AsmOperand::Memory(a) => {
            out.push(91u8);
            crate::printer::push_dec_u64(out, *a as u64);
            out.push(93u8);
            proof {
                assert(out@ =~= old(out)@ + operand_text(*o));
            }
        },
        AsmOperand::MemoryRegister(r) => {
            out.push(91u8);
            push_reg(out, *r);
            out.push(93u8);
            proof {
                assert(out@ =~= old(out)@ + operand_text(*o));
            }
        },
    }
}

/// Appends a label's characters.
fn push_label(out: &mut Vec<u8>, l: &String)
    ensures
        final(out)@ == old(out)@ + encode_utf8(l@),
{
    push_lit(out, l.as_str().as_bytes());
}

/// Appends one two-operand line, already split into its pieces.
fn push_binary_line(out: &mut Vec<u8>, mnemonic: &[u8], d: &AsmOperand, qualifier: bool, s: &AsmOperand)
    ensures
        final(out)@ == old(out)@ + binary_line(
            mnemonic@,
            operand_text(*d),
            qualifier,
            operand_text(*s),
        ),
{
    push_lit(out, mnemonic);
    push_operand(out, d);
    push_lit(out, &[44u8, 32u8]);
    if qualifier {
        push_lit(out, &[100u8, 119u8, 111u8, 114u8, 100u8, 32u8]);
    }
    push_operand(out, s);
    out.push(10u8);
    proof {
        assert(out@ =~= old(out)@ + binary_line(
            mnemonic@,
            operand_text(*d),
            qualifier,
            operand_text(*s),
        ));
    }
}

/// Appends a jump-family line: a mnemonic, a space, the label, a newline.
fn push_jump_line(out: &mut Vec<u8>, mnemonic: &[u8], l: &String)
    ensures
        final(out)@ == old(out)@ + mnemonic@ + encode_utf8(l@) + seq![10u8],
{
    push_lit(out, mnemonic);
    push_label(out, l);
    out.push(10u8);
    proof {
        assert(out@ =~= old(out)@ + mnemonic@ + encode_utf8(l@) + seq![10u8]);
    }
}

/// Renders one instruction, appending its canonical text; fails on the
/// shapes the dialect cannot express.
#[verifier::rlimit(60)]
pub fn render_op(out: &mut Vec<u8>, op: &AsmOp) -> (r: Result<(), CompileError>)
    ensures
        match r {
            Ok(_) => op_text(*op) matches Some(t) && final(out)@ == old(out)@ + t,
            Err(e) => {
                &&& op_text(*op) is None
                &&& e == CompileError::UnsupportedInstruction
                &&& final(out)@ == old(out)@
            },
        },
{
    match op {
        AsmOp::Add(d, s) => {
            let q = match (d, s) {
                (AsmOperand::Memory(_), AsmOperand::Value(_)) => true,
                _ => false,
            };
            push_binary_line(out, &[97u8, 100u8, 100u8, 32u8], d, q, s);
            Ok(())
        },
        AsmOp::Sub(r, s) => {
            push_binary_line(
                out,
                &[115u8, 117u8, 98u8, 32u8],
                &AsmOperand::RegisterOperand(*r),
                false,
                s,
            );
            Ok(())
        },
        AsmOp::Mul(r, s) => {
            push_binary_line(
                out,
                &[105u8, 109u8, 117u8, 108u8, 32u8],
                &AsmOperand::RegisterOperand(*r),
                false,
                s,
            );
            Ok(())
        },
        AsmOp::Div(_, _) => Err(CompileError::UnsupportedInstruction),
        AsmOp::Mod(_, _) => Err(CompileError::UnsupportedInstruction),
        AsmOp::Mov(d, s) => {
            let q = match (d, s) {
                (AsmOperand::Memory(_), AsmOperand::Value(_)) => true,
                (AsmOperand::MemoryRegister(_), AsmOperand::Value(_)) => true,
                _ => false,
            };
            push_binary_line(out, &[109u8, 111u8, 118u8, 32u8], d, q, s);
            Ok(())
        },
        AsmOp::Push(o) => {
            push_lit(out, &[112u8, 117u8, 115u8, 104u8, 113u8, 32u8]);
            push_operand(out, o);
            out.push(10u8);
            proof {
                assert(out@ =~= old(out)@ + op_text(*op).unwrap());
            }
            Ok(())
        },
        AsmOp::Pop(o) => {
            push_lit(out, &[112u8, 111u8, 112u8, 113u8, 32u8]);
            push_operand(out, o);
            out.push(10u8);
            proof {
                assert(out@ =~= old(out)@ + op_text(*op).unwrap());
            }
            Ok(())
        },
        AsmOp::Out => {
            push_lit(out, &[10u8]);
            push_lit(out, &[59u8, 112u8, 114u8, 105u8, 110u8, 116u8, 105u8, 110u8, 103u8, 32u8]);
            push_lit(out, &[118u8, 97u8, 114u8, 105u8, 97u8, 98u8, 108u8, 101u8, 10u8]);
            push_lit(out, &[112u8, 117u8, 115u8, 104u8, 32u8, 114u8, 56u8, 10u8]);
            push_lit(out, &[112u8, 117u8, 115u8, 104u8, 32u8, 114u8, 99u8, 120u8, 10u8]);
            push_lit(
                out,
                &[109u8, 111u8, 118u8, 32u8, 114u8, 49u8, 48u8, 44u8, 32u8, 112u8, 114u8, 105u8, 110u8, 116u8, 10u8],
            );
            push_lit(
                out,
                &[105u8, 110u8, 118u8, 111u8, 107u8, 101u8, 32u8, 114u8, 49u8, 48u8, 44u8, 32u8, 113u8, 119u8, 111u8, 114u8, 100u8, 32u8, 91u8, 114u8, 56u8, 93u8, 10u8],
            );
            push_lit(out, &[112u8, 111u8, 112u8, 32u8, 114u8, 99u8, 120u8, 10u8]);
            push_lit(out, &[112u8, 111u8, 112u8, 32u8, 114u8, 56u8, 10u8]);
            push_lit(out, &[10u8]);
            proof {
                assert(out@ =~= old(out)@ + out_text());
            }
            Ok(())
        },
        AsmOp::Label(l) => {
            push_label(out, l);
            push_lit(out, &[58u8, 10u8]);
            proof {
                assert(out@ =~= old(out)@ + op_text(*op).unwrap());
            }
            Ok(())
        },
        AsmOp::Loop(l) => {
            push_lit(out, &[13u8, 108u8, 111u8, 111u8, 112u8, 113u8, 32u8]);
            push_label(out, l);
            out.push(10u8);
            proof {
                assert(out@ =~= old(out)@ + op_text(*op).unwrap());
            }
            Ok(())
        },
        AsmOp::Cmp(l, r) => {
            push_binary_line(out, &[99u8, 109u8, 112u8, 32u8], l, false, r);
            Ok(())
        },
        AsmOp::Je(l) => {
            push_jump_line(out, &[106u8, 101u8, 32u8], l);
            Ok(())
        },
        AsmOp::Ja(l) => {
            push_jump_line(out, &[106u8, 97u8, 32u8], l);
            Ok(())
        },
        AsmOp::Jb(l) => {
            push_jump_line(out, &[106u8, 98u8, 32u8], l);
            Ok(())
        },
        AsmOp::Jne(l) => {
            push_jump_line(out, &[106u8, 110u8, 101u8, 32u8], l);
            Ok(())
        },
        AsmOp::Jae(l) => {
            push_jump_line(out, &[106u8, 97u8, 101u8, 32u8], l);
            Ok(())
        },
        AsmOp::Jbe(l) => {
            push_jump_line(out, &[106u8, 98u8, 101u8, 32u8], l);
            Ok(())
        },
        AsmOp::Jmp(l) => {
            push_jump_line(out, &[106u8, 109u8, 112u8, 32u8], l);
            Ok(())
        },
        AsmOp::Nop => Err(CompileError::UnsupportedInstruction),
    }
}

/// Renders a whole instruction list as one body of assembler text, in order;
/// fails, producing nothing, on the first instruction the dialect cannot
/// express. The fixed header of the full source unit (the runtime-support
/// inclusion and the initialization directive naming the output-staging
/// offset and the print builtin's address) is the embedder's to prepend,
/// since only it knows the builtin's address.
#[verifier::loop_isolation(false)]
pub fn render_program(ops: &Vec<AsmOp>) -> (r: Result<Vec<u8>, CompileError>)
    ensures
        match r {
            Ok(text) => ops_text(ops@) == Some(text@),
            Err(e) => ops_text(ops@) is None && e == CompileError::UnsupportedInstruction,
        },
{
    let mut out: Vec<u8> = Vec::new();
    let mut i: usize = 0;
    while i < ops.len()
        invariant
            i <= ops@.len(),
            ops_text(ops@.subrange(0, i as int)) == Some(out@),
        decreases ops@.len() - i,
    {
        match render_op(&mut out, &ops[i]) {
            Ok(_) => {
                proof {
                    assert(ops@.subrange(0, i + 1).drop_last() =~= ops@.subrange(0, i as int));
                    assert(ops@.subrange(0, i + 1).last() == ops@[i as int]);
                }
            },
            Err(e) => {
                proof {
                    assert(ops@.subrange(0, i + 1).drop_last() =~= ops@.subrange(0, i as int));
                    assert(ops@.subrange(0, i + 1).last() == ops@[i as int]);
                    lemma_ops_text_prefix_none(ops@, i + 1);
                }
                return Err(e);
            },
        }
        i = i + 1;
    }
    proof {
        assert(ops@.subrange(0, ops@.len() as int) =~= ops@);
    }
    Ok(out)
}

/// The hexadecimal digits of `n`, most significant first, lower case.
pub open spec fn hex_u64(n: u64) -> Seq<u8>
    decreases n,
{
    if n < 16 {
        seq![hex_digit(n % 16)]
    } else {
        hex_u64(n / 16).push(hex_digit(n % 16))
    }
}

/// One hexadecimal digit character.
pub open spec fn hex_digit(d: u64) -> u8 {
    if d < 10 {
        (48 + d) as u8
    } else {
        (87 + d) as u8
    }
}

/// Appends the hexadecimal digits of `n`.
fn push_hex_u64(out: &mut Vec<u8>, n: u64)
    ensures
        final(out)@ == old(out)@ + hex_u64(n),
    decreases n,
{
    if n >= 16 {
        push_hex_u64(out, n / 16);
    }
    let d: u64 = n % 16;
    let c: u8 = if d < 10 {
        48 + d as u8
    } else {
        87 + d as u8
    };
    out.push(c);
    proof {
        assert(out@ =~= old(out)@ + hex_u64(n));
    }
}

/// A `0x`-prefixed lower-case hexadecimal literal for an address, as the
/// initialization directive of the rendered source unit carries the print
/// builtin's address.
pub fn hex_literal(addr: u64) -> (r: Vec<u8>)
    ensures
        r@ == seq![48u8, 120u8] + hex_u64(addr),
{
    let mut out: Vec<u8> = Vec::new();
    out.push(48u8);
    out.push(120u8);
    push_hex_u64(&mut out, addr);
    proof {
        assert(out@ =~= seq![48u8, 120u8] + hex_u64(addr));
    }
    out
}

} // verus!
