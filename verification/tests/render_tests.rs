use coki::asm_ops::{AsmOp, AsmOperand, Register};
use coki::render::{hex_literal, render_program};
use coki::CompileError;

fn text_of(ops: Vec<AsmOp>) -> String {
    let rendered = render_program(&ops).expect("these instructions should render");
    String::from_utf8(rendered).expect("rendered text should be UTF-8")
}

#[test]
fn push_and_pop_render_with_operand_text() {
    let text = text_of(vec![
        AsmOp::Push(AsmOperand::Value(3)),
        AsmOp::Pop(AsmOperand::Memory(1000)),
        AsmOp::Push(AsmOperand::RegisterOperand(Register::RAX)),
    ]);
    assert_eq!(text, "pushq 3\npopq [1000]\npushq RAX\n");
}

#[test]
fn negative_immediates_render_with_sign() {
    let text = text_of(vec![AsmOp::Push(AsmOperand::Value(-7))]);
    assert_eq!(text, "pushq -7\n");
}

#[test]
fn memory_destination_with_immediate_source_carries_size_qualifier() {
    let text = text_of(vec![
        AsmOp::Mov(AsmOperand::Memory(1000), AsmOperand::Value(5)),
        AsmOp::Mov(
            AsmOperand::MemoryRegister(Register::R8),
            AsmOperand::Value(5),
        ),
        AsmOp::Add(AsmOperand::Memory(1008), AsmOperand::Value(2)),
    ]);
    assert_eq!(
        text,
        "mov [1000], dword 5\nmov [R8], dword 5\nadd [1008], dword 2\n"
    );
}

#[test]
fn register_forms_omit_the_size_qualifier() {
    let text = text_of(vec![
        AsmOp::Mov(
            AsmOperand::RegisterOperand(Register::RAX),
            AsmOperand::Value(5),
        ),
        AsmOp::Add(
            AsmOperand::RegisterOperand(Register::RAX),
            AsmOperand::RegisterOperand(Register::RBX),
        ),
        AsmOp::Sub(Register::RAX, AsmOperand::RegisterOperand(Register::RBX)),
        AsmOp::Mul(Register::RAX, AsmOperand::Value(3)),
    ]);
    assert_eq!(text, "mov RAX, 5\nadd RAX, RBX\nsub RAX, RBX\nimul RAX, 3\n");
}

#[test]
fn labels_loops_compares_and_jumps_render_as_directives() {
    let text = text_of(vec![
        AsmOp::Label("top".to_string()),
        AsmOp::Cmp(
            AsmOperand::RegisterOperand(Register::RCX),
            AsmOperand::Value(0),
        ),
        AsmOp::Je("done".to_string()),
        AsmOp::Jne("top".to_string()),
        AsmOp::Jmp("top".to_string()),
        AsmOp::Loop("top".to_string()),
    ]);
    assert_eq!(
        text,
        "top:\ncmp RCX, 0\nje done\njne top\njmp top\n\rloopq top\n"
    );
}

#[test]
fn output_instruction_renders_the_print_call_block() {
    let text = text_of(vec![AsmOp::Out]);
    assert_eq!(
        text,
        "\n;printing variable\npush r8\npush rcx\nmov r10, print\n\
         invoke r10, qword [r8]\npop rcx\npop r8\n\n"
    );
}

#[test]
fn division_remainder_and_noop_have_no_rendering() {
    for op in [
        AsmOp::Div(Register::RAX, AsmOperand::RegisterOperand(Register::RBX)),
        AsmOp::Mod(Register::RAX, AsmOperand::RegisterOperand(Register::RBX)),
        AsmOp::Nop,
    ] {
        assert_eq!(
            render_program(&vec![op]),
            Err(CompileError::UnsupportedInstruction)
        );
    }
}

#[test]
fn hex_literal_is_prefixed_lower_case() {
    assert_eq!(hex_literal(255), b"0xff".to_vec());
    assert_eq!(hex_literal(0), b"0x0".to_vec());
    assert_eq!(hex_literal(0xdeadbeef), b"0xdeadbeef".to_vec());
}
